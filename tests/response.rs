use rust_browser::{decode_response, is_unsupported_encoding, FetchError};

#[test]
fn body_after_headers() {
    let r = "HTTP/1.1 200 OK\r\nContent-Type: text/html\r\nX-A:  b \r\n\r\n<p>hi</p>\r\nmore";
    assert_eq!(decode_response(r), Ok("<p>hi</p>\r\nmore".to_string()));
}

#[test]
fn transfer_encoding_is_refused() {
    let r = "HTTP/1.1 200 OK\r\nTransfer-Encoding: chunked\r\n\r\n5\r\nhello\r\n0\r\n\r\n";
    assert_eq!(decode_response(r), Err(FetchError::ProtocolError));
}

#[test]
fn content_encoding_is_refused_in_any_case() {
    let r = "HTTP/1.1 200 OK\r\nHost: x\r\nCONTENT-ENCODING: gzip\r\n\r\nzz";
    assert_eq!(decode_response(r), Err(FetchError::ProtocolError));
}

#[test]
fn short_status_line_is_refused() {
    assert_eq!(decode_response("HTTP/1.1 200\r\n\r\nbody"), Err(FetchError::ProtocolError));
    assert_eq!(decode_response(""), Err(FetchError::ProtocolError));
}

#[test]
fn header_without_colon_is_refused() {
    assert_eq!(
        decode_response("HTTP/1.1 200 OK\r\nbroken header\r\n\r\nbody"),
        Err(FetchError::ProtocolError)
    );
}

#[test]
fn response_without_blank_line_has_empty_body() {
    assert_eq!(decode_response("HTTP/1.0 200 OK\r\nA: b"), Ok(String::new()));
}

#[test]
fn folded_key_check() {
    assert!(is_unsupported_encoding("transfer-encoding"));
    assert!(is_unsupported_encoding("content-encoding"));
    assert!(!is_unsupported_encoding("Transfer-Encoding"));
    assert!(!is_unsupported_encoding("content-type"));
}
