use rust_browser::{FetchError, Scheme, URL};

fn parse(s: &str) -> URL {
    URL::new(s.to_string()).unwrap()
}

#[test]
fn network_path_starts_with_slash() {
    let u = parse("http://example.com/a/b");
    assert_eq!(u.path, "/a/b");
    assert!(u.path.starts_with('/'));
}

#[test]
fn bare_host_gets_root_path() {
    let u = parse("http://example.com");
    assert_eq!(u.host, "example.com");
    assert_eq!(u.path, "/");
    let u = parse("https://example.com:8443");
    assert_eq!(u.host, "example.com");
    assert_eq!(u.port, 8443);
    assert_eq!(u.path, "/");
}

#[test]
fn explicit_port_overrides_default() {
    let u = parse("http://a.b:1234/x");
    assert_eq!(u.scheme, Scheme::Http);
    assert_eq!(u.host, "a.b");
    assert_eq!(u.port, 1234);
    assert_eq!(u.path, "/x");
}

#[test]
fn http_default_port() {
    let u = parse("http://a.b/x");
    assert_eq!(u.port, 80);
    assert_eq!(u.host, "a.b");
}

#[test]
fn https_default_port() {
    let u = parse("https://a.b/x");
    assert_eq!(u.scheme, Scheme::Https);
    assert_eq!(u.port, 443);
}

#[test]
fn view_source_wraps_http() {
    let v = parse("view-source:http://a.b/");
    let p = parse("http://a.b/");
    assert!(v.view_source);
    assert!(!p.view_source);
    assert_eq!(v.scheme, p.scheme);
    assert_eq!(v.host, p.host);
    assert_eq!(v.port, p.port);
    assert_eq!(v.path, p.path);
}

#[test]
fn data_path_is_verbatim() {
    let u = parse("data:text/plain,hello");
    assert_eq!(u.scheme, Scheme::Data);
    assert_eq!(u.path, "text/plain,hello");
    assert_eq!(u.host, "");
}

#[test]
fn file_strips_leading_slashes() {
    let u = parse("file:///tmp/x.html");
    assert_eq!(u.scheme, Scheme::File);
    assert_eq!(u.path, "tmp/x.html");
}

#[test]
fn path_keeps_later_colons_and_no_authority_marker() {
    let u = parse("http:a.b/c:d");
    assert_eq!(u.host, "a.b");
    assert_eq!(u.port, 80);
    assert_eq!(u.path, "/c:d");
}

#[test]
fn plus_sign_port_is_accepted() {
    let u = parse("http://h:+81/");
    assert_eq!(u.port, 81);
}

#[test]
fn largest_port() {
    assert_eq!(parse("http://h:65535/").port, 65535);
    assert_eq!(URL::new("http://h:65536/".to_string()).err(), Some(FetchError::MalformedLocator));
}

#[test]
fn missing_delimiter_is_malformed() {
    assert_eq!(URL::new("example.com".to_string()).err(), Some(FetchError::MalformedLocator));
}

#[test]
fn bad_port_is_malformed() {
    assert_eq!(URL::new("http://h:/".to_string()).err(), Some(FetchError::MalformedLocator));
    assert_eq!(URL::new("http://h:8x/".to_string()).err(), Some(FetchError::MalformedLocator));
    assert_eq!(URL::new("http://h:-1/".to_string()).err(), Some(FetchError::MalformedLocator));
}

#[test]
fn unknown_scheme_is_unsupported() {
    assert_eq!(URL::new("ftp://h/".to_string()).err(), Some(FetchError::UnsupportedScheme));
    assert_eq!(
        URL::new("view-source:gopher://h/".to_string()).err(),
        Some(FetchError::UnsupportedScheme)
    );
}
