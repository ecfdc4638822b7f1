use rust_browser::{FetchError, Step, URL};

fn parse(s: &str) -> URL {
    URL::new(s.to_string()).unwrap()
}

#[test]
fn data_fetch_returns_payload() {
    assert_eq!(parse("data:text/plain,hello").read_data(), Ok("hello".to_string()));
    assert_eq!(parse("data:a,b,c").read_data(), Ok("b,c".to_string()));
}

#[test]
fn data_without_comma_is_malformed() {
    assert_eq!(parse("data:hello").read_data(), Err(FetchError::MalformedLocator));
}

#[test]
fn data_plan_is_done() {
    match parse("data:text/plain,hello").plan() {
        Step::Done(r) => assert_eq!(r, Ok("hello".to_string())),
        _ => panic!("expected an inline body"),
    }
}

#[test]
fn file_plan_reads_path() {
    match parse("view-source:file:///tmp/page.html").plan() {
        Step::ReadFile(p) => assert_eq!(p, "tmp/page.html"),
        _ => panic!("expected a file read"),
    }
}

#[test]
fn https_plan_connects_with_tls() {
    match parse("https://a.b:444/q").plan() {
        Step::Connect { host, port, tls, request } => {
            assert_eq!(host, "a.b");
            assert_eq!(port, 444);
            assert!(tls);
            assert_eq!(
                request,
                "GET /q HTTP/1.1\r\nHost: a.b\r\nConnection: close\r\nUser-Agent: RustBrowser/1.0\r\n\r\n"
            );
        }
        _ => panic!("expected a connection"),
    }
}

#[test]
fn http_plan_connects_plain() {
    match parse("http://a.b").plan() {
        Step::Connect { port, tls, .. } => {
            assert_eq!(port, 80);
            assert!(!tls);
        }
        _ => panic!("expected a connection"),
    }
}

#[test]
fn view_source_file_shows_bytes_verbatim() {
    let content = "<html>\n  <body>&lt;x&gt; &amp;</body>\n</html>";
    let u = parse("view-source:file:///tmp/page.html");
    assert_eq!(u.display_text(content), content);
}

#[test]
fn plain_file_is_rendered() {
    let u = parse("file:///tmp/page.html");
    assert_eq!(u.display_text("<b>A&lt;B</b>"), "A<B");
}
