use hyprlance::request::HttpRequest;

fn strings(v: &[&str]) -> Vec<String> {
    v.iter().map(|s| s.to_string()).collect()
}

#[test]
fn empty_input_gives_empty_request() {
    let r = HttpRequest::parse("");
    assert_eq!(r.method, "");
    assert_eq!(r.url, "");
    assert!(r.headers.is_empty());
    assert!(r.cookies.is_empty());
    assert!(r.body.is_empty());
}

#[test]
fn cookie_lines_are_separated_from_headers() {
    let r = HttpRequest::parse("GET /p HTTP/1.1\r\nHost: example.com\r\nCookie: a=1\r\n\r\nfoo=bar");
    assert_eq!(r.method, "GET");
    assert_eq!(r.url, "/p");
    assert_eq!(r.headers, strings(&["Host: example.com"]));
    assert_eq!(r.cookies, strings(&["a=1"]));
    assert_eq!(r.body, strings(&["foo=bar"]));
}

#[test]
fn cookie_match_ignores_case_and_trims_value() {
    let r = HttpRequest::parse("GET / HTTP/1.1\ncOOKIE:   x=2; y=3 \t\nAccept: */*\n");
    assert_eq!(r.cookies, strings(&["x=2; y=3"]));
    assert_eq!(r.headers, strings(&["Accept: */*"]));
    assert!(r.body.is_empty());
}

#[test]
fn single_word_request_line_gives_empty_method_and_target() {
    let r = HttpRequest::parse("GET\r\nHost: a\r\n");
    assert_eq!(r.method, "");
    assert_eq!(r.url, "");
    assert_eq!(r.headers, strings(&["Host: a"]));
}

#[test]
fn request_line_words_are_split_on_any_whitespace() {
    let r = HttpRequest::parse("  POST \t /submit   HTTP/1.1");
    assert_eq!(r.method, "POST");
    assert_eq!(r.url, "/submit");
    assert!(r.headers.is_empty());
}

#[test]
fn body_keeps_later_empty_lines() {
    let r = HttpRequest::parse("POST /x HTTP/1.1\r\nA: b\r\n\r\nl1\r\n\r\nCookie: z=9\r\nl3");
    assert_eq!(r.headers, strings(&["A: b"]));
    assert!(r.cookies.is_empty());
    assert_eq!(r.body, strings(&["l1", "", "Cookie: z=9", "l3"]));
}

#[test]
fn lossy_text_parses_without_failure() {
    let bytes = [0x47u8, 0x45, 0x54, 0x20, 0xff, 0xfe, 0x20, 0x2f, 0x0a, 0x80];
    let text = String::from_utf8_lossy(&bytes);
    let r = HttpRequest::parse(&text);
    assert_eq!(r.method, "GET");
    assert_eq!(r.url, "\u{fffd}\u{fffd}");
    assert_eq!(r.headers, strings(&["\u{fffd}"]));
}

#[test]
fn request_line_helper_on_no_lines() {
    let (m, u) = HttpRequest::parse_request_line(&[]);
    assert_eq!(m, "");
    assert_eq!(u, "");
}

#[test]
fn content_helper_splits_headers_cookies_body() {
    let lines = strings(&["H: 1", "Cookie: c=1", "", "b"]);
    let (h, c, b) = HttpRequest::parse_request_content(&lines);
    assert_eq!(h, strings(&["H: 1"]));
    assert_eq!(c, strings(&["c=1"]));
    assert_eq!(b, strings(&["b"]));
}

#[test]
fn lines_split_like_str_lines() {
    let text = "a\r\nb\n\nc\r";
    let expected: Vec<String> = text.lines().map(|s| s.to_string()).collect();
    assert_eq!(hyprlance::text::split_lines(text), expected);
}

#[test]
fn parse_bytes_replaces_undecodable_bytes() {
    let r = HttpRequest::parse_bytes(&[0x47, 0x45, 0x54, 0x20, 0x2f, 0xc3, 0x28, 0x0a, 0x48, 0x3a, 0x20, 0xff]);
    assert_eq!(r.method, "GET");
    assert_eq!(r.url, "/\u{fffd}(");
    assert_eq!(r.headers, strings(&["H: \u{fffd}"]));
}

#[test]
fn parse_bytes_of_nothing_is_empty() {
    let r = HttpRequest::parse_bytes(&[]);
    assert_eq!(r.method, "");
    assert!(r.headers.is_empty() && r.cookies.is_empty() && r.body.is_empty());
}

#[test]
fn report_lists_present_blocks() {
    let r = HttpRequest::parse("GET /p HTTP/1.1\r\nHost: h\r\nCookie: a=1\r\n\r\nx");
    assert_eq!(
        r.report(),
        "\nGET /p\n\n\nHEADERS:\nHost: h\n\nCOOKIES:\na=1\n\nBODY:\nx\n"
    );
    assert_eq!(HttpRequest::parse("").report(), "");
}
