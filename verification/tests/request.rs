use server::request::Request;
use server::text::split_text;

#[test]
fn splits_on_every_occurrence() {
    let pieces = split_text("a, b,, c", ", ");
    assert_eq!(pieces, vec!["a".to_string(), "b,".to_string(), "c".to_string()]);
}

#[test]
fn split_keeps_empty_pieces() {
    let pieces = split_text("\r\n\r\n", "\r\n");
    assert_eq!(pieces, vec![String::new(), String::new(), String::new()]);
}

#[test]
fn split_agrees_with_std_on_overlapping_separators() {
    let text = "aaaa:: : b";
    for sep in ["aa", "::", ": ", "b", "x"] {
        let expected: Vec<String> = text.split(sep).map(|p| p.to_string()).collect();
        assert_eq!(split_text(text, sep), expected);
    }
}

#[test]
fn reads_request_line_and_headers() {
    let request = Request::from_buffer(
        b"GET /index.html HTTP/1.1\r\nHost: example.org\r\nAccept: text/html\r\n\r\nbody: not a header",
    );
    assert_eq!(request.method, "GET");
    assert_eq!(request.path, "/index.html");
    assert_eq!(request.http_ver, "HTTP/1.1");
    assert_eq!(request.headers.len(), 2);
    assert_eq!(request.headers.get("Host"), Some(&"example.org".to_string()));
    assert_eq!(request.headers.get("Accept"), Some(&"text/html".to_string()));
    assert_eq!(request.headers.get("body"), None);
}

#[test]
fn later_header_replaces_earlier() {
    let request = Request::from_buffer(b"GET / HTTP/1.1\r\nA: 1\r\nB: 2\r\nA: 3: 4\r\n");
    assert_eq!(request.headers.len(), 2);
    assert_eq!(request.headers.get("A"), Some(&"3".to_string()));
    assert_eq!(request.headers.get("B"), Some(&"2".to_string()));
}

#[test]
fn zero_padded_buffer_is_read() {
    let mut buffer = [0u8; 1024];
    let head = b"POST /submit HTTP/1.0\r\nContent-Length: 0\r\n\r\n";
    buffer[..head.len()].copy_from_slice(head);
    let request = Request::from_buffer(&buffer);
    assert_eq!(request.method, "POST");
    assert_eq!(request.path, "/submit");
    assert_eq!(request.http_ver, "HTTP/1.0");
    assert_eq!(request.headers.len(), 1);
    assert_eq!(request.headers.get("Content-Length"), Some(&"0".to_string()));
}

#[test]
fn ill_formed_bytes_become_replacement_characters() {
    let request = Request::from_buffer(b"GET /\xff HTTP/1.1\r\n");
    assert_eq!(request.path, "/\u{fffd}");
}

#[test]
fn short_request_line_is_refused() {
    assert!(Request::try_from_buffer(b"GET /\r\nHost: x\r\n").is_none());
    assert!(Request::try_from_buffer(b"").is_none());
    assert!(!Request::starts_with_request_line("GET"));
}

#[test]
fn complete_request_line_is_accepted() {
    let request = Request::try_from_buffer(b"GET / HTTP/1.1").unwrap();
    assert_eq!(request.method, "GET");
    assert_eq!(request.path, "/");
    assert_eq!(request.http_ver, "HTTP/1.1");
    assert_eq!(request.headers.len(), 0);
}
