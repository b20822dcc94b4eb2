use pico_httpd::request::{parse_request, Parsed};

fn parts(p: Parsed) -> Option<(Option<String>, Option<String>)> {
    match p {
        Parsed::Complete(request) => Some((request.method, request.path)),
        _ => None,
    }
}

fn headers(n: usize) -> Vec<u8> {
    let mut bytes = b"GET / HTTP/1.1\r\n".to_vec();
    for i in 0..n {
        bytes.extend_from_slice(format!("X-{}: {}\r\n", i, i).as_bytes());
    }
    bytes.extend_from_slice(b"\r\n");
    bytes
}

#[test]
fn a_whole_head_is_complete() {
    let p = parse_request(b"GET /cmd/on HTTP/1.1\r\nHost: pico\r\n\r\n");
    assert_eq!(parts(p), Some((Some("GET".to_string()), Some("/cmd/on".to_string()))));
}

#[test]
fn what_follows_the_head_does_not_matter() {
    let p = parse_request(b"POST /x HTTP/1.1\r\n\r\n\0\0\0\0rest");
    assert_eq!(parts(p), Some((Some("POST".to_string()), Some("/x".to_string()))));
}

#[test]
fn the_beginning_of_a_head_is_partial() {
    assert!(matches!(parse_request(b""), Parsed::Partial));
    assert!(matches!(parse_request(b"GET / HT"), Parsed::Partial));
    assert!(matches!(parse_request(b"GET / HTTP/1.1\r\nHost: pi"), Parsed::Partial));
}

#[test]
fn other_bytes_are_malformed() {
    assert!(matches!(parse_request(b"\0\0\0\0"), Parsed::Malformed));
    assert!(matches!(parse_request(b"GET / FTP/1.1\r\n\r\n"), Parsed::Malformed));
    assert!(matches!(parse_request(b"GET / HTTP/1.1\r\nHost: pi\0\0"), Parsed::Malformed));
}

#[test]
fn twenty_header_fields_are_enough() {
    assert!(matches!(parse_request(&headers(20)), Parsed::Complete(_)));
    assert!(matches!(parse_request(&headers(21)), Parsed::Malformed));
}
