use pico_httpd::handler::Answer;
use pico_httpd::response::{next_block, render, write_head, MAX_TX_BLOCK};
use pico_httpd::write_buf::{WriteBuf, WriteError};

const HEAD: &[u8] = b"HTTP/1.1 200\r\nContent-Length: 5\r\nContent-Type: text/css\r\n\r\n";

#[test]
fn a_response_is_its_head_and_its_body() {
    let mut bytes = [0u8; 100];
    let answer = Answer { status: 200, content_type: "text/css", body: b"p { }" };
    let n = render(&mut bytes, &answer).unwrap();
    assert_eq!(n, HEAD.len() + 5);
    assert_eq!(&bytes[..HEAD.len()], HEAD);
    assert_eq!(&bytes[HEAD.len()..n], b"p { }");
    assert!(bytes[n..].iter().all(|b| *b == 0));
}

#[test]
fn an_empty_body_has_length_zero() {
    let mut bytes = [0u8; 100];
    let answer = Answer { status: 204, content_type: "a", body: b"" };
    let n = render(&mut bytes, &answer).unwrap();
    assert_eq!(&bytes[..n], b"HTTP/1.1 204\r\nContent-Length: 0\r\nContent-Type: a\r\n\r\n");
}

#[test]
fn the_announced_length_is_the_length_of_the_body() {
    for length in [0usize, 9, 10, 99, 1000, 5000] {
        let body = vec![b'x'; length];
        let mut bytes = [0u8; 8192];
        let answer = Answer { status: 200, content_type: "t", body: &body };
        let n = render(&mut bytes, &answer).unwrap();
        let text = String::from_utf8(bytes[..n].to_vec()).unwrap();
        let (head, rest) = text.split_once("\r\n\r\n").unwrap();
        let announced = head.split_once("Content-Length: ").unwrap().1;
        let announced = announced.split_once("\r\n").unwrap().0;
        assert_eq!(announced.parse::<usize>().unwrap(), rest.len());
        assert_eq!(rest.len(), length);
    }
}

#[test]
fn a_response_may_fill_the_buffer_but_not_more() {
    let answer = Answer { status: 200, content_type: "text/css", body: b"p { }" };
    let mut exact = vec![0u8; HEAD.len() + 5];
    assert_eq!(render(&mut exact, &answer), Ok(HEAD.len() + 5));
    let mut short = vec![0u8; HEAD.len() + 4];
    assert_eq!(render(&mut short, &answer), Err(WriteError));
    assert_eq!(&short[..HEAD.len()], HEAD);
    assert_eq!(&short[HEAD.len()..], [0, 0, 0, 0]);
    let mut tiny = [0u8; 10];
    assert_eq!(render(&mut tiny, &answer), Err(WriteError));
    assert_eq!(&tiny, b"HTTP/1.1 \0");
}

#[test]
fn a_head_is_appended() {
    let mut bytes = [0u8; 80];
    let mut w = WriteBuf::new(&mut bytes);
    w.write_bytes(b"> ").unwrap();
    write_head(&mut w, 200, 5, "text/css").unwrap();
    assert_eq!(w.as_slice()[2..], *HEAD);
}

#[test]
fn blocks_make_up_the_bytes() {
    for length in [0usize, 1, 1023, 1024, 1025, 2048, 3000] {
        let tx: Vec<u8> = (0..length).map(|i| (i % 251) as u8).collect();
        let mut left: &[u8] = &tx;
        let mut sent: Vec<u8> = Vec::new();
        let mut count = 0;
        while !left.is_empty() {
            let block = next_block(left);
            assert!(!block.is_empty() && block.len() <= MAX_TX_BLOCK);
            sent.extend_from_slice(block);
            left = &left[block.len()..];
            count += 1;
        }
        assert_eq!(sent, tx);
        assert_eq!(count, (length + 1023) / 1024);
    }
}
