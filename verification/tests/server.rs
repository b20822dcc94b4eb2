use pico_httpd::handler::Pages;
use pico_httpd::request::{Parsed, Request};
use pico_httpd::server::{Action, Event, Server, MAX_PAGE_SIZE, RESPONSE_SIZE};
use pico_httpd::write_buf::WriteError;

fn ready<'p>(index: &'p [u8]) -> Server<'p> {
    let mut server = Server::new(Pages { index, style: b"s" });
    assert_eq!(server.action(), Action::SetLed(true));
    assert_eq!(server.step(Event::LedSet), Ok(Action::Accept));
    assert_eq!(server.step(Event::Accepted), Ok(Action::Receive));
    server
}

fn receive(server: &mut Server<'_>, bytes: &[u8]) -> Action {
    server.receive_window()[..bytes.len()].copy_from_slice(bytes);
    let event = Event::Received(bytes.len());
    assert!(server.expects(event));
    server.step(event).unwrap()
}

fn send_all(server: &mut Server<'_>) -> (Vec<Vec<u8>>, Action) {
    let mut blocks = Vec::new();
    let mut action = server.action();
    while action == Action::Send {
        blocks.push(server.block().to_vec());
        action = server.step(Event::Sent).unwrap();
    }
    (blocks, action)
}

#[test]
fn a_request_is_answered() {
    let mut server = ready(b"page");
    assert_eq!(receive(&mut server, b"GET / HTTP/1.1\r\n\r\n"), Action::SetLed(true));
    assert_eq!(server.step(Event::LedSet), Ok(Action::Send));
    let (blocks, action) = send_all(&mut server);
    let expected: &[u8] =
        b"HTTP/1.1 200\r\nContent-Length: 4\r\nContent-Type: text/html;charset=UTF-8\r\n\r\npage";
    assert_eq!(blocks, vec![expected.to_vec()]);
    assert_eq!(action, Action::Receive);
    assert_eq!(server.receive_window().len(), 4096);
}

#[test]
fn the_lamp_is_switched_before_the_answer() {
    let mut server = ready(b"page");
    assert_eq!(receive(&mut server, b"GET /cmd/off HTTP/1.1\r\n\r\n"), Action::SetLed(false));
    assert_eq!(server.step(Event::LedSet), Ok(Action::Send));
    let (blocks, _) = send_all(&mut server);
    assert!(blocks[0].starts_with(b"HTTP/1.1 204\r\nContent-Length: 0\r\n"));
    assert_eq!(receive(&mut server, b"GET /x HTTP/1.1\r\n\r\n"), Action::SetLed(false));
    assert_eq!(server.step(Event::LedSet), Ok(Action::Send));
    send_all(&mut server);
    assert_eq!(receive(&mut server, b"GET /cmd/on HTTP/1.1\r\n\r\n"), Action::SetLed(true));
}

#[test]
fn a_long_response_is_sent_in_blocks() {
    let page = vec![b'x'; 3000];
    let mut server = ready(&page);
    receive(&mut server, b"GET / HTTP/1.1\r\n\r\n");
    assert_eq!(server.step(Event::LedSet), Ok(Action::Send));
    let (blocks, action) = send_all(&mut server);
    assert_eq!(action, Action::Receive);
    assert_eq!(blocks.len(), 4);
    assert!(blocks[..3].iter().all(|b| b.len() == 1024));
    let all = blocks.concat();
    assert!(all.starts_with(b"HTTP/1.1 200\r\nContent-Length: 3000\r\n"));
    assert!(all.ends_with(&page));
}

#[test]
fn a_failed_send_drops_the_rest_of_the_response() {
    let page = vec![b'x'; 3000];
    let mut server = ready(&page);
    receive(&mut server, b"GET / HTTP/1.1\r\n\r\n");
    server.step(Event::LedSet).unwrap();
    assert_eq!(server.step(Event::Sent), Ok(Action::Send));
    assert_eq!(server.step(Event::SendFailed), Ok(Action::Receive));
}

#[test]
fn a_response_that_does_not_fit_is_an_error() {
    let page = vec![b'x'; 8192];
    let mut server = ready(&page);
    assert_eq!(receive(&mut server, b"GET / HTTP/1.1\r\n\r\n"), Action::SetLed(true));
    assert_eq!(server.step(Event::LedSet), Err(WriteError));
    assert_eq!(server.action(), Action::SetLed(true));
}

#[test]
fn a_malformed_request_is_refused() {
    let mut server = ready(b"page");
    assert_eq!(receive(&mut server, b"\x01\x02"), Action::Close);
    assert_eq!(server.step(Event::Closed), Ok(Action::Receive));
    assert_eq!(server.receive_window().len(), 4094);
    assert_eq!(server.step(Event::Received(0)), Ok(Action::Accept));
}

#[test]
fn a_partial_request_is_continued() {
    let filler = [b'a'; 4086];
    let mut server = ready(b"page");
    let mut first = b"GET /".to_vec();
    first.extend_from_slice(&filler);
    // Behind these bytes the buffer still holds zeros, which no request can contain.
    assert_eq!(receive(&mut server, &first), Action::Close);
    assert_eq!(server.step(Event::Closed), Ok(Action::Receive));
    // With the buffer full and no zero left, the path is still open.
    assert_eq!(receive(&mut server, b"aaaaa"), Action::Receive);
    assert_eq!(server.receive_window().len(), 0);
    assert_eq!(server.step(Event::Received(0)), Ok(Action::Accept));
}

#[test]
fn older_bytes_stay_behind_the_received_ones() {
    let mut server = ready(b"page");
    receive(&mut server, b"GET / HTTP/1.1\r\nHost: pico\r\n\r\n");
    server.step(Event::LedSet).unwrap();
    send_all(&mut server);
    // What is left of the last request spoils this one.
    assert_eq!(receive(&mut server, b"GET /cmd/off"), Action::Close);
    let mut server = ready(b"page");
    receive(&mut server, b"GET /aaaaaaa HTTP/1.1\r\n\r\n");
    server.step(Event::LedSet).unwrap();
    send_all(&mut server);
    // What is left of the last request completes this one.
    assert_eq!(receive(&mut server, b"GET /cmd/off"), Action::SetLed(false));
}

#[test]
fn connections_come_and_go() {
    let mut server = ready(b"page");
    assert_eq!(server.step(Event::ReceiveFailed), Ok(Action::Accept));
    assert_eq!(server.step(Event::AcceptFailed), Ok(Action::Accept));
    assert_eq!(server.step(Event::Accepted), Ok(Action::Receive));
    assert_eq!(receive(&mut server, b"\x01"), Action::Close);
    server.step(Event::Closed).unwrap();
    assert_eq!(server.step(Event::Received(0)), Ok(Action::Accept));
    assert_eq!(server.step(Event::Accepted), Ok(Action::Receive));
    assert_eq!(server.receive_window().len(), 4096);
}

#[test]
fn only_fitting_events_are_expected() {
    let mut server = ready(b"page");
    assert!(server.expects(Event::Received(4096)));
    assert!(!server.expects(Event::Received(4097)));
    assert!(server.expects(Event::ReceiveFailed));
    for event in [
        Event::LedSet,
        Event::Accepted,
        Event::AcceptFailed,
        Event::Closed,
        Event::Sent,
        Event::SendFailed,
    ] {
        assert!(!server.expects(event));
    }
    receive(&mut server, b"GET / HTTP/1.1\r\n\r\n");
    assert!(server.expects(Event::LedSet));
    assert!(!server.expects(Event::Received(1)));
}

#[test]
fn a_parsed_request_is_dispatched() {
    let mut server = ready(b"page");
    let request =
        Request { method: Some("GET".to_string()), path: Some("/cmd/off".to_string()) };
    server.dispatch(Parsed::Complete(request));
    assert_eq!(server.action(), Action::SetLed(false));
    server.dispatch(Parsed::Malformed);
    assert_eq!(server.action(), Action::Close);
    server.dispatch(Parsed::Partial);
    assert_eq!(server.action(), Action::Receive);
}

#[test]
fn a_page_of_the_greatest_size_just_fits() {
    let page = vec![b'x'; MAX_PAGE_SIZE];
    let mut server = ready(&page);
    receive(&mut server, b"GET / HTTP/1.1\r\n\r\n");
    assert_eq!(server.step(Event::LedSet), Ok(Action::Send));
    let (blocks, _) = send_all(&mut server);
    assert_eq!(blocks.len(), 8);
    assert_eq!(blocks.concat().len(), RESPONSE_SIZE);
    let page = vec![b'x'; MAX_PAGE_SIZE + 1];
    let mut server = ready(&page);
    receive(&mut server, b"GET / HTTP/1.1\r\n\r\n");
    assert_eq!(server.step(Event::LedSet), Err(WriteError));
}
