use pico_httpd::handler::{
    answer_request, handle_request, Answer, Pages, CSS, HTML, NOT_FOUND_PAGE, ONLY_GET_PAGE,
    UNKNOWN_COMMAND_PAGE,
};
use pico_httpd::request::Request;

const PAGES: Pages<'static> = Pages { index: b"<p>switch</p>", style: b"p { color: red }" };

fn request(method: &str, path: &str) -> Request {
    Request { method: Some(method.to_string()), path: Some(path.to_string()) }
}

fn ask(method: &str, path: &str, led_on: &mut bool) -> Answer<'static> {
    answer_request(&request(method, path), &PAGES, led_on)
}

#[test]
fn commands_switch_the_lamp() {
    let mut led_on = false;
    let a = ask("GET", "/cmd/on", &mut led_on);
    assert!(led_on);
    assert_eq!(a.status, 204);
    assert!(a.body.is_empty());
    assert_eq!(a.content_type, "text/html;charset=UTF-8");
    let a = ask("GET", "/cmd/off", &mut led_on);
    assert!(!led_on);
    assert_eq!(a.status, 204);
    assert!(a.body.is_empty());
    ask("GET", "/cmd/only?x", &mut led_on);
    assert!(led_on);
    ask("GET", "/cmd/off/now", &mut led_on);
    assert!(!led_on);
}

#[test]
fn switching_twice_is_switching_once() {
    let mut led_on = false;
    ask("GET", "/cmd/on", &mut led_on);
    ask("GET", "/cmd/on", &mut led_on);
    assert!(led_on);
    ask("GET", "/cmd/off", &mut led_on);
    ask("GET", "/cmd/off", &mut led_on);
    assert!(!led_on);
}

#[test]
fn other_commands_are_refused() {
    for path in ["/cmd/", "/cmd/o", "/cmd/of", "/cmd/ON", "/cmd/ on"] {
        for before in [false, true] {
            let mut led_on = before;
            let a = ask("GET", path, &mut led_on);
            assert_eq!(led_on, before);
            assert_eq!(a.status, 400);
            assert_eq!(a.body, UNKNOWN_COMMAND_PAGE.as_bytes());
            assert_eq!(a.content_type, HTML);
        }
    }
}

#[test]
fn pages_are_served() {
    let mut led_on = true;
    for path in ["/", "/index.html", "/index.html?a=b", "/index.htmlx"] {
        let a = ask("GET", path, &mut led_on);
        assert_eq!(a.status, 200);
        assert_eq!(a.body, PAGES.index);
        assert_eq!(a.content_type, HTML);
    }
    for path in ["/style.css", "/style.css?1"] {
        let a = ask("GET", path, &mut led_on);
        assert_eq!(a.status, 200);
        assert_eq!(a.body, PAGES.style);
        assert_eq!(a.content_type, CSS);
        assert_eq!(a.content_type, "text/css");
    }
    assert!(led_on);
}

#[test]
fn everything_else_is_not_found() {
    let mut led_on = true;
    for path in ["", "//", "/x", "/cmd", "/index", "/style", "index.html", "/Index.html"] {
        let a = ask("GET", path, &mut led_on);
        assert_eq!(a.status, 404);
        assert_eq!(a.body, NOT_FOUND_PAGE.as_bytes());
        assert_eq!(a.content_type, HTML);
    }
    let pathless = Request { method: Some("GET".to_string()), path: None };
    assert_eq!(answer_request(&pathless, &PAGES, &mut led_on).status, 404);
    assert!(led_on);
}

#[test]
fn only_get_is_allowed() {
    for method in ["POST", "PUT", "HEAD", "get", "GETX", ""] {
        let mut led_on = false;
        let a = ask(method, "/cmd/on", &mut led_on);
        assert!(!led_on);
        assert_eq!(a.status, 400);
        assert_eq!(a.body, ONLY_GET_PAGE.as_bytes());
    }
    let mut led_on = true;
    let nameless = Request { method: None, path: Some("/cmd/off".to_string()) };
    assert_eq!(answer_request(&nameless, &PAGES, &mut led_on).status, 400);
    assert!(led_on);
}

#[test]
fn what_a_route_leaves_open_keeps_its_value() {
    let mut status = 1;
    let mut content_type = "a/b";
    let mut body: &[u8] = b"c";
    let mut led_on = true;
    let req = request("GET", "/elsewhere");
    handle_request(&req, &PAGES, &mut status, &mut content_type, &mut body, &mut led_on);
    assert_eq!((status, content_type, body, led_on), (1, "a/b", &b"c"[..], true));
    let req = request("GET", "/cmd/off");
    handle_request(&req, &PAGES, &mut status, &mut content_type, &mut body, &mut led_on);
    assert_eq!((status, content_type, body, led_on), (204, "a/b", &b""[..], false));
}

#[test]
fn the_texts_of_the_pages() {
    assert_eq!(
        NOT_FOUND_PAGE,
        "<html><head><title>Not found</title></head><body>404 Not found</body></html>"
    );
    assert_eq!(
        ONLY_GET_PAGE,
        "<html><head><title>Illegal request</title></head><body>400 Only GET allowed</body></html>"
    );
    assert_eq!(
        UNKNOWN_COMMAND_PAGE,
        "<html><head><title>Illegal request</title></head><body>400 Unknown command</body></html>"
    );
}
