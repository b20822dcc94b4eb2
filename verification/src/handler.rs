//! Which answer a request gets, and what it does to the lamp.
use crate::request::{Request, RequestView};
use crate::text::{same_text, starts_with, strip_prefix};
use vstd::prelude::*;
#[allow(unused_imports)]
use vstd::string::*;

verus! {

/// The answer to a command that the server does not know.
pub const UNKNOWN_COMMAND_PAGE: &'static str = "<html><head><title>Illegal request</title></head><body>400 Unknown command</body></html>";

/// The answer to a request with a method other than `GET`.
pub const ONLY_GET_PAGE: &'static str = "<html><head><title>Illegal request</title></head><body>400 Only GET allowed</body></html>";

/// The answer to a request for anything else.
pub const NOT_FOUND_PAGE: &'static str = "<html><head><title>Not found</title></head><body>404 Not found</body></html>";

/// The type of every answer but the style sheet.
pub const HTML: &'static str = "text/html;charset=UTF-8";

/// The type of the style sheet.
pub const CSS: &'static str = "text/css";

/// The files that the server hands out.
#[derive(Clone, Copy)]
pub struct Pages<'p> {
    /// The page with the switch.
    pub index: &'p [u8],
    /// Its style sheet.
    pub style: &'p [u8],
}

/// An answer, ready to be framed.
#[derive(Clone, Copy)]
pub struct Answer<'p> {
    pub status: u32,
    pub content_type: &'p str,
    pub body: &'p [u8],
}

/// An answer as text and bytes.
#[verifier::ext_equal]
pub struct AnswerView {
    pub status: u32,
    pub content_type: Seq<char>,
    pub body: Seq<u8>,
}

impl<'p> View for Answer<'p> {
    type V = AnswerView;

    open spec fn view(&self) -> AnswerView {
        AnswerView {
            status: self.status,
            content_type: self.content_type@,
            body: self.body@,
        }
    }
}

impl<'p> Answer<'p> {
    /// The view of an answer is its three parts, unchanged.
    pub proof fn law_view(&self)
        ensures
            self@.status == self.status,
            self@.content_type == self.content_type@,
            self@.body == self.body@,
    {
    }
}

/// What a request asks for.
pub enum Route {
    /// A method other than `GET`.
    NotGet,
    /// Turn the lamp on.
    LampOn,
    /// Turn the lamp off.
    LampOff,
    /// A command that is neither.
    UnknownCommand,
    /// The page with the switch.
    Index,
    /// The style sheet.
    Style,
    /// Anything else.
    Elsewhere,
}

/// What a `GET` of `path` asks for.
pub open spec fn route_of_path(path: Seq<char>) -> Route {
    if "/cmd/"@.is_prefix_of(path) {
        let command = path.skip("/cmd/"@.len() as int);
        if "on"@.is_prefix_of(command) {
            Route::LampOn
        } else if "off"@.is_prefix_of(command) {
            Route::LampOff
        } else {
            Route::UnknownCommand
        }
    } else if "/index.html"@.is_prefix_of(path) || path == "/"@ {
        Route::Index
    } else if "/style.css"@.is_prefix_of(path) {
        Route::Style
    } else {
        Route::Elsewhere
    }
}

/// What `request` asks for.
pub open spec fn route(request: RequestView) -> Route {
    if request.method != Some("GET"@) {
        Route::NotGet
    } else {
        match request.path {
            Some(path) => route_of_path(path),
            None => Route::Elsewhere,
        }
    }
}

/// The answer along `route`, where `otherwise` is what stands if the route has none of its own.
pub open spec fn answer_along(
    route: Route,
    index: Seq<u8>,
    style: Seq<u8>,
    otherwise: AnswerView,
) -> AnswerView {
    match route {
        Route::NotGet => AnswerView {
            status: 400,
            body: ONLY_GET_PAGE.spec_bytes(),
            ..otherwise
        },
        Route::LampOn | Route::LampOff => AnswerView {
            status: 204,
            body: Seq::<u8>::empty(),
            ..otherwise
        },
        Route::UnknownCommand => AnswerView {
            status: 400,
            body: UNKNOWN_COMMAND_PAGE.spec_bytes(),
            ..otherwise
        },
        Route::Index => AnswerView { status: 200, body: index, ..otherwise },
        Route::Style => AnswerView { status: 200, body: style, content_type: CSS@ },
        Route::Elsewhere => otherwise,
    }
}

/// Whether the lamp is on after a request along `route`.
pub open spec fn lamp_after(route: Route, before: bool) -> bool {
    match route {
        Route::LampOn => true,
        Route::LampOff => false,
        _ => before,
    }
}

/// The answer where nothing else fits.
pub open spec fn not_found() -> AnswerView {
    AnswerView { status: 404, content_type: HTML@, body: NOT_FOUND_PAGE.spec_bytes() }
}

/// The answer that a request gets.
pub open spec fn answer(request: RequestView, index: Seq<u8>, style: Seq<u8>) -> AnswerView {
    answer_along(route(request), index, style, not_found())
}

/// Fills in the answer to `req` and sets the lamp. What the route leaves open keeps its value.
pub fn handle_request<'p>(
    req: &Request,
    pages: &Pages<'p>,
    status_code: &mut u32,
    content_type: &mut &'p str,
    body: &mut &'p [u8],
    led_on: &mut bool,
)
    ensures
        (AnswerView {
            status: *final(status_code),
            content_type: final(content_type)@,
            body: final(body)@,
        }) == answer_along(
            route(req@),
            pages.index@,
            pages.style@,
            (AnswerView {
                status: *old(status_code),
                content_type: old(content_type)@,
                body: old(body)@,
            }),
        ),
        *final(led_on) == lamp_after(route(req@), *old(led_on)),
{
    let get = match &req.method {
        Some(method) => same_text(method.as_str(), "GET"),
        None => false,
    };
    if get {
        if let Some(path) = &req.path {
            let path = path.as_str();
            if let Some(cmd) = strip_prefix(path, "/cmd/") {
                assert(path@.skip("/cmd/"@.len() as int) =~= cmd@);
                *status_code = 204;
                *body = &[];
                if starts_with(cmd, "on") {
                    *led_on = true;
                } else if starts_with(cmd, "off") {
                    *led_on = false;
                } else {
                    *status_code = 400;
                    *body = UNKNOWN_COMMAND_PAGE.as_bytes();
                }
            } else if starts_with(path, "/index.html") || same_text(path, "/") {
                *status_code = 200;
                *body = pages.index;
            } else if starts_with(path, "/style.css") {
                *status_code = 200;
                *body = pages.style;
                *content_type = CSS;
            }
        }
    } else {
        *status_code = 400;
        *body = ONLY_GET_PAGE.as_bytes();
    }
}

/// The answer to `req`, which also sets the lamp.
pub fn answer_request<'p>(req: &Request, pages: &Pages<'p>, led_on: &mut bool) -> (a: Answer<'p>)
    ensures
        a@ == answer(req@, pages.index@, pages.style@),
        *final(led_on) == lamp_after(route(req@), *old(led_on)),
{
    let mut status: u32 = 404;
    let mut content_type: &'p str = HTML;
    let mut body: &'p [u8] = NOT_FOUND_PAGE.as_bytes();
    handle_request(req, pages, &mut status, &mut content_type, &mut body, led_on);
    Answer { status, content_type, body }
}

/// The lamp is on after a request exactly where the request turns it on, or where it was on and
/// the request does not turn it off. Only a `GET` of a path below `/cmd/` can change it.
pub proof fn law_only_commands_switch_the_lamp(request: RequestView, before: bool)
    ensures
        lamp_after(route(request), before) <==> route(request) is LampOn || (before && !(route(
            request,
        ) is LampOff)),
        lamp_after(route(request), before) != before ==> request.method == Some("GET"@)
            && request.path is Some && "/cmd/"@.is_prefix_of(request.path->0),
{
}

/// A second identical request leaves the lamp as the first one did.
pub proof fn law_switching_twice_is_switching_once(request: RequestView, before: bool)
    ensures
        lamp_after(route(request), lamp_after(route(request), before)) == lamp_after(
            route(request),
            before,
        ),
{
}

/// A `GET` of `/cmd/on` turns the lamp on and one of `/cmd/off` turns it off, whatever follows in
/// the path, and the answer has no body.
pub proof fn law_the_switch_works(rest: Seq<char>, before: bool, index: Seq<u8>, style: Seq<u8>)
    ensures
        ({
            let on = RequestView { method: Some("GET"@), path: Some("/cmd/on"@ + rest) };
            let off = RequestView { method: Some("GET"@), path: Some("/cmd/off"@ + rest) };
            &&& lamp_after(route(on), before)
            &&& !lamp_after(route(off), before)
            &&& answer(on, index, style).status == 204
            &&& answer(off, index, style).status == 204
            &&& answer(on, index, style).body.len() == 0
            &&& answer(off, index, style).body.len() == 0
        }),
{
    reveal_strlit("/cmd/");
    reveal_strlit("/cmd/on");
    reveal_strlit("/cmd/off");
    reveal_strlit("on");
    reveal_strlit("off");
    let on = "/cmd/on"@ + rest;
    let off = "/cmd/off"@ + rest;
    assert("/cmd/"@ =~= on.subrange(0, 5));
    assert("/cmd/"@ =~= off.subrange(0, 5));
    assert("on"@ =~= on.skip(5).subrange(0, 2));
    assert("off"@ =~= off.skip(5).subrange(0, 3));
    assert(off.skip(5)[1] == 'f');
    assert("on"@[1] == 'n');
    assert(!"on"@.is_prefix_of(off.skip(5))) by {
        if "on"@.is_prefix_of(off.skip(5)) {
            assert(off.skip(5).subrange(0, 2)[1] == "on"@[1]);
        }
    }
}

/// The page is answered to a `GET` of `/` and of every path that begins with `/index.html`, the
/// style sheet to one of every path that begins with `/style.css`: no path is claimed twice.
pub proof fn law_pages_are_served(path: Seq<char>, index: Seq<u8>, style: Seq<u8>)
    ensures
        ({
            let get = RequestView { method: Some("GET"@), path: Some(path) };
            &&& path == "/"@ || "/index.html"@.is_prefix_of(path) ==> answer(get, index, style) == (
            AnswerView { status: 200, content_type: HTML@, body: index })
            &&& "/style.css"@.is_prefix_of(path) ==> answer(get, index, style) == (AnswerView {
                status: 200,
                content_type: CSS@,
                body: style,
            })
        }),
{
    reveal_strlit("/cmd/");
    reveal_strlit("/");
    reveal_strlit("/index.html");
    reveal_strlit("/style.css");
    if "/cmd/"@.is_prefix_of(path) {
        assert(path.subrange(0, 5)[1] == 'c');
    }
    if "/index.html"@.is_prefix_of(path) {
        assert(path.subrange(0, 11)[1] == 'i');
    }
    if "/style.css"@.is_prefix_of(path) {
        assert(path.subrange(0, 10)[1] == 's');
    }
}

/// Every answer has one of four states: 200 with a page, 204 without a body, 400 or 404 with the
/// page that says why. All but the style sheet are HTML.
pub proof fn law_answers(request: RequestView, index: Seq<u8>, style: Seq<u8>)
    ensures
        ({
            let a = answer(request, index, style);
            ||| a.status == 200 && (a.body == index || a.body == style)
            ||| a.status == 204 && a.body.len() == 0
            ||| a.status == 400 && (a.body == ONLY_GET_PAGE.spec_bytes() || a.body
                == UNKNOWN_COMMAND_PAGE.spec_bytes())
            ||| a.status == 404 && a.body == NOT_FOUND_PAGE.spec_bytes()
        }),
        answer(request, index, style).content_type == if route(request) is Style {
            CSS@
        } else {
            HTML@
        },
        request.method != Some("GET"@) ==> answer(request, index, style).status == 400,
{
}

/// What a `GET` below `/cmd/` does, whatever follows: a command that begins with `on` turns the lamp
/// on, one that begins with `off` turns it off, both without a body to show for it, and any other
/// is refused and leaves the lamp alone. The type is not touched.
pub proof fn law_commands(
    command: Seq<char>,
    before: bool,
    index: Seq<u8>,
    style: Seq<u8>,
    otherwise: AnswerView,
)
    ensures
        ({
            let get = RequestView { method: Some("GET"@), path: Some("/cmd/"@ + command) };
            let a = answer_along(route(get), index, style, otherwise);
            let lamp = lamp_after(route(get), before);
            &&& a.content_type == otherwise.content_type
            &&& "on"@.is_prefix_of(command) ==> lamp && a.status == 204 && a.body.len() == 0
            &&& "off"@.is_prefix_of(command) ==> !lamp && a.status == 204 && a.body.len() == 0
            &&& !"on"@.is_prefix_of(command) && !"off"@.is_prefix_of(command) ==> lamp == before
                && a.status == 400 && a.body
                == "<html><head><title>Illegal request</title></head><body>400 Unknown command</body></html>".spec_bytes()
        }),
{
    reveal_strlit("on");
    reveal_strlit("off");
    let path = "/cmd/"@ + command;
    assert(path.subrange(0, "/cmd/"@.len() as int) =~= "/cmd/"@);
    assert(path.skip("/cmd/"@.len() as int) =~= command);
    if "on"@.is_prefix_of(command) {
        assert(command.subrange(0, 2)[1] == 'n');
    }
    if "off"@.is_prefix_of(command) {
        assert(command.subrange(0, 3)[1] == 'f');
    }
}

/// What a `GET` elsewhere does, whatever the path: the lamp stays as it is. The page is handed out
/// for `/` and for what begins with `/index.html`, the style sheet for what begins with
/// `/style.css`, and every other path leaves the answer as it was.
pub proof fn law_paths(
    path: Seq<char>,
    before: bool,
    index: Seq<u8>,
    style: Seq<u8>,
    otherwise: AnswerView,
)
    requires
        !"/cmd/"@.is_prefix_of(path),
    ensures
        ({
            let get = RequestView { method: Some("GET"@), path: Some(path) };
            let a = answer_along(route(get), index, style, otherwise);
            let page = path == "/"@ || "/index.html"@.is_prefix_of(path);
            let sheet = "/style.css"@.is_prefix_of(path);
            &&& lamp_after(route(get), before) == before
            &&& page ==> a.status == 200 && a.body == index && a.content_type
                == otherwise.content_type
            &&& sheet ==> a.status == 200 && a.body == style && a.content_type == "text/css"@
            &&& !page && !sheet ==> a == otherwise
        }),
{
    reveal_strlit("/");
    reveal_strlit("/index.html");
    reveal_strlit("/style.css");
    if "/index.html"@.is_prefix_of(path) {
        assert(path.subrange(0, 11)[1] == 'i');
    }
    if "/style.css"@.is_prefix_of(path) {
        assert(path.subrange(0, 10)[1] == 's');
    }
}

/// What a request does that is no `GET` of a path: with another method or none it is refused, and a
/// `GET` without a path leaves the answer as it was. Either leaves the lamp and the type alone.
pub proof fn law_requests_without_a_page(
    request: RequestView,
    before: bool,
    index: Seq<u8>,
    style: Seq<u8>,
    otherwise: AnswerView,
)
    requires
        request.method != Some("GET"@) || request.path is None,
    ensures
        ({
            let a = answer_along(route(request), index, style, otherwise);
            &&& lamp_after(route(request), before) == before
            &&& a.content_type == otherwise.content_type
            &&& request.method != Some("GET"@) ==> a.status == 400 && a.body
                == "<html><head><title>Illegal request</title></head><body>400 Only GET allowed</body></html>".spec_bytes()
            &&& request.method == Some("GET"@) ==> a == otherwise
        }),
{
}

/// The answer to a request is the page that says that nothing was found, in HTML, wherever the
/// request leaves the answer as it was; and otherwise only what the request asks for is changed.
pub proof fn law_answers_begin_as_not_found(
    request: RequestView,
    index: Seq<u8>,
    style: Seq<u8>,
    otherwise: AnswerView,
)
    requires
        otherwise.status == 404,
        otherwise.content_type == "text/html;charset=UTF-8"@,
        otherwise.body
            == "<html><head><title>Not found</title></head><body>404 Not found</body></html>".spec_bytes(),
    ensures
        answer(request, index, style) == answer_along(route(request), index, style, otherwise),
{
}

/// Nothing is found exactly where the path of a `GET` is no command and names neither the page nor
/// the style sheet, or where there is no path. The page comes with status 200 exactly where the
/// path names it, the style sheet exactly where the path names that, and 204 exactly where the path
/// is a command to turn the lamp on or off.
pub proof fn law_which_status(request: RequestView, index: Seq<u8>, style: Seq<u8>)
    requires
        request.method == Some("GET"@),
    ensures
        ({
            let a = answer(request, index, style);
            let not_found = request.path matches Some(path) ==> !"/cmd/"@.is_prefix_of(path)
                && !"/index.html"@.is_prefix_of(path) && !"/style.css"@.is_prefix_of(path) && path
                != "/"@;
            &&& a.status == 404 <==> not_found
            &&& not_found ==> a.content_type == "text/html;charset=UTF-8"@ && a.body
                == "<html><head><title>Not found</title></head><body>404 Not found</body></html>".spec_bytes()
            &&& a.status == 200 && a.content_type == "text/html;charset=UTF-8"@ <==> (
            request.path matches Some(path) && (path == "/"@ || "/index.html"@.is_prefix_of(path)))
            &&& a.content_type == "text/css"@ <==> (request.path matches Some(path)
                && "/style.css"@.is_prefix_of(path))
            &&& a.status == 204 <==> (request.path matches Some(path) && ("/cmd/on"@.is_prefix_of(
                path,
            ) || "/cmd/off"@.is_prefix_of(path)))
        }),
{
    reveal_strlit("/");
    reveal_strlit("/cmd/");
    reveal_strlit("/index.html");
    reveal_strlit("/style.css");
    reveal_strlit("text/css");
    reveal_strlit("text/html;charset=UTF-8");
    assert("text/css"@.len() != "text/html;charset=UTF-8"@.len());
    if let Some(path) = request.path {
        if "/cmd/"@.is_prefix_of(path) {
            assert(path.subrange(0, 5)[1] == 'c');
        }
        if "/index.html"@.is_prefix_of(path) {
            assert(path.subrange(0, 11)[1] == 'i');
        }
        if "/style.css"@.is_prefix_of(path) {
            assert(path.subrange(0, 10)[1] == 's');
        }
        lemma_commands_by_path(path);
    }
}

/// Where a path begins with a command, the command stands behind `/cmd/`.
pub proof fn lemma_commands_by_path(path: Seq<char>)
    ensures
        "/cmd/on"@.is_prefix_of(path) <==> "/cmd/"@.is_prefix_of(path) && "on"@.is_prefix_of(
            path.skip("/cmd/"@.len() as int),
        ),
        "/cmd/off"@.is_prefix_of(path) <==> "/cmd/"@.is_prefix_of(path) && "off"@.is_prefix_of(
            path.skip("/cmd/"@.len() as int),
        ),
{
    reveal_strlit("/cmd/");
    reveal_strlit("/cmd/on");
    reveal_strlit("/cmd/off");
    reveal_strlit("on");
    reveal_strlit("off");
    lemma_prefix_in_two("/cmd/"@, "on"@, path);
    lemma_prefix_in_two("/cmd/"@, "off"@, path);
    assert("/cmd/"@ + "on"@ =~= "/cmd/on"@);
    assert("/cmd/"@ + "off"@ =~= "/cmd/off"@);
}

proof fn lemma_prefix_in_two(a: Seq<char>, b: Seq<char>, s: Seq<char>)
    ensures
        (a + b).is_prefix_of(s) <==> a.is_prefix_of(s) && b.is_prefix_of(s.skip(a.len() as int)),
{
    if (a + b).is_prefix_of(s) {
        let whole = s.subrange(0, (a + b).len() as int);
        assert(a =~= (a + b).subrange(0, a.len() as int));
        assert(s.subrange(0, a.len() as int) =~= whole.subrange(0, a.len() as int));
        assert(b =~= (a + b).subrange(a.len() as int, (a + b).len() as int));
        assert(s.skip(a.len() as int).subrange(0, b.len() as int) =~= whole.subrange(
            a.len() as int,
            (a + b).len() as int,
        ));
    }
    if a.is_prefix_of(s) && b.is_prefix_of(s.skip(a.len() as int)) {
        assert(s.subrange(0, (a + b).len() as int) =~= s.subrange(0, a.len() as int) + s.skip(
            a.len() as int,
        ).subrange(0, b.len() as int));
    }
}

} // verus!
