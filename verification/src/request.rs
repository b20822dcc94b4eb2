//! Requests as the server reads them.
use vstd::prelude::*;

verus! {

/// How many header fields a request may carry.
pub const MAX_HEADERS: u16 = 20;

/// The parts of a request that decide the answer.
pub struct Request {
    pub method: Option<String>,
    pub path: Option<String>,
}

/// A request as text.
pub struct RequestView {
    pub method: Option<Seq<char>>,
    pub path: Option<Seq<char>>,
}

/// The characters of an optional string.
pub open spec fn text_of(s: Option<String>) -> Option<Seq<char>> {
    match s {
        Some(s) => Some(s@),
        None => None,
    }
}

impl View for Request {
    type V = RequestView;

    open spec fn view(&self) -> RequestView {
        RequestView { method: text_of(self.method), path: text_of(self.path) }
    }
}

impl Request {
    /// The view of a request is its two texts, unchanged.
    pub proof fn law_view(&self)
        ensures
            self@.method is Some <==> self.method is Some,
            self@.path is Some <==> self.path is Some,
            self.method matches Some(method) ==> self@.method == Some(method@),
            self.path matches Some(path) ==> self@.path == Some(path@),
    {
    }
}

/// What the received bytes amount to.
pub enum Parsed {
    /// A whole request head.
    Complete(Request),
    /// The beginning of a request head; more bytes are needed.
    Partial,
    /// No request head, whatever follows.
    Malformed,
}

/// What the received bytes amount to, as text.
pub enum ParsedView {
    Complete(RequestView),
    Partial,
    Malformed,
}

impl View for Parsed {
    type V = ParsedView;

    open spec fn view(&self) -> ParsedView {
        match self {
            Parsed::Complete(request) => ParsedView::Complete(request@),
            Parsed::Partial => ParsedView::Partial,
            Parsed::Malformed => ParsedView::Malformed,
        }
    }
}

impl Parsed {
    /// The view of an outcome is the same outcome, with the view of its request.
    pub proof fn law_view(&self)
        ensures
            self@ is Malformed <==> self is Malformed,
            self@ is Partial <==> self is Partial,
            self matches Parsed::Complete(request) ==> self@ == ParsedView::Complete(request@),
    {
    }
}

/// The parser's account of a malformed request.
#[verifier::external_type_specification]
#[verifier::external_body]
pub struct ExParseError(httparse::Error);

/// What `httparse::Request::parse` makes of `buf` with room for `max_headers` header fields:
/// `None` where it reports an error; else whether the head is complete, and the method and the
/// path as far as they were read.
pub uninterp spec fn request_head(buf: Seq<u8>, max_headers: nat) -> Option<
    (bool, Option<Seq<char>>, Option<Seq<char>>),
>;

/// Calls `httparse::Request::parse` on `buf` with room for `max_headers` header fields. It is
/// taken on trust that the outcome depends on these two alone, and that a complete head has a
/// method and a path. Which error is reported is not stated.
#[verifier::external_body]
fn parse_head(buf: &[u8], max_headers: u16) -> (r: Result<
    (bool, Option<String>, Option<String>),
    httparse::Error,
>)
    ensures
        r is Err <==> request_head(buf@, max_headers as nat) is None,
        r matches Ok((complete, method, path)) ==> request_head(buf@, max_headers as nat) == Some(
            (complete, text_of(method), text_of(path)),
        ),
        r matches Ok((complete, method, path)) ==> (complete ==> method is Some && path is Some),
{
    let mut headers = vec![httparse::EMPTY_HEADER; max_headers as usize];
    let mut request = httparse::Request::new(&mut headers);
    let status = request.parse(buf)?;
    Ok((status.is_complete(), request.method.map(String::from), request.path.map(String::from)))
}

/// What a parsed head amounts to.
pub open spec fn parsed_of(
    head: Option<(bool, Option<Seq<char>>, Option<Seq<char>>)>,
) -> ParsedView {
    match head {
        None => ParsedView::Malformed,
        Some((complete, method, path)) => if complete {
            ParsedView::Complete(RequestView { method, path })
        } else {
            ParsedView::Partial
        },
    }
}

/// What the bytes `buf` amount to for the server.
pub open spec fn parsed(buf: Seq<u8>) -> ParsedView {
    parsed_of(request_head(buf, MAX_HEADERS as nat))
}

/// Reads a request head out of the bytes `buf`.
pub fn parse_request(buf: &[u8]) -> (p: Parsed)
    ensures
        p@ == parsed(buf@),
        p is Malformed <==> request_head(buf@, 20) is None,
        p is Partial <==> (request_head(buf@, 20) matches Some((complete, _, _)) && !complete),
        p matches Parsed::Complete(request) ==> request.method matches Some(method)
            && request.path matches Some(path) && request_head(buf@, 20) == Some(
            (true, Some(method@), Some(path@)),
        ),
        p matches Parsed::Complete(request) ==> request.method is Some && request.path is Some,
{
    match parse_head(buf, MAX_HEADERS) {
        Err(_) => Parsed::Malformed,
        Ok((complete, method, path)) => if complete {
            Parsed::Complete(Request { method, path })
        } else {
            Parsed::Partial
        },
    }
}

/// What the parser says of the bytes is what the server goes by: an error makes them malformed, a
/// head that is not complete makes them partial, and of a complete head the method and the path
/// are taken as they are. There is room for twenty header fields.
pub proof fn law_the_parser_decides(buf: Seq<u8>)
    ensures
        parsed(buf) is Malformed <==> request_head(buf, 20) is None,
        parsed(buf) is Partial <==> (request_head(buf, 20) matches Some((complete, _, _))
            && !complete),
        request_head(buf, 20) matches Some((complete, method, path)) ==> (complete ==> parsed(buf)
            == ParsedView::Complete(RequestView { method, path })),
{
}

} // verus!
