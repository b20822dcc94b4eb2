//! The server as a machine: it says what to do next, and is told how that went.
use crate::handler::{answer_request, Answer, Pages};
#[allow(unused_imports)]
use crate::handler::{
    answer, lamp_after, law_which_status, lemma_commands_by_path, route, AnswerView, CSS, HTML,
    NOT_FOUND_PAGE, ONLY_GET_PAGE, UNKNOWN_COMMAND_PAGE,
};
use crate::request::{parse_request, Parsed};
#[allow(unused_imports)]
use crate::request::{parsed, request_head, ParsedView, RequestView};
use crate::response::{next_block, render};
#[allow(unused_imports)]
use crate::response::{
    blocks, first_block, law_a_response_carries_its_answer, law_blocks, law_length_is_announced,
    response, MAX_TX_BLOCK,
};
#[allow(unused_imports)]
use crate::text::{decimal, decimal_value};
use crate::write_buf::WriteError;
use vstd::prelude::*;
#[allow(unused_imports)]
use vstd::string::*;

verus! {

/// The pin of the wireless chip that the LED hangs on.
pub const LED: u8 = 0;

/// The TCP port that the server listens on.
pub const PORT: u16 = 80;

/// After how many seconds without traffic a connection is given up.
pub const TIMEOUT_SECS: u64 = 10;

/// The most bytes that the network holds back for the server.
pub const MAX_RX_BLOCK: usize = 1024;

/// How many bytes of a request the server keeps.
pub const REQUEST_SIZE: usize = 4096;

/// How many bytes a response may have.
pub const RESPONSE_SIZE: usize = 8192;

/// How many bytes a page may have so that the response with it always fits in its buffer.
pub const MAX_PAGE_SIZE: usize = 8115;

/// What is to be done next.
#[derive(Clone, Copy, Debug, PartialEq, Eq, Structural)]
pub enum Action {
    /// Switch the lamp.
    SetLed(bool),
    /// Wait for a connection, on a new socket.
    Accept,
    /// Read into the receive window.
    Receive,
    /// Close the connection.
    Close,
    /// Send the current block.
    Send,
}

/// How the last action went.
#[derive(Clone, Copy, Debug, PartialEq, Eq, Structural)]
pub enum Event {
    /// The lamp is switched.
    LedSet,
    /// There is a connection.
    Accepted,
    /// There is none.
    AcceptFailed,
    /// So many bytes were read; none means that the peer is done.
    Received(usize),
    /// Reading failed.
    ReceiveFailed,
    /// The connection is closed.
    Closed,
    /// The block is sent.
    Sent,
    /// Sending failed.
    SendFailed,
}

/// What the server is in the middle of.
#[derive(Clone, Copy)]
enum Phase<'p> {
    Starting,
    Listening,
    Receiving,
    Closing,
    Switching(Answer<'p>),
    Sending { start: usize, end: usize },
}

/// What the server is in the middle of.
pub enum PhaseView {
    /// Switching the lamp to its first state.
    Starting,
    /// Waiting for a connection.
    Listening,
    /// Reading a request.
    Receiving,
    /// Closing a connection that carried no request.
    Closing,
    /// Switching the lamp before an answer is sent.
    Switching(AnswerView),
    /// Sending; these bytes are left.
    Sending(Seq<u8>),
}

/// All that decides what the server does.
pub struct ServerView {
    pub phase: PhaseView,
    /// The page and the style sheet.
    pub index: Seq<u8>,
    pub style: Seq<u8>,
    /// The bytes received, up to `buf_end`, and older ones behind them.
    pub buf: Seq<u8>,
    pub buf_end: nat,
    /// Whether the lamp is to be on.
    pub led_on: bool,
}

/// A server for one connection at a time.
pub struct Server<'p> {
    phase: Phase<'p>,
    pages: Pages<'p>,
    buf: Vec<u8>,
    buf_end: usize,
    resp: Vec<u8>,
    led_on: bool,
}

/// The action that the server waits for.
pub open spec fn action(s: ServerView) -> Action {
    match s.phase {
        PhaseView::Starting => Action::SetLed(s.led_on),
        PhaseView::Listening => Action::Accept,
        PhaseView::Receiving => Action::Receive,
        PhaseView::Closing => Action::Close,
        PhaseView::Switching(_) => Action::SetLed(s.led_on),
        PhaseView::Sending(_) => Action::Send,
    }
}

/// Whether `e` can come of the action that the server waits for.
pub open spec fn expects(s: ServerView, e: Event) -> bool {
    match s.phase {
        PhaseView::Starting => e is LedSet,
        PhaseView::Listening => e is Accepted || e is AcceptFailed,
        PhaseView::Receiving => e is ReceiveFailed || (e matches Event::Received(n) && s.buf_end + n
            <= s.buf.len()),
        PhaseView::Closing => e is Closed,
        PhaseView::Switching(_) => e is LedSet,
        PhaseView::Sending(_) => e is Sent || e is SendFailed,
    }
}

/// The server after its bytes were found to amount to `p`.
pub open spec fn after_parse(s: ServerView, p: ParsedView) -> ServerView {
    match p {
        ParsedView::Malformed => ServerView { phase: PhaseView::Closing, ..s },
        ParsedView::Partial => ServerView { phase: PhaseView::Receiving, ..s },
        ParsedView::Complete(request) => ServerView {
            phase: PhaseView::Switching(answer(request, s.index, s.style)),
            buf_end: 0,
            led_on: lamp_after(route(request), s.led_on),
            ..s
        },
    }
}

/// Whether the step on `e` needs more room for a response than there is.
pub open spec fn overflows(s: ServerView, e: Event) -> bool {
    s.phase matches PhaseView::Switching(a) && e is LedSet && response(a).len() > RESPONSE_SIZE
}

/// The server after `e`.
pub open spec fn next(s: ServerView, e: Event) -> ServerView {
    match s.phase {
        PhaseView::Starting => ServerView { phase: PhaseView::Listening, ..s },
        PhaseView::Listening => if e is Accepted {
            ServerView { phase: PhaseView::Receiving, buf_end: 0, ..s }
        } else {
            s
        },
        PhaseView::Receiving => match e {
            Event::Received(n) => if n == 0 {
                ServerView { phase: PhaseView::Listening, ..s }
            } else {
                after_parse(ServerView { buf_end: s.buf_end + n as nat, ..s }, parsed(s.buf))
            },
            _ => ServerView { phase: PhaseView::Listening, ..s },
        },
        PhaseView::Closing => ServerView { phase: PhaseView::Receiving, ..s },
        PhaseView::Switching(a) => ServerView { phase: PhaseView::Sending(response(a)), ..s },
        PhaseView::Sending(tx) => {
            let rest = tx.skip(first_block(tx).len() as int);
            if e is Sent && rest.len() > 0 {
                ServerView { phase: PhaseView::Sending(rest), ..s }
            } else {
                ServerView { phase: PhaseView::Receiving, ..s }
            }
        },
    }
}

impl<'p> View for Server<'p> {
    type V = ServerView;

    closed spec fn view(&self) -> ServerView {
        ServerView {
            phase: match self.phase {
                Phase::Starting => PhaseView::Starting,
                Phase::Listening => PhaseView::Listening,
                Phase::Receiving => PhaseView::Receiving,
                Phase::Closing => PhaseView::Closing,
                Phase::Switching(a) => PhaseView::Switching(a@),
                Phase::Sending { start, end } => PhaseView::Sending(
                    self.resp@.subrange(start as int, end as int),
                ),
            },
            index: self.pages.index@,
            style: self.pages.style@,
            buf: self.buf@,
            buf_end: self.buf_end as nat,
            led_on: self.led_on,
        }
    }
}

impl<'p> Server<'p> {
    /// The buffers have their sizes, and what is counted in them lies inside them.
    pub closed spec fn wf(&self) -> bool {
        &&& self.buf@.len() == REQUEST_SIZE
        &&& self.buf_end <= REQUEST_SIZE
        &&& self.resp@.len() == RESPONSE_SIZE
        &&& self.phase matches Phase::Sending { start, end } ==> start < end <= RESPONSE_SIZE
    }

    /// What holds of every server: its buffer has its size, no more bytes are counted than the
    /// buffer holds, and while it is sending there are bytes to send, but no more than a response
    /// may have.
    pub proof fn law_wf(&self)
        requires
            self.wf(),
        ensures
            self@.buf.len() == 4096,
            self@.buf_end <= 4096,
            self@.phase matches PhaseView::Sending(tx) ==> 0 < tx.len() <= 8192,
    {
    }

    /// A server for `pages` that is about to switch the lamp on.
    pub fn new(pages: Pages<'p>) -> (s: Self)
        ensures
            s.wf(),
            s@ == (ServerView {
                phase: PhaseView::Starting,
                index: pages.index@,
                style: pages.style@,
                buf: Seq::new(4096, |i: int| 0u8),
                buf_end: 0,
                led_on: true,
            }),
    {
        let s = Server {
            phase: Phase::Starting,
            pages,
            buf: vec![0u8; REQUEST_SIZE],
            buf_end: 0,
            resp: vec![0u8; RESPONSE_SIZE],
            led_on: true,
        };
        assert(s.buf@ =~= Seq::new(4096, |i: int| 0u8));
        s
    }

    /// The action that the server waits for.
    pub fn action(&self) -> (a: Action)
        ensures
            a == action(self@),
    {
        match self.phase {
            Phase::Starting => Action::SetLed(self.led_on),
            Phase::Listening => Action::Accept,
            Phase::Receiving => Action::Receive,
            Phase::Closing => Action::Close,
            Phase::Switching(_) => Action::SetLed(self.led_on),
            Phase::Sending { .. } => Action::Send,
        }
    }

    /// Whether `e` can come of the action that the server waits for.
    pub fn expects(&self, e: Event) -> (b: bool)
        requires
            self.wf(),
        ensures
            b == expects(self@, e),
    {
        match (self.phase, e) {
            (Phase::Starting, Event::LedSet) => true,
            (Phase::Listening, Event::Accepted) => true,
            (Phase::Listening, Event::AcceptFailed) => true,
            (Phase::Receiving, Event::Received(n)) => n <= self.buf.len() - self.buf_end,
            (Phase::Receiving, Event::ReceiveFailed) => true,
            (Phase::Closing, Event::Closed) => true,
            (Phase::Switching(_), Event::LedSet) => true,
            (Phase::Sending { .. }, Event::Sent) => true,
            (Phase::Sending { .. }, Event::SendFailed) => true,
            _ => false,
        }
    }

    /// The room for received bytes, behind those that are there.
    pub fn receive_window(&mut self) -> (w: &mut [u8])
        requires
            old(self).wf(),
        ensures
            w@ == old(self)@.buf.skip(old(self)@.buf_end as int),
            final(w)@.len() == w@.len() ==> final(self).wf(),
            final(self)@ == (ServerView {
                buf: old(self)@.buf.take(old(self)@.buf_end as int) + final(w)@,
                ..old(self)@
            }),
    {
        self.buf.as_mut_slice().split_at_mut(self.buf_end).1
    }

    /// The block to be sent.
    pub fn block(&self) -> (b: &[u8])
        requires
            self.wf(),
            self@.phase is Sending,
        ensures
            b@ == first_block(self@.phase->Sending_0),
            b@.is_prefix_of(self@.phase->Sending_0),
            b@.len() == if self@.phase->Sending_0.len() < 1024 {
                self@.phase->Sending_0.len()
            } else {
                1024
            },
    {
        match self.phase {
            Phase::Sending { start, end } => next_block(&self.resp[start..end]),
            _ => &[],
        }
    }

    /// Goes on from what the received bytes amount to.
    pub fn dispatch(&mut self, p: Parsed)
        requires
            old(self).wf(),
        ensures
            final(self).wf(),
            final(self)@ == after_parse(old(self)@, p@),
    {
        match p {
            Parsed::Malformed => {
                self.phase = Phase::Closing;
            },
            Parsed::Partial => {
                self.phase = Phase::Receiving;
            },
            Parsed::Complete(request) => {
                let a = answer_request(&request, &self.pages, &mut self.led_on);
                self.buf_end = 0;
                self.phase = Phase::Switching(a);
            },
        }
    }

    /// Takes in how the last action went and says what to do next. Where the response does not
    /// fit in its buffer the server stays as it is.
    pub fn step(&mut self, e: Event) -> (r: Result<Action, WriteError>)
        requires
            old(self).wf(),
            expects(old(self)@, e),
        ensures
            final(self).wf(),
            r is Err <==> overflows(old(self)@, e),
            r is Err <==> (old(self)@.phase matches PhaseView::Switching(a) && response(a).len()
                > 8192),
            r is Err ==> final(self)@ == old(self)@,
            r matches Ok(a) ==> final(self)@ == next(old(self)@, e) && a == action(final(self)@),
    {
        match self.phase {
            Phase::Starting => {
                self.phase = Phase::Listening;
            },
            Phase::Listening => {
                if let Event::Accepted = e {
                    self.buf_end = 0;
                    self.phase = Phase::Receiving;
                }
            },
            Phase::Receiving => {
                match e {
                    Event::Received(n) => {
                        if n == 0 {
                            self.phase = Phase::Listening;
                        } else {
                            self.buf_end = self.buf_end + n;
                            let p = parse_request(self.buf.as_slice());
                            self.dispatch(p);
                        }
                    },
                    _ => {
                        self.phase = Phase::Listening;
                    },
                }
            },
            Phase::Closing => {
                self.phase = Phase::Receiving;
            },
            Phase::Switching(a) => {
                match render(self.resp.as_mut_slice(), &a) {
                    Ok(end) => {
                        proof {
                            law_length_is_announced(a@);
                            assert(self.resp@.subrange(0, end as int) =~= response(a@));
                        }
                        self.phase = Phase::Sending { start: 0, end };
                    },
                    Err(_) => {
                        return Err(WriteError);
                    },
                }
            },
            Phase::Sending { start, end } => {
                let sent = next_block(&self.resp[start..end]).len();
                let ghost tx = self.resp@.subrange(start as int, end as int);
                assert(tx.skip(sent as int) =~= self.resp@.subrange(start + sent, end as int));
                if let Event::Sent = e {
                    if sent < end - start {
                        self.phase = Phase::Sending { start: start + sent, end };
                    } else {
                        self.phase = Phase::Receiving;
                    }
                } else {
                    self.phase = Phase::Receiving;
                }
            },
        }
        Ok(self.action())
    }
}

/// The blocks that a sending server hands to the network while every one of them is sent, and the
/// server after the last.
pub open spec fn drain(s: ServerView) -> (Seq<Seq<u8>>, ServerView)
    decreases
            (match s.phase {
                PhaseView::Sending(tx) => tx.len() + 1,
                _ => 0,
            }),
{
    match s.phase {
        PhaseView::Sending(tx) => if tx.len() == 0 {
            (Seq::empty(), s)
        } else {
            let (later, end) = drain(next(s, Event::Sent));
            (seq![first_block(tx)] + later, end)
        },
        _ => (Seq::empty(), s),
    }
}

/// A server that is sending sends exactly the bytes that are left, in full blocks up to the last,
/// and then reads the next request of the same connection.
pub proof fn law_all_is_sent(s: ServerView)
    requires
        s.phase matches PhaseView::Sending(tx) && tx.len() > 0,
    ensures
        drain(s).0 == blocks(s.phase->Sending_0),
        drain(s).0.flatten() == s.phase->Sending_0,
        drain(s).1 == (ServerView { phase: PhaseView::Receiving, ..s }),
    decreases s.phase->Sending_0.len(),
{
    let tx = s.phase->Sending_0;
    let rest = tx.skip(first_block(tx).len() as int);
    law_blocks(tx);
    if rest.len() > 0 {
        law_all_is_sent(next(s, Event::Sent));
    } else {
        assert(rest =~= Seq::<u8>::empty());
        assert(drain(next(s, Event::Sent)).0 =~= blocks(rest));
    }
}

/// A complete request is answered: the lamp is switched as the request asks, the response to it is
/// sent to its last byte, and the next request is read from the front of the buffer.
pub proof fn law_a_request_is_answered(s: ServerView, n: usize, request: RequestView)
    requires
        s.phase is Receiving,
        expects(s, Event::Received(n)),
        n > 0,
        parsed(s.buf) == ParsedView::Complete(request),
        response(answer(request, s.index, s.style)).len() <= 8192,
    ensures
        ({
            let switching = next(s, Event::Received(n));
            let sending = next(switching, Event::LedSet);
            let (sent, end) = drain(sending);
            &&& action(switching) == Action::SetLed(lamp_after(route(request), s.led_on))
            &&& expects(switching, Event::LedSet)
            &&& !overflows(switching, Event::LedSet)
            &&& action(sending) == Action::Send
            &&& sent.flatten() == response(answer(request, s.index, s.style))
            &&& end == (ServerView {
                buf_end: 0,
                led_on: lamp_after(route(request), s.led_on),
                ..s
            })
        }),
{
    let a = answer(request, s.index, s.style);
    law_length_is_announced(a);
    law_all_is_sent(next(next(s, Event::Received(n)), Event::LedSet));
}

/// Bytes that are no request are answered with nothing: the connection is closed, the lamp stays
/// as it is, and the server goes on reading behind them.
pub proof fn law_a_malformed_request_is_refused(s: ServerView, n: usize)
    requires
        s.phase is Receiving,
        expects(s, Event::Received(n)),
        n > 0,
        parsed(s.buf) is Malformed,
    ensures
        action(next(s, Event::Received(n))) == Action::Close,
        next(next(s, Event::Received(n)), Event::Closed) == (ServerView {
            buf_end: s.buf_end + n as nat,
            ..s
        }),
{
}

/// After the beginning of a request the server reads on behind the bytes that it has.
pub proof fn law_a_partial_request_is_continued(s: ServerView, n: usize)
    requires
        s.phase is Receiving,
        expects(s, Event::Received(n)),
        n > 0,
        parsed(s.buf) is Partial,
    ensures
        action(next(s, Event::Received(n))) == Action::Receive,
        next(s, Event::Received(n)) == (ServerView { buf_end: s.buf_end + n as nat, ..s }),
{
}

/// The lamp is switched by a complete request and by nothing else.
pub proof fn law_only_requests_switch_the_lamp(s: ServerView, e: Event)
    requires
        expects(s, e),
        next(s, e).led_on != s.led_on,
    ensures
        s.phase is Receiving,
        e is Received,
        parsed(s.buf) matches ParsedView::Complete(request) && (route(request) is LampOn || route(
            request,
        ) is LampOff),
        action(next(s, e)) == Action::SetLed(next(s, e).led_on),
{
}

/// The peer's end, a failed read and a failed accept all lead to a new connection, which begins
/// with an empty buffer; a failed send does not give the connection up.
pub proof fn law_connections(s: ServerView)
    ensures
        s.phase is Receiving ==> action(next(s, Event::Received(0))) == Action::Accept,
        s.phase is Receiving ==> action(next(s, Event::ReceiveFailed)) == Action::Accept,
        s.phase is Listening ==> action(next(s, Event::AcceptFailed)) == Action::Accept,
        s.phase is Listening ==> action(next(s, Event::Accepted)) == Action::Receive && next(
            s,
            Event::Accepted,
        ).buf_end == 0,
        s.phase is Sending ==> action(next(s, Event::SendFailed)) == Action::Receive,
{
}

/// With pages that are not too long no request leads to a response that does not fit, so that no
/// step fails; and a page of the greatest length fills the buffer to the last byte.
pub proof fn law_small_pages_never_overflow(s: ServerView, n: usize, request: RequestView)
    requires
        s.index.len() <= MAX_PAGE_SIZE,
        s.style.len() <= MAX_PAGE_SIZE,
    ensures
        MAX_PAGE_SIZE == 8115,
        response(answer(request, s.index, s.style)).len() <= 8192,
        s.phase is Receiving && n > 0 ==> !overflows(next(s, Event::Received(n)), Event::LedSet),
        route(request) is Index && s.index.len() == MAX_PAGE_SIZE ==> response(
            answer(request, s.index, s.style),
        ).len() == RESPONSE_SIZE,
{
    lemma_responses_fit(request, s.index, s.style);
    if let ParsedView::Complete(r) = parsed(s.buf) {
        lemma_responses_fit(r, s.index, s.style);
    }
}

proof fn lemma_responses_fit(request: RequestView, index: Seq<u8>, style: Seq<u8>)
    requires
        index.len() <= MAX_PAGE_SIZE,
        style.len() <= MAX_PAGE_SIZE,
    ensures
        response(answer(request, index, style)).len() <= RESPONSE_SIZE,
        route(request) is Index && index.len() == MAX_PAGE_SIZE ==> response(
            answer(request, index, style),
        ).len() == RESPONSE_SIZE,
{
    lemma_literals();
    lemma_few_digits(answer(request, index, style).status as nat);
    lemma_few_digits(answer(request, index, style).body.len());
}

proof fn lemma_few_digits(n: nat)
    requires
        n < 10000,
    ensures
        decimal(n).len() == if n < 10 {
            1nat
        } else if n < 100 {
            2
        } else if n < 1000 {
            3
        } else {
            4
        },
{
    reveal_with_fuel(decimal, 4);
}

/// The lengths of the texts that go into responses.
proof fn lemma_literals()
    ensures
        "HTTP/1.1 ".spec_bytes().len() == 9,
        "\r\nContent-Length: ".spec_bytes().len() == 18,
        "\r\nContent-Type: ".spec_bytes().len() == 16,
        "\r\n\r\n".spec_bytes().len() == 4,
        HTML.spec_bytes().len() == 23,
        CSS.spec_bytes().len() == 8,
        ONLY_GET_PAGE.spec_bytes().len() == 89,
        UNKNOWN_COMMAND_PAGE.spec_bytes().len() == 88,
        NOT_FOUND_PAGE.spec_bytes().len() == 76,
{
    reveal_strlit("HTTP/1.1 ");
    reveal_strlit("\r\nContent-Length: ");
    reveal_strlit("\r\nContent-Type: ");
    reveal_strlit("\r\n\r\n");
    reveal_strlit("text/html;charset=UTF-8");
    reveal_strlit("text/css");
    reveal_strlit(
        "<html><head><title>Illegal request</title></head><body>400 Only GET allowed</body></html>",
    );
    reveal_strlit(
        "<html><head><title>Illegal request</title></head><body>400 Unknown command</body></html>",
    );
    reveal_strlit("<html><head><title>Not found</title></head><body>404 Not found</body></html>");
    assert(is_ascii("HTTP/1.1 "));
    assert(is_ascii("\r\nContent-Length: "));
    assert(is_ascii("\r\nContent-Type: "));
    assert(is_ascii("\r\n\r\n"));
    assert(is_ascii(HTML));
    assert(is_ascii(CSS));
    assert(is_ascii(ONLY_GET_PAGE));
    assert(is_ascii(UNKNOWN_COMMAND_PAGE));
    assert(is_ascii(NOT_FOUND_PAGE));
}

/// What every step keeps: the pages, the bytes received and the size of their buffer, and that no
/// more bytes are counted than the buffer holds; and a sending server always has bytes to send.
pub proof fn law_steps_keep(s: ServerView, e: Event)
    requires
        expects(s, e),
        s.buf_end <= s.buf.len(),
        s.phase matches PhaseView::Sending(tx) ==> tx.len() > 0,
    ensures
        next(s, e).index == s.index,
        next(s, e).style == s.style,
        next(s, e).buf == s.buf,
        next(s, e).buf_end <= s.buf.len(),
        next(s, e).phase matches PhaseView::Sending(tx) ==> tx.len() > 0,
{
    if let PhaseView::Switching(a) = s.phase {
        law_length_is_announced(a);
    }
}

/// A step fails exactly where an answer is to be framed whose response is longer than 8192 bytes.
/// No other step fails, whatever the server is in the middle of and whatever it is told: in
/// particular no read does, however many bytes it brought.
pub proof fn law_when_a_step_fails(s: ServerView, e: Event)
    requires
        expects(s, e),
    ensures
        overflows(s, e) <==> (s.phase matches PhaseView::Switching(a) && response(a).len() > 8192),
        e is Received ==> !overflows(s, e),
{
}

/// Each action and what can come of it. The lamp is switched to what the server keeps of it. A read
/// may bring as many bytes as there is room for behind those that are there.
pub proof fn law_actions_and_events(s: ServerView, e: Event)
    ensures
        action(s) matches Action::SetLed(on) ==> on == s.led_on,
        action(s) is SetLed <==> s.phase is Starting || s.phase is Switching,
        action(s) is Accept <==> s.phase is Listening,
        action(s) is Receive <==> s.phase is Receiving,
        action(s) is Close <==> s.phase is Closing,
        action(s) is Send <==> s.phase is Sending,
        expects(s, Event::LedSet) <==> action(s) is SetLed,
        expects(s, Event::Accepted) <==> action(s) is Accept,
        expects(s, Event::AcceptFailed) <==> action(s) is Accept,
        expects(s, Event::ReceiveFailed) <==> action(s) is Receive,
        expects(s, Event::Closed) <==> action(s) is Close,
        expects(s, Event::Sent) <==> action(s) is Send,
        expects(s, Event::SendFailed) <==> action(s) is Send,
        e matches Event::Received(n) ==> (expects(s, e) <==> action(s) is Receive && n <= s.buf.len()
            - s.buf_end),
{
}

/// What a read leads to, however many bytes it brought and whatever was there before. The parser is
/// given the whole buffer, with room for twenty header fields. If it reports an error the connection
/// is closed; if it wants more, more is read behind the bytes that are there; and if the head is
/// complete, the request with just that method and path is answered and the buffer is empty again.
/// A read that brought nothing and one that failed lead to a new connection. Nothing else changes.
pub proof fn law_a_read(s: ServerView, n: usize)
    requires
        s.phase is Receiving,
    ensures
        next(s, Event::ReceiveFailed) == (ServerView { phase: PhaseView::Listening, ..s }),
        next(s, Event::Received(0)) == (ServerView { phase: PhaseView::Listening, ..s }),
        n > 0 ==> ({
            let after = next(s, Event::Received(n));
            match request_head(s.buf, 20) {
                None => after == (ServerView {
                    phase: PhaseView::Closing,
                    buf_end: s.buf_end + n as nat,
                    ..s
                }),
                Some((complete, method, path)) => {
                    let request = RequestView { method, path };
                    &&& !complete ==> after == (ServerView { buf_end: s.buf_end + n as nat, ..s })
                    &&& complete ==> after == (ServerView {
                        phase: PhaseView::Switching(answer(request, s.index, s.style)),
                        buf_end: 0,
                        led_on: lamp_after(route(request), s.led_on),
                        ..s
                    })
                },
            }
        }),
{
}

/// What everything but a read leads to. The first switching of the lamp is followed by waiting for a
/// connection, which begins with nothing received, or is waited for again where there was none. A
/// connection is read on after it was closed. An answer is framed whole; a block of it that was sent
/// is followed by the rest, and the last one, like one that could not be sent, by reading on. Nothing
/// else changes.
pub proof fn law_other_steps(s: ServerView)
    ensures
        s.phase is Starting ==> next(s, Event::LedSet) == (ServerView {
            phase: PhaseView::Listening,
            ..s
        }),
        s.phase is Listening ==> next(s, Event::Accepted) == (ServerView {
            phase: PhaseView::Receiving,
            buf_end: 0,
            ..s
        }),
        s.phase is Listening ==> next(s, Event::AcceptFailed) == s,
        s.phase is Closing ==> next(s, Event::Closed) == (ServerView {
            phase: PhaseView::Receiving,
            ..s
        }),
        s.phase matches PhaseView::Switching(a) ==> next(s, Event::LedSet) == (ServerView {
            phase: PhaseView::Sending(response(a)),
            ..s
        }),
        s.phase matches PhaseView::Sending(tx) ==> next(s, Event::SendFailed) == (ServerView {
            phase: PhaseView::Receiving,
            ..s
        }) && next(s, Event::Sent) == (ServerView {
            phase: if tx.len() > 1024 {
                PhaseView::Sending(tx.skip(1024))
            } else {
                PhaseView::Receiving
            },
            ..s
        }),
{
}

/// What a parsed request does to the server, whatever it was in the middle of.
pub proof fn law_a_parsed_request(s: ServerView, request: RequestView)
    ensures
        after_parse(s, ParsedView::Malformed) == (ServerView { phase: PhaseView::Closing, ..s }),
        after_parse(s, ParsedView::Partial) == (ServerView { phase: PhaseView::Receiving, ..s }),
        after_parse(s, ParsedView::Complete(request)) == (ServerView {
            phase: PhaseView::Switching(answer(request, s.index, s.style)),
            buf_end: 0,
            led_on: lamp_after(route(request), s.led_on),
            ..s
        }),
{
}

/// From a read to the last byte, for every path: a `GET` whose path begins with `/cmd/on` or
/// `/cmd/off` has the lamp switched so before anything is sent, and any other `GET` leaves the lamp
/// as it is. What is sent begins with a status line, which says 204 exactly for those commands and
/// 200 for `/`.
pub proof fn law_a_browser_switches_the_lamp(s: ServerView, n: usize, path: Seq<char>) -> (status:
    Seq<u8>)
    requires
        s.phase is Receiving,
        n > 0,
        request_head(s.buf, 20) == Some((true, Some("GET"@), Some(path))),
    ensures
        ({
            let after = next(s, Event::Received(n));
            let sent = drain(next(after, Event::LedSet)).0.flatten();
            let on = "/cmd/on"@.is_prefix_of(path);
            let off = "/cmd/off"@.is_prefix_of(path);
            &&& on ==> action(after) == Action::SetLed(true)
            &&& off ==> action(after) == Action::SetLed(false)
            &&& !on && !off ==> action(after) == Action::SetLed(s.led_on)
            &&& ("HTTP/1.1 ".spec_bytes() + status + "\r\nContent-Length: ".spec_bytes()).is_prefix_of(
                sent,
            )
            &&& on || off <==> decimal_value(status) == 204
            &&& path == "/"@ ==> decimal_value(status) == 200
        }),
{
    let request = RequestView { method: Some("GET"@), path: Some(path) };
    let a = answer(request, s.index, s.style);
    let after = next(s, Event::Received(n));
    law_length_is_announced(a);
    law_all_is_sent(next(after, Event::LedSet));
    law_which_status(request, s.index, s.style);
    lemma_commands_by_path(path);
    reveal_strlit("on");
    reveal_strlit("off");
    if "on"@.is_prefix_of(path.skip("/cmd/"@.len() as int)) {
        assert(path.skip("/cmd/"@.len() as int).subrange(0, 2)[1] == 'n');
    }
    if "off"@.is_prefix_of(path.skip("/cmd/"@.len() as int)) {
        assert(path.skip("/cmd/"@.len() as int).subrange(0, 3)[1] == 'f');
    }
    let (status, length) = law_a_response_carries_its_answer(a);
    let line = "HTTP/1.1 ".spec_bytes() + status + "\r\nContent-Length: ".spec_bytes();
    assert(response(a).subrange(0, line.len() as int) =~= line);
    status
}

/// Where the server is found, how long it waits and where the lamp hangs.
pub proof fn law_settings()
    ensures
        PORT == 80,
        TIMEOUT_SECS == 10,
        MAX_RX_BLOCK == 1024,
        LED == 0,
{
}

} // verus!
