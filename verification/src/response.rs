//! How an answer is framed, and how a framed answer is cut into blocks.
use crate::handler::{Answer, AnswerView};
use crate::text::decimal_digits;
#[allow(unused_imports)]
use crate::text::{decimal, decimal_value, law_decimal_reads_back};
#[allow(unused_imports)]
use crate::write_buf::{fill, law_fill, lemma_fill_last, lemma_fill_step};
use crate::write_buf::{WriteBuf, WriteError};
use vstd::prelude::*;
#[allow(unused_imports)]
use vstd::string::*;
#[allow(unused_imports)]
use vstd::utf8::*;

verus! {

/// The most bytes that are handed to the network at a time.
pub const MAX_TX_BLOCK: usize = 1024;

/// The parts of a response's head, in order.
pub open spec fn head_pieces(status: nat, length: nat, content_type: Seq<char>) -> Seq<Seq<u8>> {
    seq![
        "HTTP/1.1 ".spec_bytes(),
        decimal(status),
        "\r\nContent-Length: ".spec_bytes(),
        decimal(length),
        "\r\nContent-Type: ".spec_bytes(),
        encode_utf8(content_type),
        "\r\n\r\n".spec_bytes(),
    ]
}

/// The head of a response with a body of `length` bytes.
pub open spec fn head(status: nat, length: nat, content_type: Seq<char>) -> Seq<u8> {
    "HTTP/1.1 ".spec_bytes() + decimal(status) + "\r\nContent-Length: ".spec_bytes() + decimal(
        length,
    ) + "\r\nContent-Type: ".spec_bytes() + encode_utf8(content_type) + "\r\n\r\n".spec_bytes()
}

/// The response that carries `answer`: its head, then its body.
pub open spec fn response(answer: AnswerView) -> Seq<u8> {
    head(answer.status as nat, answer.body.len(), answer.content_type) + answer.body
}

/// The parts of the response that carries `answer`, in the order in which they are written.
pub open spec fn response_pieces(answer: AnswerView) -> Seq<Seq<u8>> {
    head_pieces(answer.status as nat, answer.body.len(), answer.content_type).push(answer.body)
}

/// Seven parts, one after another, are their sum.
proof fn lemma_flatten_seven(
    a: Seq<u8>,
    b: Seq<u8>,
    c: Seq<u8>,
    d: Seq<u8>,
    e: Seq<u8>,
    f: Seq<u8>,
    g: Seq<u8>,
)
    ensures
        seq![a, b, c, d, e, f, g].flatten() == a + b + c + d + e + f + g,
{
    seq![a, b, c, d, e, f].lemma_flatten_push(g);
    assert(seq![a, b, c, d, e, f].push(g) =~= seq![a, b, c, d, e, f, g]);
    seq![a, b, c, d, e].lemma_flatten_push(f);
    assert(seq![a, b, c, d, e].push(f) =~= seq![a, b, c, d, e, f]);
    seq![a, b, c, d].lemma_flatten_push(e);
    assert(seq![a, b, c, d].push(e) =~= seq![a, b, c, d, e]);
    seq![a, b, c].lemma_flatten_push(d);
    assert(seq![a, b, c].push(d) =~= seq![a, b, c, d]);
    seq![a, b].lemma_flatten_push(c);
    assert(seq![a, b].push(c) =~= seq![a, b, c]);
    seq![a].lemma_flatten_push(b);
    assert(seq![a].push(b) =~= seq![a, b]);
    seq![a].lemma_flatten_one_element();
}

/// Eight parts, one after another, are their sum.
proof fn lemma_flatten_eight(
    a: Seq<u8>,
    b: Seq<u8>,
    c: Seq<u8>,
    d: Seq<u8>,
    e: Seq<u8>,
    f: Seq<u8>,
    g: Seq<u8>,
    h: Seq<u8>,
)
    ensures
        seq![a, b, c, d, e, f, g].push(h).flatten() == a + b + c + d + e + f + g + h,
{
    seq![a, b, c, d, e, f, g].lemma_flatten_push(h);
    lemma_flatten_seven(a, b, c, d, e, f, g);
}

/// The parts of a response, one after another, are the response.
proof fn lemma_pieces_make_the_response(answer: AnswerView)
    ensures
        response_pieces(answer).flatten() == response(answer),
{
    lemma_flatten_eight(
        "HTTP/1.1 ".spec_bytes(),
        decimal(answer.status as nat),
        "\r\nContent-Length: ".spec_bytes(),
        decimal(answer.body.len()),
        "\r\nContent-Type: ".spec_bytes(),
        encode_utf8(answer.content_type),
        "\r\n\r\n".spec_bytes(),
        answer.body,
    );
}

/// Writes the head of a response, part by part, up to the first part that does not fit.
pub fn write_head(w: &mut WriteBuf<'_>, status: u32, length: usize, content_type: &str) -> (r: Result<
    (),
    WriteError,
>)
    requires
        old(w).wf(),
    ensures
        final(w).wf(),
        final(w).capacity() == old(w).capacity(),
        final(final(w).buf)@ == final(old(w).buf)@,
        (final(w).written(), r is Ok) == fill(
            old(w).capacity(),
            old(w).written(),
            head_pieces(status as nat, length as nat, content_type@),
        ),
        final(w).buf@ == final(w).written() + old(w).buf@.skip(final(w).len as int),
{
    let ghost pieces = head_pieces(status as nat, length as nat, content_type@);
    let ghost capacity = w.capacity();
    let ghost start = w.buf@;
    proof {
        assert(pieces.skip(0) =~= pieces);
        assert(w.buf@ =~= w.written() + start.skip(w.len as int));
    }
    let status_digits = decimal_digits(status as u64);
    let length_digits = decimal_digits(length as u64);
    let parts: [&[u8]; 7] = [
        "HTTP/1.1 ".as_bytes(),
        status_digits.as_slice(),
        "\r\nContent-Length: ".as_bytes(),
        length_digits.as_slice(),
        "\r\nContent-Type: ".as_bytes(),
        content_type.as_bytes(),
        "\r\n\r\n".as_bytes(),
    ];
    let mut i: usize = 0;
    while i < 7
        invariant
            i <= 7,
            pieces.len() == 7,
            forall|j: int| 0 <= j < 7 ==> (#[trigger] parts@[j])@ == pieces[j],
            w.wf(),
            capacity == w.capacity(),
            capacity == old(w).capacity(),
            pieces == head_pieces(status as nat, length as nat, content_type@),
            start == old(w).buf@,
            final(w.buf)@ == final(old(w).buf)@,
            fill(capacity, old(w).written(), pieces) == fill(
                capacity,
                w.written(),
                pieces.skip(i as int),
            ),
            w.buf@ == w.written() + start.skip(w.len as int),
        decreases 7 - i,
    {
        let ghost before = w.written();
        let r = w.write_bytes(parts[i]);
        assert(parts@[i as int]@ == pieces[i as int]);
        assert(pieces.skip(i as int).first() == pieces[i as int]);
        if r.is_err() {
            assert(w.written() =~= before);
            return r;
        }
        proof {
            lemma_fill_step(capacity, before, w.written(), pieces.skip(i as int));
            assert(pieces.skip(i as int).skip(1) =~= pieces.skip(i + 1));
            assert(w.buf@ =~= w.written() + start.skip(w.len as int));
        }
        i = i + 1;
    }
    assert(pieces.skip(7).len() == 0);
    Ok(())
}

/// Writes the response that carries `answer` to the front of `buf` and reports its length. Where
/// it does not fit, the parts of it that do are left there.
pub fn render(buf: &mut [u8], answer: &Answer<'_>) -> (r: Result<usize, WriteError>)
    ensures
        r is Ok <==> response(answer@).len() <= old(buf)@.len(),
        r matches Ok(n) ==> n == response(answer@).len() && final(buf)@ == response(answer@)
            + old(buf)@.skip(n as int),
        r is Err ==> ({
            let kept = fill(old(buf)@.len(), Seq::<u8>::empty(), response_pieces(answer@)).0;
            final(buf)@ == kept + old(buf)@.skip(kept.len() as int)
        }),
        final(buf)@.len() == old(buf)@.len(),
{
    let ghost start = buf@;
    let ghost capacity = buf@.len();
    let ghost nothing = Seq::<u8>::empty();
    let ghost parts = head_pieces(answer.status as nat, answer.body@.len(), answer.content_type@);
    proof {
        lemma_pieces_make_the_response(answer@);
        law_fill(capacity, nothing, response_pieces(answer@));
        lemma_fill_last(capacity, nothing, parts, answer.body@);
        assert(nothing + response(answer@) =~= response(answer@));
    }
    let mut w = WriteBuf::new(buf);
    let head_written = write_head(&mut w, answer.status, answer.body.len(), answer.content_type);
    if head_written.is_err() {
        return Err(WriteError);
    }
    let body_written = w.write_bytes(answer.body);
    if body_written.is_err() {
        return Err(WriteError);
    }
    assert(w.buf@ =~= w.written() + start.skip(w.len as int));
    Ok(w.len)
}

/// The block that is sent next of the bytes `tx`.
pub open spec fn first_block(tx: Seq<u8>) -> Seq<u8> {
    if tx.len() > MAX_TX_BLOCK {
        tx.take(MAX_TX_BLOCK as int)
    } else {
        tx
    }
}

/// The blocks in which the bytes `tx` are sent.
pub open spec fn blocks(tx: Seq<u8>) -> Seq<Seq<u8>>
    decreases tx.len(),
{
    if tx.len() == 0 {
        Seq::empty()
    } else {
        seq![first_block(tx)] + blocks(tx.skip(first_block(tx).len() as int))
    }
}

/// The blocks, one after another, are the bytes. None is empty and none is too long, and all but
/// the last are as long as they may be.
pub proof fn law_blocks(tx: Seq<u8>)
    ensures
        blocks(tx).flatten() == tx,
        forall|i: int|
            0 <= i < blocks(tx).len() ==> 0 < (#[trigger] blocks(tx)[i]).len() <= 1024,
        forall|i: int|
            0 <= i < blocks(tx).len() - 1 ==> (#[trigger] blocks(tx)[i]).len() == 1024,
        blocks(tx).len() == (tx.len() + 1023) / 1024,
    decreases tx.len(),
{
    if tx.len() > 0 {
        let block = first_block(tx);
        let rest = tx.skip(block.len() as int);
        law_blocks(rest);
        assert(blocks(tx).drop_first() =~= blocks(rest));
        assert(blocks(tx).first() == block);
        assert(tx =~= block + rest);
    } else {
        assert(blocks(tx).flatten() =~= tx);
    }
}

/// The block that is sent next of the bytes `tx`: those at the front, 1024 of them if there are so
/// many and else all.
pub proof fn law_a_block_is_taken_from_the_front(tx: Seq<u8>)
    ensures
        first_block(tx).is_prefix_of(tx),
        tx.len() >= 1024 ==> first_block(tx).len() == 1024,
        tx.len() < 1024 ==> first_block(tx).len() == tx.len(),
{
}

/// The block that is sent next of the bytes `tx`.
pub fn next_block(tx: &[u8]) -> (block: &[u8])
    ensures
        block@ == first_block(tx@),
        block@.is_prefix_of(tx@),
        tx@.len() >= 1024 ==> block@.len() == 1024,
        tx@.len() < 1024 ==> block@.len() == tx@.len(),
{
    if tx.len() > MAX_TX_BLOCK {
        tx.split_at(MAX_TX_BLOCK).0
    } else {
        tx
    }
}

/// The number after `Content-Length: ` is the number of bytes after the empty line, and no
/// response is empty.
pub proof fn law_length_is_announced(answer: AnswerView)
    ensures
        ({
            let h = head(answer.status as nat, answer.body.len(), answer.content_type);
            let before = "HTTP/1.1 ".spec_bytes() + decimal(answer.status as nat)
                + "\r\nContent-Length: ".spec_bytes();
            let digits = decimal(answer.body.len());
            &&& response(answer) == h + answer.body
            &&& response(answer).skip(h.len() as int) == answer.body
            &&& response(answer).subrange(before.len() as int, (before.len() + digits.len()) as int)
                == digits
            &&& decimal_value(digits) == response(answer).len() - h.len()
        }),
        response(answer).len() > 0,
{
    law_decimal_reads_back(answer.status as nat);
    law_decimal_reads_back(answer.body.len());
    let h = head(answer.status as nat, answer.body.len(), answer.content_type);
    let before = "HTTP/1.1 ".spec_bytes() + decimal(answer.status as nat)
        + "\r\nContent-Length: ".spec_bytes();
    let digits = decimal(answer.body.len());
    assert(response(answer).skip(h.len() as int) =~= answer.body);
    assert(response(answer).subrange(before.len() as int, (before.len() + digits.len()) as int)
        =~= digits);
}

/// What is written as a head can be read again, for every status, every length and every type: it
/// is a status line with the status in digits, the length in digits and the type. The digits are
/// ASCII and do not begin with a needless zero. It is written in seven parts.
pub proof fn law_a_head_can_be_read(status: nat, length: nat, content_type: Seq<char>) -> (r: (
    Seq<u8>,
    Seq<u8>,
))
    ensures
        r.0.len() >= 1,
        forall|i: int| 0 <= i < r.0.len() ==> 48 <= #[trigger] r.0[i] <= 57,
        r.0.len() > 1 ==> r.0[0] != 48,
        decimal_value(r.0) == status,
        r.1.len() >= 1,
        forall|i: int| 0 <= i < r.1.len() ==> 48 <= #[trigger] r.1[i] <= 57,
        r.1.len() > 1 ==> r.1[0] != 48,
        decimal_value(r.1) == length,
        head_pieces(status, length, content_type) == seq![
            "HTTP/1.1 ".spec_bytes(),
            r.0,
            "\r\nContent-Length: ".spec_bytes(),
            r.1,
            "\r\nContent-Type: ".spec_bytes(),
            encode_utf8(content_type),
            "\r\n\r\n".spec_bytes(),
        ],
        head_pieces(status, length, content_type).flatten() == "HTTP/1.1 ".spec_bytes() + r.0
            + "\r\nContent-Length: ".spec_bytes() + r.1 + "\r\nContent-Type: ".spec_bytes()
            + encode_utf8(content_type) + "\r\n\r\n".spec_bytes(),
{
    law_decimal_reads_back(status);
    law_decimal_reads_back(length);
    lemma_flatten_seven(
        "HTTP/1.1 ".spec_bytes(),
        decimal(status),
        "\r\nContent-Length: ".spec_bytes(),
        decimal(length),
        "\r\nContent-Type: ".spec_bytes(),
        encode_utf8(content_type),
        "\r\n\r\n".spec_bytes(),
    );
    (decimal(status), decimal(length))
}

/// A response carries its answer whole: the status that it states is the status of the answer, the
/// type that it states is the type of the answer, and behind the empty line stands the body, which
/// is as long as it states.
pub proof fn law_a_response_carries_its_answer(answer: AnswerView) -> (r: (Seq<u8>, Seq<u8>))
    ensures
        r.0.len() >= 1,
        forall|i: int| 0 <= i < r.0.len() ==> 48 <= #[trigger] r.0[i] <= 57,
        r.0.len() > 1 ==> r.0[0] != 48,
        decimal_value(r.0) == answer.status,
        r.1.len() >= 1,
        forall|i: int| 0 <= i < r.1.len() ==> 48 <= #[trigger] r.1[i] <= 57,
        r.1.len() > 1 ==> r.1[0] != 48,
        decimal_value(r.1) == answer.body.len(),
        response(answer) == "HTTP/1.1 ".spec_bytes() + r.0 + "\r\nContent-Length: ".spec_bytes() + r.1
            + "\r\nContent-Type: ".spec_bytes() + encode_utf8(answer.content_type)
            + "\r\n\r\n".spec_bytes() + answer.body,
        response_pieces(answer) == head_pieces(
            answer.status as nat,
            answer.body.len(),
            answer.content_type,
        ).push(answer.body),
        response_pieces(answer).flatten() == response(answer),
{
    law_decimal_reads_back(answer.status as nat);
    law_decimal_reads_back(answer.body.len());
    lemma_pieces_make_the_response(answer);
    (decimal(answer.status as nat), decimal(answer.body.len()))
}

} // verus!
