//! A cursor over a borrowed byte buffer.
use vstd::prelude::*;
#[allow(unused_imports)]
use vstd::string::*;

verus! {

/// What a write reports when the bytes do not fit in the room that is left.
#[derive(Clone, Copy, Debug, PartialEq, Eq, Structural)]
pub struct WriteError;

/// Appends bytes to a buffer that it borrows, from the front on.
pub struct WriteBuf<'a> {
    /// The whole buffer; the bytes from `len` on are not written yet.
    pub buf: &'a mut [u8],
    /// How many bytes are written.
    pub len: usize,
}

impl<'a> WriteBuf<'a> {
    /// The cursor lies inside the buffer.
    pub open spec fn wf(&self) -> bool {
        self.len <= self.buf@.len()
    }

    /// The bytes written so far, in the order of the writes.
    pub open spec fn written(&self) -> Seq<u8> {
        self.buf@.take(self.len as int)
    }

    /// How many bytes the buffer can hold in all.
    pub open spec fn capacity(&self) -> nat {
        self.buf@.len()
    }

    /// A writer at the front of `buf`. The buffer ends as the writer leaves it.
    pub fn new(buf: &'a mut [u8]) -> (w: Self)
        ensures
            w.wf(),
            w.len == 0,
            w.buf@ == old(buf)@,
            w.capacity() == old(buf)@.len(),
            w.written() == Seq::<u8>::empty(),
            final(buf)@ == final(w.buf)@,
    {
        WriteBuf { buf, len: 0 }
    }

    /// The bytes written so far. What the caller changes in them stays changed.
    pub fn as_slice(&'a mut self) -> (s: &'a mut [u8])
        requires
            old(self).wf(),
        ensures
            s@ == old(self).written(),
            s@ == old(self).buf@.take(old(self).len as int),
            final(self).len == old(self).len,
            final(self).buf@ == final(s)@ + old(self).buf@.skip(old(self).len as int),
            final(final(self).buf)@ == final(old(self).buf)@,
    {
        self.buf.split_at_mut(self.len).0
    }

    /// Appends all of `bytes`, or changes nothing where they do not fit.
    pub fn write_bytes(&mut self, bytes: &[u8]) -> (r: Result<(), WriteError>)
        requires
            old(self).wf(),
        ensures
            final(self).wf(),
            final(self).capacity() == old(self).capacity(),
            final(self).capacity() == final(self).buf@.len(),
            final(self).written() == final(self).buf@.take(final(self).len as int),
            final(final(self).buf)@ == final(old(self).buf)@,
            r is Ok <==> old(self).written().len() + bytes@.len() <= old(self).capacity(),
            r is Ok <==> old(self).len + bytes@.len() <= old(self).buf@.len(),
            r is Ok ==> final(self).len == old(self).len + bytes@.len(),
            r is Ok ==> final(self).buf@ == old(self).buf@.take(old(self).len as int) + bytes@
                + old(self).buf@.skip(old(self).len + bytes@.len()),
            r is Ok ==> final(self).written() == old(self).written() + bytes@,
            r is Ok ==> final(self).buf@ == old(self).written() + bytes@ + old(self).buf@.skip(
                old(self).len + bytes@.len(),
            ),
            r is Err ==> final(self).buf@ == old(self).buf@ && final(self).len == old(self).len,
    {
        let capacity: usize = self.buf.len();
        let left: usize = capacity - self.len;
        let copy: usize = bytes.len();
        if left >= copy {
            let start: usize = self.len;
            let mut i: usize = 0;
            while i < copy
                invariant
                    i <= copy,
                    copy == bytes@.len(),
                    self.len == start,
                    start == old(self).len,
                    start + copy <= capacity,
                    capacity == old(self).buf@.len(),
                    final(self.buf)@ == final(old(self).buf)@,
                    self.buf@ =~= old(self).written() + bytes@.take(i as int)
                        + old(self).buf@.skip(start + i),
                decreases copy - i,
            {
                self.buf[start + i] = bytes[i];
                i = i + 1;
            }
            self.len = start + copy;
            assert(bytes@.take(copy as int) =~= bytes@);
            assert(self.written() =~= old(self).written() + bytes@);
            Ok(())
        } else {
            Err(WriteError)
        }
    }

    /// Appends the UTF-8 encoding of `s`, or changes nothing where it does not fit.
    pub fn write_str(&mut self, s: &str) -> (r: Result<(), WriteError>)
        requires
            old(self).wf(),
        ensures
            final(self).wf(),
            final(self).capacity() == old(self).capacity(),
            final(self).capacity() == final(self).buf@.len(),
            final(self).written() == final(self).buf@.take(final(self).len as int),
            final(final(self).buf)@ == final(old(self).buf)@,
            r is Ok <==> old(self).written().len() + s.spec_bytes().len() <= old(self).capacity(),
            r is Ok <==> old(self).len + s.spec_bytes().len() <= old(self).buf@.len(),
            r is Ok ==> final(self).len == old(self).len + s.spec_bytes().len(),
            r is Ok ==> final(self).buf@ == old(self).buf@.take(old(self).len as int) + s.spec_bytes()
                + old(self).buf@.skip(old(self).len + s.spec_bytes().len()),
            r is Ok ==> final(self).written() == old(self).written() + s.spec_bytes(),
            r is Ok ==> final(self).buf@ == old(self).written() + s.spec_bytes()
                + old(self).buf@.skip(old(self).len + s.spec_bytes().len()),
            r is Err ==> final(self).buf@ == old(self).buf@ && final(self).len == old(self).len,
    {
        self.write_bytes(s.as_bytes())
    }
}

/// What a buffer for `capacity` bytes that holds `written` holds after the writes of `pieces`, up
/// to the first that does not fit; and whether all of them did.
pub open spec fn fill(capacity: nat, written: Seq<u8>, pieces: Seq<Seq<u8>>) -> (Seq<u8>, bool)
    decreases pieces.len(),
{
    if pieces.len() == 0 {
        (written, true)
    } else if written.len() + pieces.first().len() <= capacity {
        fill(capacity, written + pieces.first(), pieces.drop_first())
    } else {
        (written, false)
    }
}

/// Writes one after another: all pieces fit exactly where their bytes do, and then the buffer holds
/// them one after another.
pub proof fn law_fill(capacity: nat, written: Seq<u8>, pieces: Seq<Seq<u8>>)
    requires
        written.len() <= capacity,
    ensures
        fill(capacity, written, pieces).1 <==> written.len() + pieces.flatten().len() <= capacity,
        fill(capacity, written, pieces).1 ==> fill(capacity, written, pieces).0 == written
            + pieces.flatten(),
        fill(capacity, written, pieces).0.len() <= capacity,
    decreases pieces.len(),
{
    reveal_with_fuel(Seq::flatten, 2);
    if pieces.len() == 0 {
        assert(written + pieces.flatten() =~= written);
    } else if written.len() + pieces.first().len() <= capacity {
        law_fill(capacity, written + pieces.first(), pieces.drop_first());
        assert(written + pieces.flatten() =~= (written + pieces.first())
            + pieces.drop_first().flatten());
    }
}

/// Writes that do not all fit stop at the first one that does not: what went before it is kept, and
/// nothing of it or of what follows.
pub proof fn law_fill_stops(capacity: nat, written: Seq<u8>, pieces: Seq<Seq<u8>>) -> (k: int)
    requires
        written.len() <= capacity,
        written.len() + pieces.flatten().len() > capacity,
    ensures
        0 <= k < pieces.len(),
        fill(capacity, written, pieces).0 == written + pieces.take(k).flatten(),
        written.len() + pieces.take(k).flatten().len() <= capacity,
        written.len() + pieces.take(k).flatten().len() + pieces[k].len() > capacity,
    decreases pieces.len(),
{
    law_fill(capacity, written, pieces);
    if written.len() + pieces.first().len() <= capacity {
        assert(pieces.flatten() == pieces.first() + pieces.drop_first().flatten());
        let rest = pieces.drop_first();
        let k = law_fill_stops(capacity, written + pieces.first(), rest);
        assert(pieces.take(k + 1).drop_first() =~= rest.take(k));
        assert(pieces.take(k + 1).flatten() == pieces.first() + rest.take(k).flatten());
        assert(written + pieces.take(k + 1).flatten() =~= (written + pieces.first()) + rest.take(
            k,
        ).flatten());
        k + 1
    } else {
        assert(pieces.take(0).flatten() =~= Seq::<u8>::empty());
        assert(written + pieces.take(0).flatten() =~= written);
        0
    }
}

/// A write that fits is the first step of filling.
pub proof fn lemma_fill_step(capacity: nat, written: Seq<u8>, done: Seq<u8>, pieces: Seq<Seq<u8>>)
    requires
        pieces.len() > 0,
        written.len() + pieces[0].len() <= capacity,
        done == written + pieces[0],
    ensures
        fill(capacity, written, pieces) == fill(capacity, done, pieces.skip(1)),
{
    assert(pieces.drop_first() =~= pieces.skip(1));
}

/// Filling ends with its last piece.
pub proof fn lemma_fill_last(capacity: nat, written: Seq<u8>, pieces: Seq<Seq<u8>>, last: Seq<u8>)
    ensures
        fill(capacity, written, pieces.push(last)) == ({
            let (held, whole) = fill(capacity, written, pieces);
            if whole && held.len() + last.len() <= capacity {
                (held + last, true)
            } else {
                (held, false)
            }
        }),
    decreases pieces.len(),
{
    if pieces.len() == 0 {
        assert(pieces.push(last).drop_first() =~= Seq::<Seq<u8>>::empty());
        reveal_with_fuel(fill, 2);
    } else {
        assert(pieces.push(last).drop_first() =~= pieces.drop_first().push(last));
        assert(pieces.push(last).first() == pieces.first());
        if written.len() + pieces.first().len() <= capacity {
            lemma_fill_last(capacity, written + pieces.first(), pieces.drop_first(), last);
        }
    }
}

} // verus!
