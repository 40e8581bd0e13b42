use std::borrow::Cow;

use vstd::prelude::*;

use crate::error::ReadResult;
use crate::read::Read;

verus! {

/// Checkpointed reader that tracks the amount of bytes read since it began.
///
/// It is made only by [`Read::checkpoint`].
pub struct Checkpoint<'a, 'data, R> {
    pub(crate) inner: &'a mut R,
    pub(crate) amt_read: usize,
    pub(crate) _boo: std::marker::PhantomData<&'data ()>,
    pub(crate) start: Ghost<Seq<u8>>,
}

impl<'a, 'data, R> Checkpoint<'a, 'data, R> {
    /// The counter of bytes read.
    pub closed spec fn amount(&self) -> usize {
        self.amt_read
    }

    /// The reader, as it stands while the checkpoint holds it.
    pub closed spec fn reader(&self) -> R {
        *self.inner
    }

    /// The bytes that the reader had to hand out when the checkpoint began.
    pub closed spec fn start(&self) -> Seq<u8> {
        self.start@
    }

    /// Starts counting the bytes read from `reader`, which has `start` to
    /// hand out.
    pub(crate) fn begin(reader: &'a mut R, start: Ghost<Seq<u8>>) -> (c: Self)
        ensures
            c.reader() == *old(reader),
            c.amount() == 0,
            c.start() == start@,
    {
        Checkpoint { inner: reader, amt_read: 0, _boo: std::marker::PhantomData, start }
    }
}

impl<'a, 'data, R: Read<'data>> Checkpoint<'a, 'data, R> {

    /// For a reader whose contents are tracked, the counter is the number of
    /// bytes consumed since the checkpoint began: what remains is what there
    /// was, less that many bytes at the front.
    ///
    /// It is stated of data that fits the address space, as all data held in
    /// memory does.
    pub open spec fn counts_consumed(&self) -> bool {
        R::obeys_read_spec() && self.start().len() <= usize::MAX ==> {
            &&& self.amount() <= self.start().len()
            &&& self.reader().remaining() == self.start().skip(self.amount() as int)
        }
    }

    /// Returns the amount of bytes read since the beginning of the checkpoint
    pub fn amt_read(&self) -> (r: usize)
        ensures
            r == self.amount(),
    {
        self.amt_read
    }

    /// Releases the mutable borrow of the reader
    ///
    /// The result is the reader as the checkpoint holds it; how it relates to
    /// the reader that the checkpoint was made from is not stated.
    pub fn into_inner(self) -> (r: &'a mut R)
        ensures
            *r == self.reader(),
    {
        self.inner
    }
}

/// A checkpoint as [`Read::checkpoint`] makes it, with nothing read yet from
/// the data it starts with, counts the bytes consumed.
pub proof fn lemma_new_checkpoint_counts_consumed<'a, 'data, R: Read<'data>>(c: &Checkpoint<'a, 'data, R>)
    requires
        c.amount() == 0,
        c.start() == c.reader().remaining(),
    ensures
        c.counts_consumed(),
{
    assert(c.start().skip(0) =~= c.start());
}

/// The counter of a checkpoint that counts the bytes consumed is the number
/// of bytes that the reader had when the checkpoint began, less those it has
/// still.
pub proof fn lemma_amount_read_is_consumed<'a, 'data, R: Read<'data>>(c: &Checkpoint<'a, 'data, R>)
    requires
        R::obeys_read_spec(),
        c.start().len() <= usize::MAX,
        c.counts_consumed(),
    ensures
        c.amount() == c.start().len() - c.reader().remaining().len(),
{
}

/// Dropping `a` bytes and then `b` more drops `a + b`.
proof fn lemma_skip_skip(s: Seq<u8>, a: int, b: int)
    requires
        0 <= a,
        0 <= b,
        a + b <= s.len(),
    ensures
        s.skip(a).skip(b) == s.skip(a + b),
{
    assert(s.skip(a).skip(b) =~= s.skip(a + b));
}

/// The inner reader's operations; each success adds the number of bytes it
/// consumed to the counter (wrapping at `usize::MAX`), and a failure leaves
/// the counter as it was.
impl<'a, 'data, R: Read<'data>> Read<'data> for Checkpoint<'a, 'data, R> {
    open spec fn obeys_read_spec() -> bool {
        R::obeys_read_spec()
    }

    open spec fn remaining(&self) -> Seq<u8> {
        self.reader().remaining()
    }

    open spec fn hands_out_borrowed(&self) -> bool {
        self.reader().hands_out_borrowed()
    }

    open spec fn hands_out_owned(&self) -> bool {
        self.reader().hands_out_owned()
    }


    fn peek_byte(&mut self) -> (r: ReadResult<u8>)
        ensures
            final(self).amount() == old(self).amount(),
            final(self).start() == old(self).start(),
            old(self).counts_consumed() ==> final(self).counts_consumed(),
    {
        self.inner.peek_byte()
    }

    fn advance(&mut self, n: usize) -> (r: ReadResult<()>)
        ensures
            r is Ok ==> final(self).amount() == old(self).amount().wrapping_add(n),
            r is Err ==> final(self).amount() == old(self).amount(),
            final(self).start() == old(self).start(),
            old(self).counts_consumed() ==> final(self).counts_consumed(),
    {
        self.inner.advance(n)?;
        proof {
            if R::obeys_read_spec() && self.start@.len() <= usize::MAX && old(self).counts_consumed() {
                lemma_skip_skip(self.start@, self.amt_read as int, n as int);
            }
        }
        self.amt_read = self.amt_read.wrapping_add(n);
        Ok(())
    }

    fn read_byte(&mut self) -> (r: ReadResult<u8>)
        ensures
            r is Ok ==> final(self).amount() == old(self).amount().wrapping_add(1),
            r is Err ==> final(self).amount() == old(self).amount(),
            final(self).start() == old(self).start(),
            old(self).counts_consumed() ==> final(self).counts_consumed(),
    {
        let b = self.inner.read_byte()?;
        proof {
            if R::obeys_read_spec() && self.start@.len() <= usize::MAX && old(self).counts_consumed() {
                lemma_skip_skip(self.start@, self.amt_read as int, 1 as int);
            }
        }
        self.amt_read = self.amt_read.wrapping_add(1);
        Ok(b)
    }

    fn read_slice(&mut self, len: usize) -> (r: ReadResult<Cow<'data, [u8]>>)
        ensures
            r is Ok ==> final(self).amount() == old(self).amount().wrapping_add(len),
            r is Err ==> final(self).amount() == old(self).amount(),
            final(self).start() == old(self).start(),
            old(self).counts_consumed() ==> final(self).counts_consumed(),
    {
        let slice = self.inner.read_slice(len)?;
        proof {
            if R::obeys_read_spec() && self.start@.len() <= usize::MAX && old(self).counts_consumed() {
                lemma_skip_skip(self.start@, self.amt_read as int, len as int);
            }
        }
        self.amt_read = self.amt_read.wrapping_add(len);
        Ok(slice)
    }

    fn read_array<const N: usize>(&mut self) -> (r: ReadResult<Cow<'data, [u8; N]>>)
        ensures
            r is Ok ==> final(self).amount() == old(self).amount().wrapping_add(N),
            r is Err ==> final(self).amount() == old(self).amount(),
            final(self).start() == old(self).start(),
            old(self).counts_consumed() ==> final(self).counts_consumed(),
    {
        let array = self.inner.read_array()?;
        proof {
            if R::obeys_read_spec() && self.start@.len() <= usize::MAX && old(self).counts_consumed() {
                lemma_skip_skip(self.start@, self.amt_read as int, N as int);
            }
        }
        self.amt_read = self.amt_read.wrapping_add(N);
        Ok(array)
    }

    fn read_till_eof(&mut self) -> (r: ReadResult<Cow<'data, [u8]>>)
        ensures
            r matches Ok(bytes) ==> final(self).amount() == old(self).amount().wrapping_add(
                bytes@.len() as usize,
            ),
            r is Err ==> final(self).amount() == old(self).amount(),
            final(self).start() == old(self).start(),
            old(self).counts_consumed() ==> final(self).counts_consumed(),
    {
        let bytes = self.inner.read_till_eof()?;
        let len = match &bytes {
            Cow::Borrowed(b) => b.len(),
            Cow::Owned(v) => v.len(),
        };
        proof {
            if R::obeys_read_spec() && self.start@.len() <= usize::MAX && old(self).counts_consumed() {
                lemma_skip_skip(self.start@, self.amt_read as int, len as int);
                assert(self.inner.remaining() =~= self.start@.skip(self.amt_read + len));
            }
        }
        self.amt_read = self.amt_read.wrapping_add(len);
        Ok(bytes)
    }
}

} // verus!
