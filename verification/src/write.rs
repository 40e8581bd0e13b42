use vstd::prelude::*;

use crate::error::{ErrorKind, ReadResult, WriteError, WriteResult};
use crate::read::{read_chunk_outcome, read_rest_outcome};

verus! {

/// The bytes of `bufs`, one after the other.
pub open spec fn concat(bufs: Seq<&[u8]>) -> Seq<u8>
    decreases bufs.len(),
{
    if bufs.len() == 0 {
        Seq::empty()
    } else {
        concat(bufs.drop_last()) + bufs.last()@
    }
}

/// `after` is `before` followed by the first bytes of `buf`, as many as
/// `after` is longer.
pub open spec fn appends_prefix(before: Seq<u8>, after: Seq<u8>, buf: Seq<u8>) -> bool {
    &&& before.len() <= after.len() <= before.len() + buf.len()
    &&& after == before + buf.take(after.len() - before.len())
}

/// What a call of `write` does on a writer that counts its interruptions,
/// with `before` interruptions pending: while some are pending, the call
/// fails with `ErrorKind::Interrupted` and one fewer is pending; when none
/// is, the call is not interrupted, and a new run of at most `usize::MAX`
/// interruptions may begin.
pub open spec fn interrupt_outcome(before: nat, after: nat, r: WriteResult<usize>) -> bool {
    if before > 0 {
        r == Err::<usize, WriteError>(WriteError::IoError(ErrorKind::Interrupted)) && after == before - 1
    } else {
        r != Err::<usize, WriteError>(WriteError::IoError(ErrorKind::Interrupted)) && after <= usize::MAX
    }
}

/// A run of interruptions no longer than the retries left is retried to its
/// end: on a writer that counts its interruptions, while at most `retries`
/// are pending, an interrupted call of `write` leads `write_all` to call
/// `write` again, with one retry fewer and at most that many still pending,
/// and `write_all` never ends with `ErrorKind::Interrupted`.
pub proof fn lemma_interruptions_are_retried(
    before: nat,
    after: nat,
    written: WriteResult<usize>,
    retries: usize,
)
    requires
        interrupt_outcome(before, after, written),
        before <= retries,
    ensures
        write_all_decision(written, retries) != WriteAllStep::Fail(
            WriteError::IoError(ErrorKind::Interrupted),
        ),
        written == Err::<usize, WriteError>(WriteError::IoError(ErrorKind::Interrupted)) ==> {
            &&& write_all_decision(written, retries) == WriteAllStep::Retry
            &&& after <= retries - 1
        },
{
}

/// What [`Write::write_all`] does after a call of [`Write::write`].
#[derive(Debug, PartialEq, Eq)]
pub enum WriteAllStep {
    /// The call wrote this many bytes, which are dropped from the front of
    /// what is left to write.
    Advance(usize),
    /// The call was interrupted; it is made again with the same bytes.
    Retry,
    /// `write_all` ends with this error.
    Fail(WriteError),
}

/// The decision that `write_all` takes on the result of one call of `write`,
/// with `retries` retries still allowed: a call that wrote `n > 0` bytes
/// advances by `n`; one that wrote nothing ends with `WriteZero`; an
/// interrupted one is retried, or ends with its error when no retry is left;
/// any other error ends `write_all` with that error.
pub open spec fn write_all_decision(written: WriteResult<usize>, retries: usize) -> WriteAllStep {
    match written {
        Ok(n) => if n == 0 {
            WriteAllStep::Fail(WriteError::IoError(ErrorKind::WriteZero))
        } else {
            WriteAllStep::Advance(n)
        },
        Err(e) => if e == WriteError::IoError(ErrorKind::Interrupted) && retries > 0 {
            WriteAllStep::Retry
        } else {
            WriteAllStep::Fail(e)
        },
    }
}

/// Takes the decision of `write_all` on the result of one call of `write`.
pub fn write_all_step(written: WriteResult<usize>, retries: usize) -> (s: WriteAllStep)
    ensures
        s == write_all_decision(written, retries),
{
    match written {
        Ok(0) => WriteAllStep::Fail(WriteError::IoError(ErrorKind::WriteZero)),
        Ok(n) => WriteAllStep::Advance(n),
        Err(WriteError::IoError(ErrorKind::Interrupted)) => {
            if retries == 0 {
                WriteAllStep::Fail(WriteError::IoError(ErrorKind::Interrupted))
            } else {
                WriteAllStep::Retry
            }
        },
        Err(error) => WriteAllStep::Fail(error),
    }
}

/// A sink of bytes.
///
/// Each operation is stated over `output`, what the writer has taken in, for
/// the writers that declare (`obeys_write_spec`) that they track it.
pub trait Write {
    /// Whether `output` tracks what this writer has taken in, so that the
    /// clauses that speak of it below hold of every call.
    /// A writer that does not say so is not held to them.
    open spec fn obeys_write_spec() -> bool {
        false
    }

    /// Everything that this writer has taken in.
    open spec fn output(&self) -> Seq<u8> {
        Seq::empty()
    }

    /// Whether `write`, `flush` and `write_vectored` of this writer never
    /// fail. A writer that does not say so is not held to it.
    open spec fn writes_never_fail() -> bool {
        false
    }

    /// Whether `write` of this writer takes at least one byte of every
    /// buffer that is not empty. A writer that does not say so is not held
    /// to it.
    open spec fn write_always_progresses() -> bool {
        false
    }

    /// Whether every call of `write` takes `accepted(len)` bytes of a buffer
    /// of length `len`, with no failure, and `write_vectored` takes that
    /// many of all its buffers together. A writer that does not say so is
    /// not held to it.
    open spec fn obeys_accept_spec() -> bool {
        false
    }

    /// How many bytes of a buffer of length `len` the next `write` takes.
    open spec fn accepted(&self, len: nat) -> nat {
        0
    }

    /// Whether `interruptions_pending` counts the calls of `write` that will
    /// fail with `ErrorKind::Interrupted` before one that does not, so that
    /// `interrupt_outcome` holds of every call. A writer that does not say so
    /// is not held to it.
    open spec fn obeys_interrupt_spec() -> bool {
        false
    }

    /// How many calls of `write` in a row will be interrupted from now on.
    open spec fn interruptions_pending(&self) -> nat {
        0
    }

    /// Writes a buffer to the output. Not everything in the buffer need be
    /// written; [`Self::write_all`] writes it all.
    ///
    /// Returns the number of bytes written, which are the first ones of `buf`.
    fn write(&mut self, buf: &[u8]) -> (r: WriteResult<usize>)
        ensures
            r matches Ok(n) ==> n <= buf@.len(),
            Self::writes_never_fail() ==> r is Ok,
            Self::write_always_progresses() && buf@.len() > 0 ==> (r matches Ok(n) ==> n > 0),
            Self::obeys_accept_spec() ==> r == Ok::<usize, WriteError>(
                (*old(self)).accepted(buf@.len()) as usize,
            ),
            Self::obeys_interrupt_spec() ==> interrupt_outcome(
                (*old(self)).interruptions_pending(),
                (*final(self)).interruptions_pending(),
                r,
            ),
            Self::obeys_write_spec() ==> match r {
                Ok(n) => (*final(self)).output() == (*old(self)).output() + buf@.take(n as int),
                Err(_) => (*final(self)).output() == (*old(self)).output(),
            },
    ;

    /// Flushes the buffer to whatever underlying I/O exists.
    fn flush(&mut self) -> (r: WriteResult<()>)
        ensures
            Self::writes_never_fail() ==> r is Ok,
            Self::obeys_write_spec() ==> (*final(self)).output() == (*old(self)).output(),
    ;

    /// Writes the whole buffer to the underlying storage: calls
    /// [`Self::write`] until the buffer is written, retries the calls that
    /// fail with `ErrorKind::Interrupted`, and fails with
    /// `ErrorKind::WriteZero` when a call writes nothing. Other errors end
    /// it with that error. It gives up with `ErrorKind::Interrupted` only
    /// after `usize::MAX` retries in a row, each of them interrupted.
    ///
    /// An empty buffer is written without a call. A writer whose writes
    /// never fail and always take a byte is written to without failure. On a
    /// writer whose output is tracked, what it wrote is a prefix of `buf`,
    /// and all of it when it succeeds.
    fn write_all(&mut self, buf: &[u8]) -> (r: WriteResult<()>)
        ensures
            buf@.len() == 0 ==> r is Ok,
            Self::writes_never_fail() && Self::write_always_progresses() ==> r is Ok,
            Self::writes_never_fail() && r is Err ==> r == Err::<(), WriteError>(
                WriteError::IoError(ErrorKind::WriteZero),
            ),
            Self::obeys_interrupt_spec() && (*old(self)).interruptions_pending() <= usize::MAX
                ==> r != Err::<(), WriteError>(WriteError::IoError(ErrorKind::Interrupted)),
            Self::obeys_write_spec() ==> appends_prefix((*old(self)).output(), (*final(self)).output(), buf@),
            Self::obeys_write_spec() && r is Ok ==> (*final(self)).output() == (*old(self)).output() + buf@,
    {
        let mut rest: &[u8] = buf;
        let mut retries: usize = usize::MAX;
        let ghost start = (*self).output();
        while !rest.is_empty()
            invariant
                rest@.len() <= buf@.len(),
                rest@ == buf@.skip(buf@.len() - rest@.len()),
                Self::obeys_write_spec() ==> (*self).output() == start + buf@.take(buf@.len() - rest@.len()),
                start == (*old(self)).output(),
                Self::obeys_interrupt_spec() && (*old(self)).interruptions_pending() <= usize::MAX
                    ==> (*self).interruptions_pending() <= retries,
            decreases rest@.len(), retries,
        {
            let ghost done = buf@.len() - rest@.len();
            let written = self.write(rest);
            match write_all_step(written, retries) {
                WriteAllStep::Advance(n) => {
                    let (_, tail) = rest.split_at(n);
                    proof {
                        assert(buf@.take(done) + rest@.take(n as int) =~= buf@.take(done + n));
                        assert(tail@ =~= buf@.skip(done + n));
                    }
                    rest = tail;
                    retries = usize::MAX;
                },
                WriteAllStep::Retry => {
                    retries -= 1;
                },
                WriteAllStep::Fail(error) => {
                    return Err(error);
                },
            }
        }
        proof {
            assert(buf@.take(buf@.len() as int) =~= buf@);
        }
        Ok(())
    }

    /// Vectorized version of writes; returns the number of bytes written,
    /// which are the first ones of the buffers taken one after the other.
    fn write_vectored(&mut self, bufs: &[&[u8]]) -> (r: WriteResult<usize>)
        ensures
            Self::writes_never_fail() ==> r is Ok,
            Self::obeys_accept_spec() ==> r == Ok::<usize, WriteError>(
                (*old(self)).accepted(concat(bufs@).len()) as usize,
            ),
            Self::obeys_write_spec() ==> match r {
                Ok(n) => n <= concat(bufs@).len() && (*final(self)).output() == (*old(self)).output()
                    + concat(bufs@).take(n as int),
                Err(_) => (*final(self)).output() == (*old(self)).output(),
            },
    ;
}

/// What is written after the contents of a vector is read back after them:
/// reading as many bytes as the vector held before hands those out, and
/// reading on to the end hands out exactly what was written.
pub proof fn lemma_vec_write_reads_back<T1: View<V = Seq<u8>>, T2: View<V = Seq<u8>>>(
    start: Seq<u8>,
    buf: Seq<u8>,
    written: Seq<u8>,
    mid: Seq<u8>,
    first: ReadResult<T1>,
    after: Seq<u8>,
    rest: ReadResult<T2>,
)
    requires
        written == start + buf,
        read_chunk_outcome(written, start.len(), mid, first),
        read_rest_outcome(mid, after, rest),
    ensures
        first is Ok,
        first->Ok_0@ == start,
        rest->Ok_0@ == buf,
        after.len() == 0,
{
    assert(written.take(start.len() as int) =~= start);
    assert(written.skip(start.len() as int) =~= buf);
}

/// The bytes of the first `i` buffers are a prefix of those of the first `j`.
proof fn lemma_concat_prefix(s: Seq<&[u8]>, i: int, j: int)
    requires
        0 <= i <= j <= s.len(),
    ensures
        concat(s.take(i)).len() <= concat(s.take(j)).len(),
        concat(s.take(j)).take(concat(s.take(i)).len() as int) == concat(s.take(i)),
    decreases j - i,
{
    if i < j {
        lemma_concat_prefix(s, i, j - 1);
        assert(s.take(j).drop_last() =~= s.take(j - 1));
        let short = concat(s.take(i));
        let mid = concat(s.take(j - 1));
        assert(concat(s.take(j)) == mid + s[j - 1]@);
        assert((mid + s[j - 1]@).take(short.len() as int) =~= mid.take(short.len() as int));
    } else {
        assert(concat(s.take(j)).take(concat(s.take(i)).len() as int) =~= concat(s.take(i)));
    }
}

/// The smaller of two lengths.
pub open spec fn min_len(a: nat, b: nat) -> nat {
    if a < b {
        a
    } else {
        b
    }
}

/// A mutable reference writes to the writer it points to.
impl<W: Write + ?Sized> Write for &mut W {
    open spec fn obeys_write_spec() -> bool {
        W::obeys_write_spec()
    }

    open spec fn output(&self) -> Seq<u8> {
        (**self).output()
    }

    open spec fn writes_never_fail() -> bool {
        W::writes_never_fail()
    }

    open spec fn write_always_progresses() -> bool {
        W::write_always_progresses()
    }

    open spec fn obeys_accept_spec() -> bool {
        W::obeys_accept_spec()
    }

    open spec fn accepted(&self, len: nat) -> nat {
        (**self).accepted(len)
    }

    open spec fn obeys_interrupt_spec() -> bool {
        W::obeys_interrupt_spec()
    }

    open spec fn interruptions_pending(&self) -> nat {
        (**self).interruptions_pending()
    }

    fn write(&mut self, buf: &[u8]) -> (r: WriteResult<usize>) {
        (**self).write(buf)
    }

    fn flush(&mut self) -> (r: WriteResult<()>) {
        (**self).flush()
    }

    fn write_all(&mut self, buf: &[u8]) -> (r: WriteResult<()>) {
        (**self).write_all(buf)
    }

    fn write_vectored(&mut self, bufs: &[&[u8]]) -> (r: WriteResult<usize>) {
        (**self).write_vectored(bufs)
    }
}

/// A box writes to the writer it holds.
impl<W: Write + ?Sized> Write for Box<W> {
    open spec fn obeys_write_spec() -> bool {
        W::obeys_write_spec()
    }

    open spec fn output(&self) -> Seq<u8> {
        (**self).output()
    }

    open spec fn writes_never_fail() -> bool {
        W::writes_never_fail()
    }

    open spec fn write_always_progresses() -> bool {
        W::write_always_progresses()
    }

    open spec fn obeys_accept_spec() -> bool {
        W::obeys_accept_spec()
    }

    open spec fn accepted(&self, len: nat) -> nat {
        (**self).accepted(len)
    }

    open spec fn obeys_interrupt_spec() -> bool {
        W::obeys_interrupt_spec()
    }

    open spec fn interruptions_pending(&self) -> nat {
        (**self).interruptions_pending()
    }

    fn write(&mut self, buf: &[u8]) -> (r: WriteResult<usize>) {
        (**self).write(buf)
    }

    fn flush(&mut self) -> (r: WriteResult<()>) {
        (**self).flush()
    }

    fn write_all(&mut self, buf: &[u8]) -> (r: WriteResult<()>) {
        (**self).write_all(buf)
    }

    fn write_vectored(&mut self, bufs: &[&[u8]]) -> (r: WriteResult<usize>) {
        (**self).write_vectored(bufs)
    }
}

/// `<[u8]>::copy_from_slice`: documented to copy all of `src` into `dst`,
/// which must have the same length (it panics otherwise).
#[verifier::external_body]
fn copy_from_slice(dst: &mut [u8], src: &[u8])
    requires
        old(dst)@.len() == src@.len(),
    ensures
        final(dst)@ == src@,
{
    dst.copy_from_slice(src)
}

/// A mutable slice is written to from its front: what is written fills the
/// front, and the slice that is left to write to is the rest.
impl Write for &mut [u8] {
    open spec fn obeys_write_spec() -> bool {
        false
    }

    open spec fn output(&self) -> Seq<u8> {
        Seq::empty()
    }

    open spec fn writes_never_fail() -> bool {
        true
    }

    open spec fn obeys_accept_spec() -> bool {
        true
    }

    open spec fn accepted(&self, len: nat) -> nat {
        min_len(len, (**self)@.len())
    }

    open spec fn obeys_interrupt_spec() -> bool {
        true
    }

    fn write(&mut self, buf: &[u8]) -> (r: WriteResult<usize>)
        ensures
            r == Ok::<usize, WriteError>(
                if buf@.len() < old(self)@.len() { buf@.len() as usize } else { old(self)@.len() as usize },
            ),
            final(self)@ == old(self)@.skip(r->Ok_0 as int),
            final(*old(self))@ == buf@.take(r->Ok_0 as int) + final(*final(self))@,
    {
        let amt = if buf.len() < self.len() {
            buf.len()
        } else {
            self.len()
        };
        let mut whole: &mut [u8] = &mut [];
        std::mem::swap(self, &mut whole);
        let (tbw, end) = whole.split_at_mut(amt);
        copy_from_slice(tbw, vstd::slice::slice_subrange(buf, 0, amt));
        *self = end;
        Ok(amt)
    }

    fn flush(&mut self) -> (r: WriteResult<()>)
        ensures
            r is Ok,
            *final(self) == *old(self),
    {
        Ok(())
    }

    fn write_all(&mut self, buf: &[u8]) -> (r: WriteResult<()>)
        ensures
            r is Ok <==> buf@.len() <= old(self)@.len(),
            r is Err ==> r == Err::<(), WriteError>(WriteError::IoError(ErrorKind::WriteZero)),
            final(self)@ == old(self)@.skip(min_len(buf@.len(), old(self)@.len()) as int),
            final(*old(self))@ == buf@.take(min_len(buf@.len(), old(self)@.len()) as int)
                + final(*final(self))@,
    {
        let expected_len = buf.len();
        if self.write(buf)? == expected_len {
            Ok(())
        } else {
            Err(WriteError::IoError(ErrorKind::WriteZero))
        }
    }

    fn write_vectored(&mut self, bufs: &[&[u8]]) -> (r: WriteResult<usize>)
        ensures
            r == Ok::<usize, WriteError>(min_len(concat(bufs@).len(), old(self)@.len()) as usize),
            final(self)@ == old(self)@.skip(r->Ok_0 as int),
            final(*old(self))@ == concat(bufs@).take(r->Ok_0 as int) + final(*final(self))@,
    {
        let mut written: usize = 0;
        let mut i: usize = 0;
        let ghost cap = old(self)@.len();
        assert(cap <= usize::MAX) by {
            assert(self.len() == cap);
        }
        assert(concat(bufs@.take(0)) =~= Seq::<u8>::empty());
        while i < bufs.len() && !self.is_empty()
            invariant
                i <= bufs@.len(),
                cap == old(self)@.len(),
                cap <= usize::MAX,
                written <= cap,
                written == min_len(concat(bufs@.take(i as int)).len(), cap),
                self@ == old(self)@.skip(written as int),
                final(*old(self))@ == concat(bufs@.take(i as int)).take(written as int) + final(*self)@,
            decreases bufs@.len() - i,
        {
            let ghost before = concat(bufs@.take(i as int));
            let n = self.write(bufs[i])?;
            proof {
                assert(bufs@.take(i + 1).drop_last() =~= bufs@.take(i as int));
                let after = concat(bufs@.take(i + 1));
                assert(after == before + bufs@[i as int]@);
                assert(written == before.len());
                assert(before.take(written as int) + bufs@[i as int]@.take(n as int)
                    =~= after.take(written + n));
                assert(old(self)@.skip(written as int).skip(n as int) =~= old(self)@.skip(written + n));
            }
            written += n;
            i += 1;
        }
        proof {
            lemma_concat_prefix(bufs@, i as int, bufs@.len() as int);
            assert(bufs@.take(bufs@.len() as int) =~= bufs@);
        }
        Ok(written)
    }
}

/// A vector is written to by appending to it; it never fails, and never
/// writes less than it is given.
impl Write for Vec<u8> {
    open spec fn obeys_write_spec() -> bool {
        true
    }

    open spec fn output(&self) -> Seq<u8> {
        self@
    }

    open spec fn writes_never_fail() -> bool {
        true
    }

    open spec fn write_always_progresses() -> bool {
        true
    }

    open spec fn obeys_accept_spec() -> bool {
        true
    }

    open spec fn accepted(&self, len: nat) -> nat {
        len
    }

    open spec fn obeys_interrupt_spec() -> bool {
        true
    }

    fn write(&mut self, buf: &[u8]) -> (r: WriteResult<usize>)
        ensures
            r == Ok::<usize, WriteError>(buf@.len() as usize),
            final(self)@ == old(self)@ + buf@,
    {
        self.extend_from_slice(buf);
        proof {
            assert(final(self)@ =~= old(self)@ + buf@);
        }
        Ok(buf.len())
    }

    fn flush(&mut self) -> (r: WriteResult<()>)
        ensures
            r is Ok,
            final(self)@ == old(self)@,
    {
        Ok(())
    }

    fn write_all(&mut self, buf: &[u8]) -> (r: WriteResult<()>)
        ensures
            r is Ok,
            final(self)@ == old(self)@ + buf@,
    {
        self.write(buf)?;
        Ok(())
    }

    fn write_vectored(&mut self, bufs: &[&[u8]]) -> (r: WriteResult<usize>)
        ensures
            r == Ok::<usize, WriteError>(concat(bufs@).len() as usize),
            final(self)@ == old(self)@ + concat(bufs@),
    {
        let start_len = self.len();
        let mut i: usize = 0;
        while i < bufs.len()
            invariant
                i <= bufs@.len(),
                start_len == old(self)@.len(),
                self@ == old(self)@ + concat(bufs@.take(i as int)),
            decreases bufs@.len() - i,
        {
            self.extend_from_slice(bufs[i]);
            proof {
                assert(bufs@.take(i + 1).drop_last() =~= bufs@.take(i as int));
                assert(self@ =~= old(self)@ + concat(bufs@.take(i + 1)));
            }
            i += 1;
        }
        proof {
            assert(bufs@.take(bufs@.len() as int) =~= bufs@);
        }
        Ok(self.len() - start_len)
    }
}

} // verus!
