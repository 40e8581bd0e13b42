use std::borrow::Cow;

use vstd::prelude::*;

use crate::error::{eof_error, ErrorKind, ReadError, ReadResult};

pub mod checkpoint;

use checkpoint::Checkpoint;

verus! {

/// What `peek_byte` does to a reader holding `before`: the first byte comes
/// back and nothing is consumed; on empty input it fails with end of file.
pub open spec fn peek_outcome(before: Seq<u8>, after: Seq<u8>, r: ReadResult<u8>) -> bool {
    &&& after == before
    &&& if before.len() > 0 {
        r == Ok::<u8, ReadError>(before[0])
    } else {
        r == Err::<u8, ReadError>(eof_error())
    }
}

/// What `advance(n)` does: drops the first `n` bytes, or fails with end of
/// file and consumes nothing when fewer than `n` remain.
pub open spec fn advance_outcome(before: Seq<u8>, n: usize, after: Seq<u8>, r: ReadResult<()>) -> bool {
    if n <= before.len() {
        r == Ok::<(), ReadError>(()) && after == before.skip(n as int)
    } else {
        r == Err::<(), ReadError>(eof_error()) && after == before
    }
}

/// What `read_byte` does: hands out the first byte and consumes it, or fails
/// with end of file on empty input.
pub open spec fn read_byte_outcome(before: Seq<u8>, after: Seq<u8>, r: ReadResult<u8>) -> bool {
    if before.len() > 0 {
        r == Ok::<u8, ReadError>(before[0]) && after == before.skip(1)
    } else {
        r == Err::<u8, ReadError>(eof_error()) && after == before
    }
}

/// What reading `len` bytes at once does: the first `len` bytes come back and
/// are consumed, or, when fewer remain, the call fails with end of file and
/// consumes nothing.
pub open spec fn read_chunk_outcome<T: View<V = Seq<u8>>>(
    before: Seq<u8>,
    len: nat,
    after: Seq<u8>,
    r: ReadResult<T>,
) -> bool {
    if len <= before.len() {
        &&& r is Ok
        &&& r->Ok_0@ == before.take(len as int)
        &&& after == before.skip(len as int)
    } else {
        r == Err::<T, ReadError>(eof_error()) && after == before
    }
}

/// What `read_till_eof` does: everything that remains comes back, and
/// nothing is left.
pub open spec fn read_rest_outcome<T: View<V = Seq<u8>>>(
    before: Seq<u8>,
    after: Seq<u8>,
    r: ReadResult<T>,
) -> bool {
    &&& r is Ok
    &&& r->Ok_0@ == before
    &&& after.len() == 0
}

/// Peeking does not advance the stream: the byte peeked is the byte that the
/// next `read_byte` hands out, and the two calls fail together.
pub proof fn lemma_peek_then_read(
    before: Seq<u8>,
    mid: Seq<u8>,
    peeked: ReadResult<u8>,
    after: Seq<u8>,
    read: ReadResult<u8>,
)
    requires
        peek_outcome(before, mid, peeked),
        read_byte_outcome(mid, after, read),
    ensures
        peeked == read,
        peeked is Ok ==> after == before.skip(1),
        peeked is Err ==> after == before,
{
}

/// `read_array::<N>` behaves as `read_slice(N)`: from the same data, both
/// succeed or both fail, hand out the same bytes and leave the same data.
pub proof fn lemma_read_array_is_read_slice<'data, const N: usize>(
    before: Seq<u8>,
    after_slice: Seq<u8>,
    slice: ReadResult<Cow<'data, [u8]>>,
    after_array: Seq<u8>,
    array: ReadResult<Cow<'data, [u8; N]>>,
)
    requires
        read_chunk_outcome(before, N as nat, after_slice, slice),
        read_chunk_outcome(before, N as nat, after_array, array),
    ensures
        after_slice == after_array,
        slice is Ok <==> array is Ok,
        slice is Ok ==> slice->Ok_0@ == array->Ok_0@,
        slice is Err ==> slice->Err_0 == array->Err_0,
{
}

/// `advance(n)` consumes exactly what `read_slice(n)` would hand out: from
/// the same data, both succeed or both fail, and leave the same data.
pub proof fn lemma_advance_is_read_slice<'data>(
    before: Seq<u8>,
    n: usize,
    after_advance: Seq<u8>,
    advanced: ReadResult<()>,
    after_slice: Seq<u8>,
    slice: ReadResult<Cow<'data, [u8]>>,
)
    requires
        advance_outcome(before, n, after_advance, advanced),
        read_chunk_outcome(before, n as nat, after_slice, slice),
    ensures
        after_advance == after_slice,
        advanced is Ok <==> slice is Ok,
{
}

/// Reading `a` bytes and then `b` bytes hands out the same bytes, and leaves
/// the same data, as reading `a + b` bytes at once.
pub proof fn lemma_read_in_two_parts<T1: View<V = Seq<u8>>, T2: View<V = Seq<u8>>, T3: View<V = Seq<u8>>>(
    before: Seq<u8>,
    a: nat,
    mid: Seq<u8>,
    first: ReadResult<T1>,
    b: nat,
    after: Seq<u8>,
    second: ReadResult<T2>,
    after_whole: Seq<u8>,
    whole: ReadResult<T3>,
)
    requires
        a + b <= before.len(),
        read_chunk_outcome(before, a, mid, first),
        read_chunk_outcome(mid, b, after, second),
        read_chunk_outcome(before, a + b, after_whole, whole),
    ensures
        first is Ok && second is Ok && whole is Ok,
        first->Ok_0@ + second->Ok_0@ == whole->Ok_0@,
        after == after_whole,
{
    assert(before.take(a as int) + before.skip(a as int).take(b as int) =~= before.take((a + b) as int));
    assert(before.skip(a as int).skip(b as int) =~= before.skip((a + b) as int));
}

/// After reading to the end, the stream is at its end: the next peek fails
/// with end of file.
pub proof fn lemma_eof_after_read_till_eof<T: View<V = Seq<u8>>>(
    before: Seq<u8>,
    mid: Seq<u8>,
    rest: ReadResult<T>,
    after: Seq<u8>,
    peeked: ReadResult<u8>,
)
    requires
        read_rest_outcome(before, mid, rest),
        peek_outcome(mid, after, peeked),
    ensures
        rest->Ok_0@ == before,
        peeked == Err::<u8, ReadError>(eof_error()),
{
}

/// `<[u8]>::split_first_chunk`: documented to return the first `N` bytes as
/// an array and the rest of the slice, or `None` when fewer than `N` are there.
#[verifier::external_body]
fn split_first_chunk<'a, const N: usize>(s: &'a [u8]) -> (r: Option<(&'a [u8; N], &'a [u8])>)
    ensures
        r is Some <==> N <= s@.len(),
        r matches Some(p) ==> p.0@ == s@.take(N as int) && p.1@ == s@.skip(N as int),
{
    s.split_first_chunk::<N>()
}

/// A source of bytes that hands out what it holds from the front.
///
/// Each operation is stated over `remaining`, the bytes still to be handed
/// out, for the readers that declare (`obeys_read_spec`) that they track them.
pub trait Read<'data> {
    /// Whether `remaining` tracks the data of this reader exactly, so that
    /// the `*_outcome` clauses below hold of every call. A reader that does
    /// not say so is not held to them.
    open spec fn obeys_read_spec() -> bool {
        false
    }

    /// The bytes that this reader has still to hand out.
    open spec fn remaining(&self) -> Seq<u8> {
        Seq::empty()
    }

    /// Whether this reader hands out bytes borrowed from its input, without
    /// copying them, and stays so. A reader that does not say so is not held
    /// to it.
    open spec fn hands_out_borrowed(&self) -> bool {
        false
    }

    /// Whether this reader hands out bytes that it owns, and stays so. A
    /// reader that does not say so is not held to it.
    open spec fn hands_out_owned(&self) -> bool {
        false
    }

    /// Peek a single byte over the data stream, without advancing it.
    fn peek_byte(&mut self) -> (r: ReadResult<u8>)
        ensures
            Self::obeys_read_spec() ==> peek_outcome(old(self).remaining(), final(self).remaining(), r),
            old(self).hands_out_borrowed() ==> final(self).hands_out_borrowed(),
            old(self).hands_out_owned() ==> final(self).hands_out_owned(),
    ;

    /// Manually advances the data stream by `n` bytes.
    fn advance(&mut self, n: usize) -> (r: ReadResult<()>)
        ensures
            Self::obeys_read_spec() ==> advance_outcome(old(self).remaining(), n, final(self).remaining(), r),
            old(self).hands_out_borrowed() ==> final(self).hands_out_borrowed(),
            old(self).hands_out_owned() ==> final(self).hands_out_owned(),
    ;

    /// Read a single byte from the data stream.
    fn read_byte(&mut self) -> (r: ReadResult<u8>)
        ensures
            Self::obeys_read_spec() ==> read_byte_outcome(old(self).remaining(), final(self).remaining(), r),
            old(self).hands_out_borrowed() ==> final(self).hands_out_borrowed(),
            old(self).hands_out_owned() ==> final(self).hands_out_owned(),
    ;

    /// Read a byte slice of length `len` from the data stream; fails if fewer
    /// than `len` bytes remain.
    fn read_slice(&mut self, len: usize) -> (r: ReadResult<Cow<'data, [u8]>>)
        ensures
            r matches Ok(s) ==> s@.len() == len,
            Self::obeys_read_spec() ==> read_chunk_outcome(old(self).remaining(), len as nat, final(self).remaining(), r),
            old(self).hands_out_borrowed() ==> final(self).hands_out_borrowed(),
            old(self).hands_out_owned() ==> final(self).hands_out_owned(),
            old(self).hands_out_borrowed() ==> (r matches Ok(c) ==> c is Borrowed),
            old(self).hands_out_owned() ==> (r matches Ok(c) ==> c is Owned),
    ;

    /// Read a byte array of length `N` from the data stream; behaves as
    /// `read_slice(N)` with a sized result.
    fn read_array<const N: usize>(&mut self) -> (r: ReadResult<Cow<'data, [u8; N]>>)
        ensures
            r matches Ok(a) ==> a@.len() == N,
            Self::obeys_read_spec() ==> read_chunk_outcome(old(self).remaining(), N as nat, final(self).remaining(), r),
            old(self).hands_out_borrowed() ==> final(self).hands_out_borrowed(),
            old(self).hands_out_owned() ==> final(self).hands_out_owned(),
            old(self).hands_out_borrowed() ==> (r matches Ok(c) ==> c is Borrowed),
            old(self).hands_out_owned() ==> (r matches Ok(c) ==> c is Owned),
    ;

    /// Reads the data stream till its end.
    fn read_till_eof(&mut self) -> (r: ReadResult<Cow<'data, [u8]>>)
        ensures
            Self::obeys_read_spec() ==> read_rest_outcome(old(self).remaining(), final(self).remaining(), r),
            old(self).hands_out_borrowed() ==> final(self).hands_out_borrowed(),
            old(self).hands_out_owned() ==> final(self).hands_out_owned(),
            old(self).hands_out_borrowed() ==> (r matches Ok(c) ==> c is Borrowed),
            old(self).hands_out_owned() ==> (r matches Ok(c) ==> c is Owned),
    ;

    /// Starts a checkpointed read, which tracks how many bytes in total were
    /// read from it.
    ///
    /// This serves data formats that give the byte length of a collection
    /// instead of its number of items (eg: TLSPL).
    ///
    /// The contract speaks of the checkpoint, not of this reader once the
    /// checkpoint is released: a caller cannot reason about the reader's
    /// bytes after the checkpoint ends.
    fn checkpoint<'a>(&'a mut self) -> (c: Checkpoint<'a, 'data, Self>) where Self: Sized
        ensures
            c.reader() == *old(self),
            c.amount() == 0,
            c.start() == old(self).remaining(),
    {
        let ghost start = self.remaining();
        Checkpoint::begin(self, Ghost(start))
    }
}

impl<'data> Read<'data> for &'data [u8] {
    open spec fn obeys_read_spec() -> bool {
        true
    }

    open spec fn remaining(&self) -> Seq<u8> {
        (*self)@
    }

    open spec fn hands_out_borrowed(&self) -> bool {
        true
    }


    fn peek_byte(&mut self) -> (r: ReadResult<u8>) {
        if self.is_empty() {
            return Err(ReadError::IoError(ErrorKind::UnexpectedEof));
        }
        Ok(self[0])
    }

    fn advance(&mut self, n: usize) -> (r: ReadResult<()>) {
        if n > self.len() {
            return Err(ReadError::IoError(ErrorKind::UnexpectedEof));
        }
        let data: &'data [u8] = *self;
        let (_, rest) = data.split_at(n);
        *self = rest;
        Ok(())
    }

    fn read_byte(&mut self) -> (r: ReadResult<u8>) {
        if self.is_empty() {
            return Err(ReadError::IoError(ErrorKind::UnexpectedEof));
        }
        let data: &'data [u8] = *self;
        let b = data[0];
        let (_, rest) = data.split_at(1);
        *self = rest;
        Ok(b)
    }

    fn read_slice(&mut self, len: usize) -> (r: ReadResult<Cow<'data, [u8]>>)
        ensures
            r matches Ok(c) ==> c is Borrowed,
    {
        if len > self.len() {
            return Err(ReadError::IoError(ErrorKind::UnexpectedEof));
        }
        let data: &'data [u8] = *self;
        let (start, end) = data.split_at(len);
        *self = end;
        Ok(Cow::Borrowed(start))
    }

    fn read_array<const N: usize>(&mut self) -> (r: ReadResult<Cow<'data, [u8; N]>>)
        ensures
            r matches Ok(c) ==> c is Borrowed,
    {
        let data: &'data [u8] = *self;
        match split_first_chunk::<N>(data) {
            None => Err(ReadError::IoError(ErrorKind::UnexpectedEof)),
            Some((start, end)) => {
                *self = end;
                Ok(Cow::Borrowed(start))
            },
        }
    }

    fn read_till_eof(&mut self) -> (r: ReadResult<Cow<'data, [u8]>>)
        ensures
            r matches Ok(c) ==> c is Borrowed,
    {
        let len = self.len();
        let r = self.read_slice(len);
        assert(old(self)@.take(len as int) =~= old(self)@);
        r
    }
}

/// An owned buffer reads from its front; what is read is removed from it.
impl<'data> Read<'data> for Vec<u8> {
    open spec fn obeys_read_spec() -> bool {
        true
    }

    open spec fn remaining(&self) -> Seq<u8> {
        self@
    }

    open spec fn hands_out_owned(&self) -> bool {
        true
    }


    fn peek_byte(&mut self) -> (r: ReadResult<u8>) {
        let mut data: &[u8] = self.as_slice();
        data.peek_byte()
    }

    fn advance(&mut self, n: usize) -> (r: ReadResult<()>) {
        if n > self.len() {
            return Err(ReadError::IoError(ErrorKind::UnexpectedEof));
        }
        let mut rest = self.split_off(n);
        std::mem::swap(self, &mut rest);
        Ok(())
    }

    fn read_byte(&mut self) -> (r: ReadResult<u8>) {
        let b = self.peek_byte()?;
        self.advance(1)?;
        Ok(b)
    }

    fn read_slice(&mut self, len: usize) -> (r: ReadResult<Cow<'data, [u8]>>)
        ensures
            r matches Ok(c) ==> c is Owned,
    {
        if len > self.len() {
            return Err(ReadError::IoError(ErrorKind::UnexpectedEof));
        }
        let mut end = self.split_off(len);
        std::mem::swap(self, &mut end);
        Ok(Cow::Owned(end))
    }

    /// Copies the bytes twice; a reader over a slice hands them out in place.
    fn read_array<const N: usize>(&mut self) -> (r: ReadResult<Cow<'data, [u8; N]>>)
        ensures
            r matches Ok(c) ==> c is Owned,
    {
        if N > self.len() {
            return Err(ReadError::IoError(ErrorKind::UnexpectedEof));
        }
        let mut target = self.split_off(N);
        std::mem::swap(self, &mut target);
        assert(target@.take(N as int) =~= old(self)@.take(N as int));
        match split_first_chunk::<N>(target.as_slice()) {
            Some((array, _)) => Ok(Cow::Owned(*array)),
            None => Err(ReadError::IoError(ErrorKind::UnexpectedEof)),
        }
    }

    fn read_till_eof(&mut self) -> (r: ReadResult<Cow<'data, [u8]>>)
        ensures
            r matches Ok(c) ==> c is Owned,
    {
        let mut all: Vec<u8> = Vec::new();
        std::mem::swap(self, &mut all);
        Ok(Cow::Owned(all))
    }
}

/// A copy-on-write buffer reads as the slice or the vector that it holds: it
/// keeps its variant, and hands out borrowed bytes when it borrows and owned
/// bytes when it owns.
impl<'data> Read<'data> for Cow<'data, [u8]> {
    open spec fn obeys_read_spec() -> bool {
        true
    }

    open spec fn remaining(&self) -> Seq<u8> {
        self@
    }

    open spec fn hands_out_borrowed(&self) -> bool {
        self is Borrowed
    }

    open spec fn hands_out_owned(&self) -> bool {
        self is Owned
    }


    fn peek_byte(&mut self) -> (r: ReadResult<u8>)
        ensures
            (*old(self)) is Borrowed <==> (*final(self)) is Borrowed,
    {
        match self {
            Cow::Borrowed(slice) => slice.peek_byte(),
            Cow::Owned(vec) => vec.peek_byte(),
        }
    }

    fn advance(&mut self, n: usize) -> (r: ReadResult<()>)
        ensures
            (*old(self)) is Borrowed <==> (*final(self)) is Borrowed,
    {
        match self {
            Cow::Borrowed(slice) => slice.advance(n),
            Cow::Owned(vec) => vec.advance(n),
        }
    }

    fn read_byte(&mut self) -> (r: ReadResult<u8>)
        ensures
            (*old(self)) is Borrowed <==> (*final(self)) is Borrowed,
    {
        match self {
            Cow::Borrowed(slice) => slice.read_byte(),
            Cow::Owned(vec) => vec.read_byte(),
        }
    }

    fn read_slice(&mut self, len: usize) -> (r: ReadResult<Cow<'data, [u8]>>)
        ensures
            (*old(self)) is Borrowed <==> (*final(self)) is Borrowed,
            r matches Ok(c) ==> (c is Borrowed <==> (*old(self)) is Borrowed),
    {
        match self {
            Cow::Borrowed(slice) => slice.read_slice(len),
            Cow::Owned(vec) => vec.read_slice(len),
        }
    }

    fn read_array<const N: usize>(&mut self) -> (r: ReadResult<Cow<'data, [u8; N]>>)
        ensures
            (*old(self)) is Borrowed <==> (*final(self)) is Borrowed,
            r matches Ok(c) ==> (c is Borrowed <==> (*old(self)) is Borrowed),
    {
        match self {
            Cow::Borrowed(slice) => slice.read_array(),
            Cow::Owned(vec) => vec.read_array(),
        }
    }

    fn read_till_eof(&mut self) -> (r: ReadResult<Cow<'data, [u8]>>)
        ensures
            (*old(self)) is Borrowed <==> (*final(self)) is Borrowed,
            r matches Ok(c) ==> (c is Borrowed <==> (*old(self)) is Borrowed),
    {
        match self {
            Cow::Borrowed(slice) => slice.read_till_eof(),
            Cow::Owned(vec) => vec.read_till_eof(),
        }
    }
}

/// Depth-aware wrapper around a [`Read`] implementation, which bounds how
/// deeply nested structures may be entered (against billion-laughs attacks).
#[derive(Debug)]
pub struct DepthAwareReader<'data, R: Read<'data>> {
    reader: R,
    limit: usize,
    depth: usize,
    _marker: std::marker::PhantomData<&'data ()>,
}

impl<'data, R: Read<'data>> DepthAwareReader<'data, R> {
    /// Default depth limit
    pub const DEFAULT_LIMIT: usize = 256;

    /// The wrapped reader.
    pub closed spec fn inner(&self) -> R {
        self.reader
    }

    /// The maximal depth that may be entered.
    pub closed spec fn limit(&self) -> usize {
        self.limit
    }

    /// The current depth.
    pub closed spec fn depth(&self) -> usize {
        self.depth
    }

    /// Initializes a DepthAwareReader using [`Self::DEFAULT_LIMIT`] as a depth limit
    pub fn from_reader(reader: R) -> (r: Self)
        ensures
            r.inner() == reader,
            r.limit() == 256,
            r.depth() == 0,
    {
        Self { reader, limit: Self::DEFAULT_LIMIT, depth: 0, _marker: std::marker::PhantomData }
    }

    /// Initializes a DepthAwareReader using a custom depth limit
    pub fn from_reader_with_limit(reader: R, limit: usize) -> (r: Self)
        ensures
            r.inner() == reader,
            r.limit() == limit,
            r.depth() == 0,
    {
        Self { reader, limit, depth: 0, _marker: std::marker::PhantomData }
    }

    /// Increments the current depth, checks that it does not exceed the limit
    /// and returns a guard that exits this depth when dropped.
    ///
    /// When the limit is exceeded no guard is made, and the depth stays one
    /// higher than it was.
    ///
    /// The contract speaks of the guard, not of this reader once the guard is
    /// dropped: a caller cannot reason about the reader after the guard ends
    /// (the guard's `drop` states the depth it leaves behind).
    pub fn enter(&mut self) -> (r: ReadResult<DepthAwareReaderGuard<'_, 'data, R>>)
        requires
            old(self).depth() < usize::MAX,
        ensures
            r is Ok <==> old(self).depth() + 1 <= old(self).limit(),
            r matches Ok(g) ==> {
                &&& g.reader().depth() == old(self).depth() + 1
                &&& g.reader().limit() == old(self).limit()
                &&& g.reader().inner() == old(self).inner()
                &&& g.accumulated() == 1
                &&& 1 <= g.accumulated() <= g.reader().depth()
                &&& g.base_depth() == old(self).depth()
            },
            r matches Err(e) ==> {
                &&& e == (ReadError::AllowedDepthOverflow {
                    depth: (old(self).depth() + 1) as usize,
                    limit: old(self).limit(),
                })
                &&& final(self).depth() == old(self).depth() + 1
                &&& final(self).limit() == old(self).limit()
                &&& final(self).inner() == old(self).inner()
            },
    {
        self.depth += 1;
        if self.depth <= self.limit {
            Ok(DepthAwareReaderGuard::new(self))
        } else {
            Err(ReadError::AllowedDepthOverflow { depth: self.depth, limit: self.limit })
        }
    }
}

/// Guard that decrements the current depth when dropped
///
/// It remembers the depth that the reader had before its first level, and
/// puts the reader back at that depth when it is dropped: the levels it has
/// entered are the reader's depth less that one.
pub struct DepthAwareReaderGuard<'a, 'data, R: Read<'data>> {
    reader: &'a mut DepthAwareReader<'data, R>,
    base_depth: usize,
    origin: Ghost<usize>,
}

impl<'a, 'data, R: Read<'data>> DepthAwareReaderGuard<'a, 'data, R> {
    /// The depth to go back to is fixed when the guard is made, and the
    /// reader never stands below it while the guard holds it.
    #[verifier::type_invariant]
    closed spec fn wf(&self) -> bool {
        &&& self.base_depth == self.origin@
        &&& self.base_depth <= self.reader.depth
    }

    /// How many levels this guard has entered, and leaves when dropped.
    pub closed spec fn accumulated(&self) -> usize {
        (self.reader.depth - self.base_depth) as usize
    }

    /// The reader, as it stands while the guard holds it.
    pub closed spec fn reader(&self) -> DepthAwareReader<'data, R> {
        *self.reader
    }

    /// The depth of the reader before this guard entered its first level.
    pub closed spec fn base_depth(&self) -> usize {
        self.origin@
    }

    /// The depth of the reader is the depth it had before the guard was made,
    /// plus the levels that the guard has entered.
    pub open spec fn accounts_depth(&self) -> bool {
        self.reader().depth() == self.base_depth() + self.accumulated()
    }

    fn new(rdr: &'a mut DepthAwareReader<'data, R>) -> (r: Self)
        requires
            old(rdr).depth() >= 1,
        ensures
            r.reader() == *old(rdr),
            r.accumulated() == 1,
            r.base_depth() == old(rdr).depth() - 1,
    {
        let base = rdr.depth - 1;
        Self { reader: rdr, base_depth: base, origin: Ghost(base) }
    }

    /// Enters one level more; fails when that exceeds the limit, in which
    /// case the guard is dropped and all its levels are left.
    pub fn enter(self) -> (r: ReadResult<Self>)
        requires
            self.reader().depth() < usize::MAX,
        ensures
            r is Ok <==> self.reader().depth() + 1 <= self.reader().limit(),
            r matches Ok(g) ==> {
                &&& g.reader().depth() == self.reader().depth() + 1
                &&& g.reader().limit() == self.reader().limit()
                &&& g.reader().inner() == self.reader().inner()
                &&& g.accumulated() == self.accumulated() + 1
                &&& 1 <= g.accumulated() <= g.reader().depth()
                &&& g.base_depth() == self.base_depth()
                &&& self.accounts_depth() ==> g.accounts_depth()
                &&& g.accounts_depth()
            },
            r matches Err(e) ==> e == (ReadError::AllowedDepthOverflow {
                depth: (self.reader().depth() + 1) as usize,
                limit: self.reader().limit(),
            }),
    {
        let mut guard = self;
        proof {
            use_type_invariant(&guard);
        }
        guard.reader.depth += 1;
        if guard.reader.depth <= guard.reader.limit {
            Ok(guard)
        } else {
            let e = ReadError::AllowedDepthOverflow {
                depth: guard.reader.depth,
                limit: guard.reader.limit,
            };
            guard.exit();
            Err(e)
        }
    }

    /// Leaves every level that this guard entered: the reader is back at the
    /// depth it had before the guard's first level.
    fn exit(&mut self)
        ensures
            final(self).reader().depth() == old(self).reader().depth() - old(self).accumulated(),
            final(self).reader().depth() == old(self).base_depth(),
            final(self).reader().limit() == old(self).reader().limit(),
            final(self).reader().inner() == old(self).reader().inner(),
            final(self).accumulated() == 0,
            final(self).base_depth() == old(self).base_depth(),
        opens_invariants none
        no_unwind
    {
        proof {
            use_type_invariant(&*self);
        }
        self.reader.depth = self.base_depth;
    }
}

impl<'a, 'data, R: Read<'data>> Drop for DepthAwareReaderGuard<'a, 'data, R> {
    /// Leaves the levels that the guard entered: where the guard accounts for
    /// the depth, the reader is back at the depth it had before.
    fn drop(&mut self)
        ensures
            old(self).accounts_depth() ==> final(self).reader().depth() == old(self).base_depth(),
            final(self).reader().depth() == old(self).base_depth(),
            final(self).reader().depth() == old(self).reader().depth() - old(self).accumulated(),
            final(self).reader().limit() == old(self).reader().limit(),
            final(self).reader().inner() == old(self).reader().inner(),
            final(self).accumulated() == 0,
        opens_invariants none
        no_unwind
    {
        self.exit();
    }
}

/// The wrapped reader's operations, unchanged.
impl<'data, R: Read<'data>> Read<'data> for DepthAwareReader<'data, R> {
    open spec fn obeys_read_spec() -> bool {
        R::obeys_read_spec()
    }

    open spec fn remaining(&self) -> Seq<u8> {
        self.inner().remaining()
    }

    open spec fn hands_out_borrowed(&self) -> bool {
        self.inner().hands_out_borrowed()
    }

    open spec fn hands_out_owned(&self) -> bool {
        self.inner().hands_out_owned()
    }


    fn peek_byte(&mut self) -> (r: ReadResult<u8>)
        ensures
            final(self).depth() == old(self).depth(),
            final(self).limit() == old(self).limit(),
    {
        self.reader.peek_byte()
    }

    fn advance(&mut self, n: usize) -> (r: ReadResult<()>)
        ensures
            final(self).depth() == old(self).depth(),
            final(self).limit() == old(self).limit(),
    {
        self.reader.advance(n)
    }

    fn read_byte(&mut self) -> (r: ReadResult<u8>)
        ensures
            final(self).depth() == old(self).depth(),
            final(self).limit() == old(self).limit(),
    {
        self.reader.read_byte()
    }

    fn read_slice(&mut self, len: usize) -> (r: ReadResult<Cow<'data, [u8]>>)
        ensures
            final(self).depth() == old(self).depth(),
            final(self).limit() == old(self).limit(),
    {
        self.reader.read_slice(len)
    }

    fn read_array<const N: usize>(&mut self) -> (r: ReadResult<Cow<'data, [u8; N]>>)
        ensures
            final(self).depth() == old(self).depth(),
            final(self).limit() == old(self).limit(),
    {
        self.reader.read_array()
    }

    fn read_till_eof(&mut self) -> (r: ReadResult<Cow<'data, [u8]>>)
        ensures
            final(self).depth() == old(self).depth(),
            final(self).limit() == old(self).limit(),
    {
        self.reader.read_till_eof()
    }
}

} // verus!
