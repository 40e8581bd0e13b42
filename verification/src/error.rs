use vstd::prelude::*;

verus! {

/// `std::io::ErrorKind`, carried opaquely.
#[verifier::external_type_specification]
#[verifier::external_body]
pub struct ExIoErrorKind(std::io::ErrorKind);

/// `std::io::Error`, carried opaquely.
#[verifier::external_type_specification]
#[verifier::external_body]
pub struct ExIoError(std::io::Error);

/// A kind of I/O failure other than the three that [`ErrorKind`] names.
///
/// It is made only by the conversions from `std::io::ErrorKind` and
/// `std::io::Error`, which give the three named kinds their own variants, so
/// that each kind has one form.
#[derive(Clone, Copy, Debug, PartialEq, Eq, Hash)]
pub struct OtherKind(std::io::ErrorKind);

impl OtherKind {
    /// The kind as the standard library names it.
    pub closed spec fn std_kind(self) -> std::io::ErrorKind {
        self.0
    }

    /// The kind as the standard library names it.
    pub fn io_kind(&self) -> (r: std::io::ErrorKind)
        ensures
            r == self.std_kind(),
    {
        self.0
    }
}

/// The category of an I/O failure.
///
/// The kinds that the readers and writers of this crate produce or react to
/// themselves have variants of their own; every other kind that the I/O layer
/// underneath reports travels in `Io`.
#[derive(Clone, Copy, Debug, PartialEq, Eq, Hash)]
pub enum ErrorKind {
    /// The input ended before the requested bytes could be read.
    UnexpectedEof,
    /// The output accepted no more bytes.
    WriteZero,
    /// The operation was interrupted and can be retried.
    Interrupted,
    /// Any other kind of I/O failure.
    Io(OtherKind),
}

/// Failure of a [`crate::Write`] operation.
#[derive(Clone, Copy, Debug, PartialEq, Eq)]
pub enum WriteError {
    /// The output failed with an I/O error of the given kind.
    IoError(ErrorKind),
}

/// Failure of a [`crate::Read`] operation.
#[derive(Clone, Copy, Debug, PartialEq, Eq)]
pub enum ReadError {
    /// The input failed with an I/O error of the given kind; running out of
    /// data is `ErrorKind::UnexpectedEof`.
    IoError(ErrorKind),
    /// A [`crate::DepthAwareReader`] was entered more deeply than its limit
    /// allows: `depth` is the depth that was reached, `limit` the maximum.
    AllowedDepthOverflow { depth: usize, limit: usize },
}

pub type ReadResult<T> = Result<T, ReadError>;

pub type WriteResult<T> = Result<T, WriteError>;

/// The error that reports running out of input.
pub open spec fn eof_error() -> ReadError {
    ReadError::IoError(ErrorKind::UnexpectedEof)
}

impl From<ErrorKind> for WriteError {
    fn from(value: ErrorKind) -> (r: Self) {
        WriteError::IoError(value)
    }
}

impl vstd::std_specs::convert::FromSpecImpl<ErrorKind> for WriteError {
    open spec fn obeys_from_spec() -> bool {
        true
    }

    open spec fn from_spec(v: ErrorKind) -> WriteError {
        WriteError::IoError(v)
    }
}

impl From<ErrorKind> for ReadError {
    fn from(value: ErrorKind) -> (r: Self) {
        ReadError::IoError(value)
    }
}

impl vstd::std_specs::convert::FromSpecImpl<ErrorKind> for ReadError {
    open spec fn obeys_from_spec() -> bool {
        true
    }

    open spec fn from_spec(v: ErrorKind) -> ReadError {
        ReadError::IoError(v)
    }
}

/// The `std::io::ErrorKind` that a kind of this crate stands for, as
/// [`ErrorKind::to_io_kind`] gives it.
pub uninterp spec fn std_kind_of(kind: ErrorKind) -> std::io::ErrorKind;

/// `kind` is none of the standard kinds that the named variants of this
/// crate other than `own` stand for: a standard kind sorted into `own` is
/// not also the standard kind of another named variant.
pub open spec fn named_kinds_other_than(kind: std::io::ErrorKind, own: ErrorKind) -> bool {
    &&& own !is UnexpectedEof ==> kind != std_kind_of(ErrorKind::UnexpectedEof)
    &&& own !is WriteZero ==> kind != std_kind_of(ErrorKind::WriteZero)
    &&& own !is Interrupted ==> kind != std_kind_of(ErrorKind::Interrupted)
}

/// The kind of this crate that a standard kind becomes: the named variant
/// whose standard kind it is, when it is one of those three.
pub open spec fn own_kind_of(kind: std::io::ErrorKind, own: ErrorKind) -> bool {
    &&& std_kind_of(own) == kind
    &&& kind == std_kind_of(ErrorKind::UnexpectedEof) ==> own == ErrorKind::UnexpectedEof
    &&& kind == std_kind_of(ErrorKind::WriteZero) ==> own == ErrorKind::WriteZero
    &&& kind == std_kind_of(ErrorKind::Interrupted) ==> own == ErrorKind::Interrupted
    &&& own matches ErrorKind::Io(o) ==> o.std_kind() == kind
}

/// Different standard kinds never become the same kind of this crate, and
/// the standard kinds of the three named variants become those variants.
pub proof fn lemma_own_kinds_tell_std_kinds_apart(
    kind1: std::io::ErrorKind,
    own1: ErrorKind,
    kind2: std::io::ErrorKind,
    own2: ErrorKind,
)
    requires
        own_kind_of(kind1, own1),
        own_kind_of(kind2, own2),
    ensures
        own1 == own2 ==> kind1 == kind2,
        own_kind_of(std_kind_of(ErrorKind::Interrupted), own1) ==> own1 == ErrorKind::Interrupted,
        own_kind_of(std_kind_of(ErrorKind::UnexpectedEof), own1) ==> own1 == ErrorKind::UnexpectedEof,
        own_kind_of(std_kind_of(ErrorKind::WriteZero), own1) ==> own1 == ErrorKind::WriteZero,
{
}

/// Names a kind of this crate as the standard library does: each of the
/// three own variants by the standard kind of the same name, `Io` by the
/// kind it carries. The result is named `std_kind_of`; of `Io` it is stated.
#[verifier::external_body]
fn to_std_kind(kind: ErrorKind) -> (r: std::io::ErrorKind)
    ensures
        r == std_kind_of(kind),
        kind matches ErrorKind::Io(o) ==> r == o.std_kind(),
{
    match kind {
        ErrorKind::UnexpectedEof => std::io::ErrorKind::UnexpectedEof,
        ErrorKind::WriteZero => std::io::ErrorKind::WriteZero,
        ErrorKind::Interrupted => std::io::ErrorKind::Interrupted,
        ErrorKind::Io(other) => other.0,
    }
}

/// Sorts a `std::io::ErrorKind` into the kinds that this crate tells apart:
/// the three that have a variant of their own map to it, every other kind is
/// carried in `ErrorKind::Io`. Either way the result stands for the kind it
/// was made from.
///
/// Which of the four variants comes out is stated only for `Io`:
/// `std::io::ErrorKind` is declared as an opaque type, so no contract can
/// name its variants.
#[verifier::external_body]
pub(crate) fn kind_from_io(kind: std::io::ErrorKind) -> (r: ErrorKind)
    ensures
        std_kind_of(r) == kind,
        r matches ErrorKind::Io(o) ==> o.std_kind() == kind,
        r is Io ==> named_kinds_other_than(kind, r),
        r is UnexpectedEof ==> named_kinds_other_than(kind, r),
        r is WriteZero ==> named_kinds_other_than(kind, r),
        r is Interrupted ==> named_kinds_other_than(kind, r),
{
    match kind {
        std::io::ErrorKind::UnexpectedEof => ErrorKind::UnexpectedEof,
        std::io::ErrorKind::WriteZero => ErrorKind::WriteZero,
        std::io::ErrorKind::Interrupted => ErrorKind::Interrupted,
        other => ErrorKind::Io(OtherKind(other)),
    }
}

impl ErrorKind {
    /// The kind as the standard library names it.
    pub fn to_io_kind(&self) -> (r: std::io::ErrorKind)
        ensures
            r == std_kind_of(*self),
            self matches ErrorKind::Io(o) ==> r == o.std_kind(),
    {
        to_std_kind(*self)
    }
}

/// `std::io::Error::kind`: the kind of an I/O error; nothing is stated of it.
#[verifier::external_body]
pub(crate) fn io_error_kind(error: &std::io::Error) -> (r: std::io::ErrorKind) {
    error.kind()
}

/// The conversion from a standard kind is an I/O error of the kind that
/// `kind_from_io` sorts it into, which stands for the given kind.
impl From<std::io::ErrorKind> for WriteError {
    fn from(value: std::io::ErrorKind) -> (r: Self)
        ensures
            r matches WriteError::IoError(k) && own_kind_of(value, k),
    {
        WriteError::IoError(kind_from_io(value))
    }
}

/// Not used: `obeys_from_spec` is false; what the conversion gives is stated
/// on `from`.
impl vstd::std_specs::convert::FromSpecImpl<std::io::ErrorKind> for WriteError {
    open spec fn obeys_from_spec() -> bool {
        false
    }

    open spec fn from_spec(v: std::io::ErrorKind) -> WriteError {
        arbitrary()
    }
}

/// The conversion from a standard error is an I/O error of the kind that
/// `kind_from_io` sorts the error's kind into.
impl From<std::io::Error> for WriteError {
    fn from(value: std::io::Error) -> (r: Self)
        ensures
            r is IoError,
    {
        WriteError::IoError(kind_from_io(io_error_kind(&value)))
    }
}

/// Not used: `obeys_from_spec` is false; what the conversion gives is stated
/// on `from`.
impl vstd::std_specs::convert::FromSpecImpl<std::io::Error> for WriteError {
    open spec fn obeys_from_spec() -> bool {
        false
    }

    open spec fn from_spec(v: std::io::Error) -> WriteError {
        arbitrary()
    }
}

/// The conversion from a standard kind is an I/O error (never a depth
/// overflow) of the kind that `kind_from_io` sorts it into, which stands for
/// the given kind.
impl From<std::io::ErrorKind> for ReadError {
    fn from(value: std::io::ErrorKind) -> (r: Self)
        ensures
            r matches ReadError::IoError(k) && own_kind_of(value, k),
    {
        ReadError::IoError(kind_from_io(value))
    }
}

/// Not used: `obeys_from_spec` is false; what the conversion gives is stated
/// on `from`.
impl vstd::std_specs::convert::FromSpecImpl<std::io::ErrorKind> for ReadError {
    open spec fn obeys_from_spec() -> bool {
        false
    }

    open spec fn from_spec(v: std::io::ErrorKind) -> ReadError {
        arbitrary()
    }
}

/// The conversion from a standard error is an I/O error (never a depth
/// overflow) of the kind that `kind_from_io` sorts the error's kind into.
impl From<std::io::Error> for ReadError {
    fn from(value: std::io::Error) -> (r: Self)
        ensures
            r is IoError,
    {
        ReadError::IoError(kind_from_io(io_error_kind(&value)))
    }
}

/// Not used: `obeys_from_spec` is false; what the conversion gives is stated
/// on `from`.
impl vstd::std_specs::convert::FromSpecImpl<std::io::Error> for ReadError {
    open spec fn obeys_from_spec() -> bool {
        false
    }

    open spec fn from_spec(v: std::io::Error) -> ReadError {
        arbitrary()
    }
}

} // verus!
