//! Parser-related utilities: a [`Read`] and a [`Write`] trait suited to
//! zero-copy environments, with implementations on in-memory buffers, a
//! depth-limited reader and a reader that counts the bytes read.

mod error;
mod read;
mod write;

pub use error::{ErrorKind, OtherKind, ReadError, ReadResult, WriteError, WriteResult};
pub use read::checkpoint;
pub use read::{DepthAwareReader, DepthAwareReaderGuard, Read};
pub use write::{write_all_step, Write, WriteAllStep};
