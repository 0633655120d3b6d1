//! A journal of timestamped events, kept in named streams.

pub mod file;
pub mod journal;
pub mod mem;
pub mod stream;

pub use self::journal::Journal;
pub use self::mem::MemStream;
pub use self::stream::{Error, Event, Stream, Timestamp};
