//! Buckets of objects: in memory and in directories of a file system.

pub mod error;
pub mod fs;
pub mod local;
pub mod mem;
pub mod object_handle;
pub mod path;

pub use self::error::Error;
pub use self::fs::{FsBucket, FsStorage};
pub use self::local::{LocalBucket, LocalObject, LocalObjectUploader};
pub use self::mem::{MemBucket, MemStorage};
pub use self::object_handle::{ObjectReader, ObjectWriter};
