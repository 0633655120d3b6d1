//! What a journal offers.

use vstd::prelude::*;
use crate::journal::stream::{Error, Stream};

verus! {

/// A collection of named streams.
pub trait Journal {
    type S: Stream;

    /// Returns a stream.
    fn stream(&self, name: &str) -> Result<Self::S, Error>;

    /// Creates a stream.
    fn create_stream(&mut self, name: &str) -> Result<Self::S, Error>;

    /// Deletes a stream.
    fn delete_stream(&mut self, name: &str) -> Result<(), Error>;
}

} // verus!
