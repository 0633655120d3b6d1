//! What readers and writers of objects offer.

use vstd::prelude::*;
use crate::storage::error::Error;

verus! {

/// A block of bytes of the `bytes` crate. Writers take their data in this
/// form and look into it themselves.
#[verifier::external_type_specification]
#[verifier::external_body]
pub struct ExBytes(bytes::Bytes);

/// Takes the content of an object piece by piece.
pub trait ObjectWriter {
    fn write(&mut self, data: bytes::Bytes);

    fn finish(&mut self) -> Result<(), Error>;
}

/// Gives parts of the content of an object.
pub trait ObjectReader {
    fn read_at(&self, offset: i32, size: i32) -> Result<Vec<u8>, Error>;
}

} // verus!
