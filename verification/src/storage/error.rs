//! What a storage operation can fail with.

use vstd::prelude::*;

verus! {

/// The failures of storage operations, each with a text that says what
/// failed.
#[derive(Debug, PartialEq, Eq)]
pub enum Error {
    NotFound(String),
    AlreadyExists(String),
    AlreadyExist(String),
    AwsSDK(String),
    Unknown(String),
}

} // verus!
