//! The entry points of the log-structured store.

use vstd::prelude::*;

verus! {

/// The store.
#[derive(Debug, PartialEq, Eq, Structural)]
pub struct Store {}

/// A tenant of the store.
#[derive(Debug, PartialEq, Eq, Structural)]
pub struct Tenant {}

/// A bucket of a tenant.
#[derive(Debug, PartialEq, Eq, Structural)]
pub struct Bucket {}

/// A cursor over the entries of a bucket.
#[derive(Debug, PartialEq, Eq, Structural)]
pub struct BucketIter {}

impl Bucket {
    /// A cursor over the entries of the bucket.
    pub fn iter(&self) -> (iter: BucketIter)
        ensures
            iter == (BucketIter {  }),
    {
        BucketIter {  }
    }
}

} // verus!
