//! Buckets as directories below a root directory.

use vstd::prelude::*;
use vstd::string::StringExecFns;
use crate::storage::error::Error;
use crate::storage::path::{join_path, joined_path};

verus! {

/// A bucket that is a directory.
#[derive(Debug, PartialEq, Eq)]
pub struct FsBucket {
    pub path: String,
}

impl FsBucket {
    /// The bucket in the directory `path`.
    pub fn new(path: String) -> (bucket: FsBucket)
        ensures
            bucket.path == path,
    {
        FsBucket { path }
    }
}

/// A storage whose buckets are the directories below `root`.
#[derive(Debug)]
pub struct FsStorage {
    root: String,
}

impl View for FsStorage {
    type V = Seq<char>;

    closed spec fn view(&self) -> Seq<char> {
        self.root@
    }
}

impl FsStorage {
    /// The storage below the directory `root`, which exists.
    pub fn new(root: String) -> (storage: FsStorage)
        ensures
            storage@ == root@,
    {
        FsStorage { root }
    }

    /// The directory of the bucket `name`.
    pub fn bucket_path(&self, name: &str) -> (path: String)
        ensures
            path@ == joined_path(self@, name@),
    {
        join_path(self.root.as_str(), name)
    }

    /// The bucket `name`, given whether its directory exists: a bucket
    /// without a directory is not found.
    pub fn bucket(&self, name: &str, exists: bool) -> (result: Result<FsBucket, Error>)
        ensures
            match result {
                Ok(bucket) => exists && bucket.path@ == joined_path(self@, name@),
                Err(Error::NotFound(what)) => !exists && what@ == name@,
                Err(_) => false,
            },
    {
        let path = self.bucket_path(name);
        if !exists {
            return Err(Error::NotFound(String::from_str(name)));
        }
        Ok(FsBucket::new(path))
    }

    /// The bucket `name` to create, given whether its directory exists: a
    /// bucket whose directory is there exists already.
    pub fn create_bucket(&self, name: &str, exists: bool) -> (result: Result<FsBucket, Error>)
        ensures
            match result {
                Ok(bucket) => !exists && bucket.path@ == joined_path(self@, name@),
                Err(Error::AlreadyExists(what)) => exists && what@ == name@,
                Err(_) => false,
            },
    {
        let path = self.bucket_path(name);
        if exists {
            return Err(Error::AlreadyExists(String::from_str(name)));
        }
        Ok(FsBucket::new(path))
    }
}

} // verus!
