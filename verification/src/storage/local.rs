//! Objects as files in the directory of their bucket.

use vstd::prelude::*;
use vstd::string::StringExecFns;
use crate::storage::error::Error;
use crate::storage::path::{join_path, joined_path};

verus! {

/// An object that is a file.
#[derive(Debug, PartialEq, Eq)]
pub struct LocalObject {
    pub path: String,
}

impl LocalObject {
    /// The object in the file `path`.
    pub fn new(path: String) -> (object: LocalObject)
        ensures
            object.path == path,
    {
        LocalObject { path }
    }
}

/// A bucket that is a directory.
#[derive(Debug)]
pub struct LocalBucket {
    path: String,
}

impl View for LocalBucket {
    type V = Seq<char>;

    closed spec fn view(&self) -> Seq<char> {
        self.path@
    }
}

impl LocalBucket {
    /// The bucket in the directory `path`.
    pub fn new(path: String) -> (bucket: LocalBucket)
        ensures
            bucket@ == path@,
    {
        LocalBucket { path }
    }

    /// The file of the object `name`.
    pub fn object_path(&self, name: &str) -> (path: String)
        ensures
            path@ == joined_path(self@, name@),
    {
        join_path(self.path.as_str(), name)
    }

    /// The object `name`, given whether its file exists: an object without
    /// a file is not found.
    pub fn object(&self, name: &str, exists: bool) -> (result: Result<LocalObject, Error>)
        ensures
            match result {
                Ok(object) => exists && object.path@ == joined_path(self@, name@),
                Err(Error::NotFound(what)) => !exists && what@ == name@,
                Err(_) => false,
            },
    {
        let path = self.object_path(name);
        if !exists {
            return Err(Error::NotFound(String::from_str(name)));
        }
        Ok(LocalObject::new(path))
    }

    /// An uploader for the object `name`, with nothing written yet.
    pub fn upload_object(&self, name: &str) -> (uploader: LocalObjectUploader)
        ensures
            uploader@ == (joined_path(self@, name@), Seq::<u8>::empty()),
    {
        LocalObjectUploader::new(self.object_path(name))
    }
}

/// Collects the content of an object before it is written to its file.
#[derive(Debug)]
pub struct LocalObjectUploader {
    path: String,
    buf: Vec<u8>,
}

impl View for LocalObjectUploader {
    type V = (Seq<char>, Seq<u8>);

    closed spec fn view(&self) -> (Seq<char>, Seq<u8>) {
        (self.path@, self.buf@)
    }
}

impl LocalObjectUploader {
    /// An uploader for the file `path`, with nothing written yet.
    pub fn new(path: String) -> (uploader: LocalObjectUploader)
        ensures
            uploader@ == (path@, Seq::<u8>::empty()),
    {
        LocalObjectUploader { path, buf: Vec::new() }
    }

    /// Adds `buf` to the end of the content.
    pub fn write(&mut self, buf: &Vec<u8>)
        ensures
            final(self)@ == (old(self)@.0, old(self)@.1 + buf@),
    {
        let mut i: usize = 0;
        while i < buf.len()
            invariant
                i <= buf.len(),
                self.path@ == old(self).path@,
                self.buf@ == old(self).buf@ + buf@.take(i as int),
            decreases buf.len() - i,
        {
            self.buf.push(buf[i]);
            assert(buf@.take(i + 1) == buf@.take(i as int).push(buf@[i as int]));
            i += 1;
        }
        assert(buf@.take(buf.len() as int) == buf@);
    }

    /// Ends the upload: the file to write and its whole content.
    pub fn finish(self) -> (out: (String, Vec<u8>))
        ensures
            out.0@ == self@.0,
            out.1@ == self@.1,
    {
        (self.path, self.buf)
    }
}

} // verus!
