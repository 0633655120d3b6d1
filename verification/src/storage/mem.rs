//! Buckets that live in memory.

use vstd::prelude::*;
use vstd::string::StringExecFns;
use crate::storage::error::Error;

verus! {

/// A bucket in memory.
#[derive(Debug, PartialEq, Eq)]
pub struct MemBucket {
    name: String,
}

impl View for MemBucket {
    type V = Seq<char>;

    closed spec fn view(&self) -> Seq<char> {
        self.name@
    }
}

impl MemBucket {
    /// The bucket with the name `name`.
    pub fn new(name: &str) -> (bucket: MemBucket)
        ensures
            bucket@ == name@,
    {
        MemBucket { name: String::from_str(name) }
    }

    /// The name of the bucket.
    pub fn name(&self) -> (name: String)
        ensures
            name@ == self@,
    {
        self.name.clone()
    }
}

/// How a bucket is named in messages.
pub open spec fn bucket_text(name: Seq<char>) -> Seq<char> {
    "bucket '"@ + name + "'"@
}

/// How a bucket is named in messages.
fn describe(name: &str) -> (text: String)
    ensures
        text@ == bucket_text(name@),
{
    let mut text = String::from_str("bucket '");
    text.append(name);
    text.append("'");
    text
}

/// A storage whose buckets live in memory. The view is the list of the
/// names of its buckets, in the order of their creation.
pub struct MemStorage {
    buckets: Vec<MemBucket>,
}

impl View for MemStorage {
    type V = Seq<Seq<char>>;

    closed spec fn view(&self) -> Seq<Seq<char>> {
        self.buckets@.map_values(|b: MemBucket| b@)
    }
}

impl MemStorage {
    /// What every storage keeps: no two buckets have the same name.
    #[verifier::type_invariant]
    spec fn distinct(self) -> bool {
        self.buckets@.map_values(|b: MemBucket| b@).no_duplicates()
    }

    /// A storage without buckets.
    pub fn new() -> (storage: MemStorage)
        ensures
            storage@ == Seq::<Seq<char>>::empty(),
    {
        let buckets: Vec<MemBucket> = Vec::new();
        assert(buckets@.map_values(|b: MemBucket| b@) == Seq::<Seq<char>>::empty());
        MemStorage { buckets }
    }

    /// The position of the bucket `name`.
    fn position(&self, name: &str) -> (found: Option<usize>)
        ensures
            match found {
                Some(i) => i < self@.len() && self@[i as int] == name@,
                None => !self@.contains(name@),
            },
    {
        let wanted = String::from_str(name);
        let mut i: usize = 0;
        while i < self.buckets.len()
            invariant
                i <= self.buckets.len(),
                wanted@ == name@,
                forall|j: int| 0 <= j < i ==> self@[j] != name@,
            decreases self.buckets.len() - i,
        {
            assert(self@[i as int] == self.buckets@[i as int]@);
            if self.buckets[i].name == wanted {
                return Some(i);
            }
            i += 1;
        }
        None
    }

    /// The bucket `name`; a storage without such a bucket says that it was
    /// not found.
    pub fn bucket(&self, name: &str) -> (result: Result<MemBucket, Error>)
        ensures
            match result {
                Ok(bucket) => self@.contains(name@) && bucket@ == name@,
                Err(Error::NotFound(what)) => !self@.contains(name@) && what@ == bucket_text(name@),
                Err(_) => false,
            },
    {
        match self.position(name) {
            Some(i) => Ok(MemBucket::new(name)),
            None => Err(Error::NotFound(describe(name))),
        }
    }

    /// The names of the buckets, in the order of their creation.
    pub fn list_buckets(&self) -> (names: Vec<String>)
        ensures
            names@.map_values(|n: String| n@) == self@,
    {
        let mut names: Vec<String> = Vec::new();
        let mut i: usize = 0;
        let ghost text = |n: String| n@;
        assert(names@.map_values(text) == self@.take(0));
        while i < self.buckets.len()
            invariant
                i <= self.buckets.len(),
                text == |n: String| n@,
                names@.map_values(text) == self@.take(i as int),
            decreases self.buckets.len() - i,
        {
            let ghost before = names@;
            let name = self.buckets[i].name();
            names.push(name);
            assert(names@.map_values(text) == before.map_values(text).push(name@));
            assert(self@.take(i + 1) == self@.take(i as int).push(self@[i as int]));
            i += 1;
        }
        assert(self@.take(self@.len() as int) == self@);
        names
    }

    /// Creates the bucket `name`; a storage that has such a bucket says
    /// that it exists already, and stays as it is.
    pub fn create_bucket(&mut self, name: &str) -> (result: Result<MemBucket, Error>)
        ensures
            final(self)@.no_duplicates(),
            match result {
                Ok(bucket) => !old(self)@.contains(name@) && bucket@ == name@ && final(self)@ == old(
                    self,
                )@.push(name@),
                Err(Error::AlreadyExist(what)) => old(self)@.contains(name@) && what@ == bucket_text(name@)
                    && final(self)@ == old(self)@,
                Err(_) => false,
            },
    {
        proof {
            use_type_invariant(&*self);
        }
        match self.position(name) {
            Some(_) => Err(Error::AlreadyExist(describe(name))),
            None => {
                let bucket = MemBucket::new(name);
                let ghost text = |b: MemBucket| b@;
                let mut buckets: Vec<MemBucket> = Vec::new();
                assert(buckets@.map_values(text) == Seq::<Seq<char>>::empty());
                core::mem::swap(&mut self.buckets, &mut buckets);
                buckets.push(bucket);
                proof {
                    let after = buckets@.map_values(text);
                    assert(after == old(self)@.push(name@));
                    assert forall|i: int, j: int| 0 <= i < j < after.len() implies after[i] != after[j] by {
                        if j == old(self)@.len() {
                            assert(old(self)@[i] == after[i]);
                            assert(old(self)@.contains(after[i]));
                        } else {
                            assert(old(self)@[i] != old(self)@[j]);
                        }
                    }
                }
                self.buckets = buckets;
                Ok(MemBucket::new(name))
            },
        }
    }

    /// Deletes the bucket `name`; a storage without such a bucket says that
    /// it was not found.
    pub fn delete_bucket(&mut self, name: &str) -> (result: Result<(), Error>)
        ensures
            final(self)@.no_duplicates(),
            match result {
                Ok(()) => old(self)@.contains(name@) && !final(self)@.contains(name@) && final(self)@ == old(
                    self,
                )@.remove(old(self)@.index_of(name@)),
                Err(Error::NotFound(what)) => !old(self)@.contains(name@) && what@ == bucket_text(name@)
                    && final(self)@ == old(self)@,
                Err(_) => false,
            },
    {
        proof {
            use_type_invariant(&*self);
        }
        match self.position(name) {
            Some(i) => {
                let ghost before = self@;
                let ghost text = |b: MemBucket| b@;
                let mut buckets: Vec<MemBucket> = Vec::new();
                assert(buckets@.map_values(text) == Seq::<Seq<char>>::empty());
                core::mem::swap(&mut self.buckets, &mut buckets);
                buckets.remove(i);
                proof {
                    let after = buckets@.map_values(text);
                    assert(after == before.remove(i as int));
                    let k = before.index_of(name@);
                    assert(before[k] == name@ && 0 <= k < before.len());
                    assert(k == i);
                    assert forall|a: int, b: int| 0 <= a < b < after.len() implies after[a] != after[b] by {
                        let a0 = if a < i { a } else { a + 1 };
                        let b0 = if b < i { b } else { b + 1 };
                        assert(before[a0] != before[b0]);
                    }
                    if after.contains(name@) {
                        let a = after.index_of(name@);
                        let a0 = if a < i { a } else { a + 1 };
                        assert(before[a0] == before[i as int]);
                    }
                }
                self.buckets = buckets;
                Ok(())
            },
            None => Err(Error::NotFound(describe(name))),
        }
    }
}

} // verus!
