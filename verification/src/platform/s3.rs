//! The decisions of the S3 back end: what to ask the service for, and what
//! to do with its answers. Talking to the service is left to the caller.

use vstd::prelude::*;
use vstd::string::StringExecFns;
use crate::storage::error::Error;
use crate::text::{decimal, decimal_text};

verus! {

/// One page of a listing of a bucket: the keys of the objects on it, where
/// the service gave any, whether more pages follow, and the token that
/// asks for the next page.
#[derive(Debug)]
pub struct ListPage {
    pub contents: Option<Vec<Option<String>>>,
    pub is_truncated: bool,
    pub next_continuation_token: Option<String>,
}

/// What follows a page while a bucket is deleted.
#[derive(Debug, PartialEq, Eq)]
pub enum NextStep {
    /// List the next page, with this token.
    List { token: Option<String> },
    /// Every page was seen: delete the bucket itself.
    DeleteBucket,
}

/// What to do with one page while a bucket is deleted: delete the objects
/// with the keys `delete`, if there are any, then go on with `next`.
#[derive(Debug, PartialEq, Eq)]
pub struct PagePlan {
    pub delete: Vec<String>,
    pub next: NextStep,
}

/// The keys that are present among `keys`, in order.
pub open spec fn present(keys: Seq<Option<String>>) -> Seq<String> {
    keys.filter(|k: Option<String>| k is Some).map_values(|k: Option<String>| k.unwrap())
}

/// The keys to delete for a page: those of its objects that have one.
pub open spec fn keys_of(contents: Option<Vec<Option<String>>>) -> Seq<String> {
    match contents {
        Some(keys) => present(keys@),
        None => Seq::empty(),
    }
}

/// The token with which the listing of a bucket starts: none.
pub fn first_token() -> (token: Option<String>)
    ensures
        token is None,
{
    None
}

/// Decides what to do with one page of the listing of a bucket that is
/// being deleted: every object on the page that has a key is deleted; if
/// the listing was truncated the next page is listed with the token that
/// the service gave, else the bucket itself is deleted.
pub fn plan_page(page: ListPage) -> (plan: PagePlan)
    ensures
        plan.delete@ == keys_of(page.contents),
        plan.next == if page.is_truncated {
            NextStep::List { token: page.next_continuation_token }
        } else {
            NextStep::DeleteBucket
        },
{
    let mut delete: Vec<String> = Vec::new();
    match page.contents {
        Some(keys) => {
            let ghost all = keys@;
            proof {
                reveal(Seq::filter);
                assert(present(all.take(0)) == Seq::<String>::empty());
            }
            for key in it: keys
                invariant
                    it.seq() == all,
                    delete@ == present(all.take(it.index() as int)),
            {
                proof {
                    reveal(Seq::filter);
                    let before = all.take(it.index() as int);
                    assert(all.take(it.index() + 1) == before.push(key));
                    assert(before.push(key).drop_last() == before);
                    if key is Some {
                        let has = |k: Option<String>| k is Some;
                        assert(before.filter(has).push(key).map_values(|k: Option<String>| k.unwrap())
                            == before.filter(has).map_values(|k: Option<String>| k.unwrap()).push(key.unwrap()));
                    }
                }
                match key {
                    Some(key) => {
                        delete.push(key);
                    },
                    None => {},
                }
            }
            assert(all.take(all.len() as int) == all);
        },
        None => {},
    }
    let next = if page.is_truncated {
        NextStep::List { token: page.next_continuation_token }
    } else {
        NextStep::DeleteBucket
    };
    PagePlan { delete, next }
}

/// The value of the `Range` header that asks for `size` bytes from
/// `offset` on: the first and the last byte, both counted from 0.
pub open spec fn byte_range_text(offset: nat, size: nat) -> Seq<char>
    recommends
        size > 0,
{
    "bytes="@ + decimal_text(offset) + "-"@ + decimal_text((offset + size - 1) as nat)
}

/// The value of the `Range` header that asks for `size` bytes from
/// `offset` on. There is no range of no bytes, and none that ends beyond
/// what can be counted.
pub fn byte_range(offset: usize, size: usize) -> (range: String)
    requires
        size > 0,
        offset + size - 1 <= usize::MAX,
    ensures
        range@ == byte_range_text(offset as nat, size as nat),
{
    let last = offset + (size - 1);
    let mut range = String::from_str("bytes=");
    range.append(decimal(offset as u64).as_str());
    range.append("-");
    range.append(decimal(last as u64).as_str());
    range
}

/// The value of the `Range` header for a read into a buffer of `size`
/// bytes from `offset` on, if there is such a range.
pub fn checked_byte_range(offset: usize, size: usize) -> (range: Option<String>)
    ensures
        match range {
            Some(text) => size > 0 && offset + size - 1 <= usize::MAX && text@ == byte_range_text(
                offset as nat,
                size as nat,
            ),
            None => size == 0 || offset + size - 1 > usize::MAX,
        },
{
    if size == 0 || offset > usize::MAX - (size - 1) {
        None
    } else {
        Some(byte_range(offset, size))
    }
}

/// The failure to learn the size of the object `key`, with its cause.
pub fn size_failure(key: &str, cause: &str) -> (error: Error)
    ensures
        error matches Error::AwsSDK(text) && text@ == "get object size for '"@ + key@ + "' fail, "@ + cause@,
{
    let mut text = String::from_str("get object size for '");
    text.append(key);
    text.append("' fail, ");
    text.append(cause);
    Error::AwsSDK(text)
}

/// The failure to read an object, with its cause.
pub fn read_failure(cause: &str) -> (error: Error)
    ensures
        error matches Error::AwsSDK(text) && text@ == "read object fail, "@ + cause@,
{
    let mut text = String::from_str("read object fail, ");
    text.append(cause);
    Error::AwsSDK(text)
}

} // verus!
