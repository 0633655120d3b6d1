//! What a request to a group can fail with.

use vstd::prelude::*;
use crate::metadata::{GroupDesc, ReplicaDesc};

verus! {

/// The failures that reach a caller. Each carries what the caller needs to
/// retry without asking anyone else.
#[derive(Debug, PartialEq, Eq)]
pub enum Error {
    /// This replica does not lead the group; the hint names the leader, if
    /// one is known.
    NotLeader(u64, Option<ReplicaDesc>),
    /// No such group is served here.
    GroupNotFound(u64),
    /// The epoch that the caller gave is behind; the descriptor is the
    /// current one of the group that answered.
    EpochNotMatch(GroupDesc),
    /// The request makes no sense.
    InvalidArgument,
    /// Try again later.
    Unavailable,
    /// State or log are corrupt; nothing can be done from here.
    Fatal,
}

impl Error {
    /// Whether the worker must stop on this failure. Everything but
    /// corruption is left to the caller to retry.
    pub open spec fn spec_is_fatal(&self) -> bool {
        self is Fatal
    }

    /// Whether the worker must stop on this failure.
    pub fn is_fatal(&self) -> (fatal: bool)
        ensures
            fatal == self.spec_is_fatal(),
    {
        match self {
            Error::Fatal => true,
            _ => false,
        }
    }

    /// What the failure says, in words.
    pub fn message(&self) -> (text: &'static str)
        ensures
            text@ == match *self {
                Error::NotLeader(_, _) => "not leader"@,
                Error::GroupNotFound(_) => "group not found"@,
                Error::EpochNotMatch(_) => "epoch not match"@,
                Error::InvalidArgument => "invalid argument"@,
                Error::Unavailable => "unavailable"@,
                Error::Fatal => "fatal"@,
            },
    {
        match self {
            Error::NotLeader(_, _) => "not leader",
            Error::GroupNotFound(_) => "group not found",
            Error::EpochNotMatch(_) => "epoch not match",
            Error::InvalidArgument => "invalid argument",
            Error::Unavailable => "unavailable",
            Error::Fatal => "fatal",
        }
    }
}

} // verus!
