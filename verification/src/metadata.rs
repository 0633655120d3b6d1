//! Descriptors of groups, replicas and shards, and the membership change
//! requests that callers hand to a group.

use vstd::prelude::*;

verus! {

/// The role a replica plays in the membership of its group.
#[derive(Clone, Copy, Debug, PartialEq, Eq, Structural)]
pub enum ReplicaRole {
    Voter,
    Learner,
    IncomingVoter,
    DemotingVoter,
}

impl ReplicaRole {
    /// The role that a wire value stands for, if any.
    pub open spec fn spec_from_i32(value: i32) -> Option<ReplicaRole> {
        if value == 0 {
            Some(ReplicaRole::Voter)
        } else if value == 1 {
            Some(ReplicaRole::Learner)
        } else if value == 2 {
            Some(ReplicaRole::IncomingVoter)
        } else if value == 3 {
            Some(ReplicaRole::DemotingVoter)
        } else {
            None
        }
    }

    /// The wire value of a role.
    pub open spec fn spec_to_i32(self) -> i32 {
        match self {
            ReplicaRole::Voter => 0,
            ReplicaRole::Learner => 1,
            ReplicaRole::IncomingVoter => 2,
            ReplicaRole::DemotingVoter => 3,
        }
    }

    /// Decodes a wire value; unknown values give `None`.
    pub fn from_i32(value: i32) -> (role: Option<ReplicaRole>)
        ensures
            role == Self::spec_from_i32(value),
    {
        if value == 0 {
            Some(ReplicaRole::Voter)
        } else if value == 1 {
            Some(ReplicaRole::Learner)
        } else if value == 2 {
            Some(ReplicaRole::IncomingVoter)
        } else if value == 3 {
            Some(ReplicaRole::DemotingVoter)
        } else {
            None
        }
    }

    /// Encodes a role as its wire value.
    pub fn to_i32(self) -> (value: i32)
        ensures
            value == self.spec_to_i32(),
            Self::spec_from_i32(value) == Some(self),
    {
        match self {
            ReplicaRole::Voter => 0,
            ReplicaRole::Learner => 1,
            ReplicaRole::IncomingVoter => 2,
            ReplicaRole::DemotingVoter => 3,
        }
    }
}

/// The consensus role a replica currently holds, as reported to observers.
#[derive(Clone, Copy, Debug, PartialEq, Eq, Structural)]
pub enum RaftRole {
    Follower,
    Candidate,
    Leader,
    PreCandidate,
}

/// One member of a group: its id, the node that hosts it and its role
/// (a `ReplicaRole` wire value).
#[derive(Clone, Copy, Debug, PartialEq, Eq, Structural)]
pub struct ReplicaDesc {
    pub id: u64,
    pub node_id: u64,
    pub role: i32,
}

/// One shard of a collection.
#[derive(Clone, Copy, Debug, PartialEq, Eq, Structural)]
pub struct ShardDesc {
    pub id: u64,
    pub collection_id: u64,
}

/// Membership and shard list of a group at one epoch.
#[derive(Debug, PartialEq, Eq)]
pub struct GroupDesc {
    pub id: u64,
    pub epoch: u64,
    pub shards: Vec<ShardDesc>,
    pub replicas: Vec<ReplicaDesc>,
}

/// The mathematical content of a `GroupDesc`.
pub struct GroupDescView {
    pub id: u64,
    pub epoch: u64,
    pub shards: Seq<ShardDesc>,
    pub replicas: Seq<ReplicaDesc>,
}

impl View for GroupDesc {
    type V = GroupDescView;

    open spec fn view(&self) -> GroupDescView {
        GroupDescView {
            id: self.id,
            epoch: self.epoch,
            shards: self.shards@,
            replicas: self.replicas@,
        }
    }
}

impl GroupDescView {
    /// Whether the descriptor lists a shard with this id.
    pub open spec fn owns_shard(self, shard_id: u64) -> bool {
        exists|i: int| 0 <= i < self.shards.len() && (#[trigger] self.shards[i]).id == shard_id
    }
}

/// Copies a vector of plain values element by element.
pub fn copy_vec<T: Copy>(items: &Vec<T>) -> (copy: Vec<T>)
    ensures
        copy@ == items@,
{
    let mut copy: Vec<T> = Vec::new();
    let mut i: usize = 0;
    while i < items.len()
        invariant
            i <= items.len(),
            copy@ == items@.take(i as int),
        decreases items.len() - i,
    {
        copy.push(items[i]);
        assert(items@.take(i + 1) == items@.take(i as int).push(items@[i as int]));
        i += 1;
    }
    assert(items@.take(items.len() as int) == items@);
    copy
}

impl Clone for GroupDesc {
    fn clone(&self) -> (copy: GroupDesc)
        ensures
            copy@ == self@,
    {
        GroupDesc {
            id: self.id,
            epoch: self.epoch,
            shards: copy_vec(&self.shards),
            replicas: copy_vec(&self.replicas),
        }
    }
}

impl GroupDesc {
    /// Whether the group lists a shard with this id.
    pub fn owns_shard(&self, shard_id: u64) -> (owned: bool)
        ensures
            owned == self@.owns_shard(shard_id),
    {
        let mut i: usize = 0;
        while i < self.shards.len()
            invariant
                i <= self.shards.len(),
                forall|j: int| 0 <= j < i ==> self.shards@[j].id != shard_id,
            decreases self.shards.len() - i,
        {
            if self.shards[i].id == shard_id {
                assert(self@.shards[i as int].id == shard_id);
                return true;
            }
            i += 1;
        }
        false
    }
}

/// The kind of one membership change.
#[derive(Clone, Copy, Debug, PartialEq, Eq, Structural)]
pub enum ChangeReplicaType {
    Add,
    Remove,
    AddLearner,
}

impl ChangeReplicaType {
    /// The kind that a wire value stands for, if any.
    pub open spec fn spec_from_i32(value: i32) -> Option<ChangeReplicaType> {
        if value == 0 {
            Some(ChangeReplicaType::Add)
        } else if value == 1 {
            Some(ChangeReplicaType::Remove)
        } else if value == 2 {
            Some(ChangeReplicaType::AddLearner)
        } else {
            None
        }
    }

    /// The wire value of a kind.
    pub open spec fn spec_to_i32(self) -> i32 {
        match self {
            ChangeReplicaType::Add => 0,
            ChangeReplicaType::Remove => 1,
            ChangeReplicaType::AddLearner => 2,
        }
    }

    /// Decodes a wire value; unknown values give `None`.
    pub fn from_i32(value: i32) -> (kind: Option<ChangeReplicaType>)
        ensures
            kind == Self::spec_from_i32(value),
    {
        if value == 0 {
            Some(ChangeReplicaType::Add)
        } else if value == 1 {
            Some(ChangeReplicaType::Remove)
        } else if value == 2 {
            Some(ChangeReplicaType::AddLearner)
        } else {
            None
        }
    }

    /// Encodes a kind as its wire value.
    pub fn to_i32(self) -> (value: i32)
        ensures
            value == self.spec_to_i32(),
            Self::spec_from_i32(value) == Some(self),
    {
        match self {
            ChangeReplicaType::Add => 0,
            ChangeReplicaType::Remove => 1,
            ChangeReplicaType::AddLearner => 2,
        }
    }
}

/// One membership change: what to do (a `ChangeReplicaType` wire value)
/// with which replica on which node.
#[derive(Clone, Copy, Debug, PartialEq, Eq, Structural)]
pub struct ChangeReplica {
    pub change_type: i32,
    pub replica_id: u64,
    pub node_id: u64,
}

/// A membership change request: a list of changes that take effect together.
#[derive(Debug, PartialEq, Eq)]
pub struct ChangeReplicas {
    pub changes: Vec<ChangeReplica>,
}

impl View for ChangeReplicas {
    type V = Seq<ChangeReplica>;

    open spec fn view(&self) -> Seq<ChangeReplica> {
        self.changes@
    }
}

impl Clone for ChangeReplicas {
    fn clone(&self) -> (copy: ChangeReplicas)
        ensures
            copy@ == self@,
    {
        ChangeReplicas { changes: copy_vec(&self.changes) }
    }
}

} // verus!
