//! Conversion between membership change requests, group descriptors and
//! the configuration values of the consensus algorithm.

use vstd::prelude::*;
use crate::metadata::{ChangeReplica, ChangeReplicaType, ChangeReplicas, GroupDesc, ReplicaDesc, ReplicaRole};
use crate::raftgroup::codec::{
    changes_bytes, decode_change_replicas, encode_change_replicas, lemma_codec_round_trip,
    parse_change_replicas,
};

verus! {

/// What one step of a configuration change does to a node.
#[derive(Clone, Copy, Debug, PartialEq, Eq, Structural)]
pub enum ConfChangeType {
    AddNode,
    RemoveNode,
    AddLearnerNode,
}

/// How a joint configuration is left again.
#[derive(Clone, Copy, Debug, PartialEq, Eq, Structural)]
pub enum ConfChangeTransition {
    Auto,
    Implicit,
    Explicit,
}

/// One step of a configuration change.
#[derive(Clone, Copy, Debug, PartialEq, Eq, Structural)]
pub struct ConfChangeSingle {
    pub change_type: ConfChangeType,
    pub node_id: u64,
}

/// A configuration change as the consensus algorithm takes it. The request
/// it was made from travels with it as `context`, in its wire form, so
/// that whoever applies the committed change can read the request back.
#[derive(Debug, PartialEq, Eq)]
pub struct ConfChangeV2 {
    pub transition: ConfChangeTransition,
    pub changes: Vec<ConfChangeSingle>,
    pub context: Vec<u8>,
}

/// The membership of a group as the consensus algorithm sees it.
#[derive(Debug, PartialEq, Eq)]
pub struct ConfState {
    pub voters: Vec<u64>,
    pub learners: Vec<u64>,
    pub voters_outgoing: Vec<u64>,
    pub learners_next: Vec<u64>,
    pub auto_leave: bool,
}

/// The configuration step that a kind of membership change becomes.
pub open spec fn conf_change_type(kind: ChangeReplicaType) -> ConfChangeType {
    match kind {
        ChangeReplicaType::Add => ConfChangeType::AddNode,
        ChangeReplicaType::Remove => ConfChangeType::RemoveNode,
        ChangeReplicaType::AddLearner => ConfChangeType::AddLearnerNode,
    }
}

/// Whether a membership change names a kind that the consensus algorithm knows.
pub open spec fn is_supported(change: ChangeReplica) -> bool {
    ChangeReplicaType::spec_from_i32(change.change_type) is Some
}

/// The configuration step that one membership change becomes.
pub open spec fn conf_change_single(change: ChangeReplica) -> ConfChangeSingle
    recommends
        is_supported(change),
{
    ConfChangeSingle {
        change_type: conf_change_type(
            ChangeReplicaType::spec_from_i32(change.change_type).unwrap(),
        ),
        node_id: change.replica_id,
    }
}

/// Whether `conf_change` is the configuration change for the request
/// `change`: one step per change, in order, addressed to the replica; the
/// joint configuration is left automatically; the context is the request
/// in its wire form.
pub open spec fn is_conf_change_of(conf_change: ConfChangeV2, change: Seq<ChangeReplica>) -> bool {
    &&& conf_change.transition == ConfChangeTransition::Auto
    &&& conf_change.context@ == changes_bytes(change)
    &&& conf_change.changes@ == change.map_values(|c: ChangeReplica| conf_change_single(c))
}

/// Whether every change of a request names a kind that the consensus
/// algorithm knows.
pub open spec fn supported(change: Seq<ChangeReplica>) -> bool {
    forall|i: int| 0 <= i < change.len() ==> is_supported(#[trigger] change[i])
}

/// Whether every change of a request names a kind that the consensus
/// algorithm knows.
pub fn all_supported(change: &ChangeReplicas) -> (ok: bool)
    ensures
        ok == supported(change@),
{
    let mut i: usize = 0;
    while i < change.changes.len()
        invariant
            i <= change.changes.len(),
            forall|j: int| 0 <= j < i ==> is_supported(#[trigger] change@[j]),
        decreases change.changes.len() - i,
    {
        if ChangeReplicaType::from_i32(change.changes[i].change_type).is_none() {
            assert(!is_supported(change@[i as int]));
            return false;
        }
        i += 1;
    }
    true
}

/// Turns a membership change request into a configuration change: one step
/// per change, in order, addressed to the replica; the joint configuration
/// is left automatically; the request itself travels as the context.
pub fn encode_to_conf_change(change_replicas: ChangeReplicas) -> (conf_change: ConfChangeV2)
    requires
        supported(change_replicas@),
    ensures
        is_conf_change_of(conf_change, change_replicas@),
{
    let mut conf_changes: Vec<ConfChangeSingle> = Vec::new();
    let mut i: usize = 0;
    while i < change_replicas.changes.len()
        invariant
            i <= change_replicas.changes.len(),
            supported(change_replicas@),
            conf_changes@ == change_replicas@.take(i as int).map_values(
                |c: ChangeReplica| conf_change_single(c),
            ),
        decreases change_replicas.changes.len() - i,
    {
        let c = change_replicas.changes[i];
        assert(is_supported(change_replicas@[i as int]));
        let change_type = match ChangeReplicaType::from_i32(c.change_type).unwrap() {
            ChangeReplicaType::Add => ConfChangeType::AddNode,
            ChangeReplicaType::Remove => ConfChangeType::RemoveNode,
            ChangeReplicaType::AddLearner => ConfChangeType::AddLearnerNode,
        };
        conf_changes.push(ConfChangeSingle { change_type, node_id: c.replica_id });
        assert(change_replicas@.take(i + 1) == change_replicas@.take(i as int).push(c));
        assert(change_replicas@.take(i + 1).map_values(|c: ChangeReplica| conf_change_single(c))
            == change_replicas@.take(i as int).map_values(
            |c: ChangeReplica| conf_change_single(c),
        ).push(conf_change_single(c)));
        i += 1;
    }
    assert(change_replicas@.take(change_replicas@.len() as int) == change_replicas@);
    ConfChangeV2 {
        transition: ConfChangeTransition::Auto,
        context: encode_change_replicas(&change_replicas),
        changes: conf_changes,
    }
}

/// Turns a membership change request into a configuration change, unless
/// it names a kind of change that the consensus algorithm does not know.
pub fn try_encode_to_conf_change(change_replicas: ChangeReplicas) -> (conf_change: Option<ConfChangeV2>)
    ensures
        match conf_change {
            Some(cc) => supported(change_replicas@) && is_conf_change_of(cc, change_replicas@),
            None => !supported(change_replicas@),
        },
{
    if all_supported(&change_replicas) {
        Some(encode_to_conf_change(change_replicas))
    } else {
        None
    }
}

/// Reads the membership change request back from the context of a
/// configuration change, if the context holds one.
pub fn try_decode_from_conf_change(conf_change: &ConfChangeV2) -> (change_replicas: Option<ChangeReplicas>)
    ensures
        match parse_change_replicas(conf_change.context@) {
            Some(changes) => change_replicas matches Some(request) && request@ == changes,
            None => change_replicas is None,
        },
{
    decode_change_replicas(&conf_change.context)
}

/// Reads the membership change request back from the context of a
/// configuration change that holds one.
pub fn decode_from_conf_change(conf_change: &ConfChangeV2) -> (change_replicas: ChangeReplicas)
    requires
        parse_change_replicas(conf_change.context@) is Some,
    ensures
        Some(change_replicas@) == parse_change_replicas(conf_change.context@),
{
    decode_change_replicas(&conf_change.context).unwrap()
}

/// The decode path is lossless: the request that is read back from a
/// configuration change is the request that the change was made from.
pub proof fn lemma_conf_change_round_trip(conf_change: ConfChangeV2, change: Seq<ChangeReplica>)
    requires
        is_conf_change_of(conf_change, change),
    ensures
        parse_change_replicas(conf_change.context@) == Some(change),
{
    lemma_codec_round_trip(change);
}

/// Whether a replica votes in the incoming configuration: a voter, an
/// incoming voter, or a replica whose role value is unknown.
pub open spec fn votes(replica: ReplicaDesc) -> bool {
    match ReplicaRole::spec_from_i32(replica.role) {
        Some(ReplicaRole::Learner) => false,
        Some(ReplicaRole::DemotingVoter) => false,
        _ => true,
    }
}

/// Whether a replica is a learner.
pub open spec fn learns(replica: ReplicaDesc) -> bool {
    ReplicaRole::spec_from_i32(replica.role) == Some(ReplicaRole::Learner)
}

/// Whether a replica is a voter on its way to becoming a learner.
pub open spec fn demotes(replica: ReplicaDesc) -> bool {
    ReplicaRole::spec_from_i32(replica.role) == Some(ReplicaRole::DemotingVoter)
}

/// The ids of the replicas that satisfy `pred`, in descriptor order.
pub open spec fn ids_where(replicas: Seq<ReplicaDesc>, pred: spec_fn(ReplicaDesc) -> bool) -> Seq<u64> {
    replicas.filter(pred).map_values(|r: ReplicaDesc| r.id)
}

/// Appending a replica appends its id when it satisfies the predicate and
/// changes nothing otherwise.
pub proof fn lemma_ids_where_push(
    replicas: Seq<ReplicaDesc>,
    replica: ReplicaDesc,
    pred: spec_fn(ReplicaDesc) -> bool,
)
    ensures
        ids_where(replicas.push(replica), pred) == if pred(replica) {
            ids_where(replicas, pred).push(replica.id)
        } else {
            ids_where(replicas, pred)
        },
{
    reveal(Seq::filter);
    assert(replicas.push(replica).drop_last() == replicas);
    if pred(replica) {
        assert(replicas.push(replica).filter(pred) == replicas.filter(pred).push(replica));
        assert(replicas.filter(pred).push(replica).map_values(|r: ReplicaDesc| r.id)
            == replicas.filter(pred).map_values(|r: ReplicaDesc| r.id).push(replica.id));
    }
}

/// Derives the consensus membership from a group descriptor. Voters are the
/// replicas that vote in the incoming configuration; learners are the
/// learners; a demoting voter still votes in the outgoing configuration and
/// becomes a learner when the joint configuration is left.
pub fn conf_state_from_group_descriptor(desc: &GroupDesc) -> (cs: ConfState)
    ensures
        cs.voters@ == ids_where(desc@.replicas, |r: ReplicaDesc| votes(r)),
        cs.learners@ == ids_where(desc@.replicas, |r: ReplicaDesc| learns(r)),
        cs.voters_outgoing@ == ids_where(desc@.replicas, |r: ReplicaDesc| demotes(r)),
        cs.learners_next@ == ids_where(desc@.replicas, |r: ReplicaDesc| demotes(r)),
        !cs.auto_leave,
{
    let mut cs = ConfState {
        voters: Vec::new(),
        learners: Vec::new(),
        voters_outgoing: Vec::new(),
        learners_next: Vec::new(),
        auto_leave: false,
    };
    let mut in_joint = false;
    let ghost is_voter = |r: ReplicaDesc| votes(r);
    let ghost is_learner = |r: ReplicaDesc| learns(r);
    let ghost is_demoting = |r: ReplicaDesc| demotes(r);
    let mut i: usize = 0;
    assert(desc@.replicas.take(0) == Seq::<ReplicaDesc>::empty());
    proof {
        reveal(Seq::filter);
    }
    while i < desc.replicas.len()
        invariant
            i <= desc.replicas.len(),
            !cs.auto_leave,
            is_voter == |r: ReplicaDesc| votes(r),
            is_learner == |r: ReplicaDesc| learns(r),
            is_demoting == |r: ReplicaDesc| demotes(r),
            cs.voters@ == ids_where(desc@.replicas.take(i as int), is_voter),
            cs.learners@ == ids_where(desc@.replicas.take(i as int), is_learner),
            cs.voters_outgoing@ == ids_where(desc@.replicas.take(i as int), is_demoting),
            cs.learners_next@ == ids_where(desc@.replicas.take(i as int), is_demoting),
            !in_joint ==> cs.voters_outgoing@.len() == 0,
        decreases desc.replicas.len() - i,
    {
        let replica = desc.replicas[i];
        proof {
            let before = desc@.replicas.take(i as int);
            assert(desc@.replicas.take(i + 1) == before.push(replica));
            lemma_ids_where_push(before, replica, is_voter);
            lemma_ids_where_push(before, replica, is_learner);
            lemma_ids_where_push(before, replica, is_demoting);
        }
        let role = match ReplicaRole::from_i32(replica.role) {
            Some(role) => role,
            None => ReplicaRole::Voter,
        };
        match role {
            ReplicaRole::Voter => {
                cs.voters.push(replica.id);
            },
            ReplicaRole::Learner => {
                cs.learners.push(replica.id);
            },
            ReplicaRole::IncomingVoter => {
                in_joint = true;
                cs.voters.push(replica.id);
            },
            ReplicaRole::DemotingVoter => {
                in_joint = true;
                cs.voters_outgoing.push(replica.id);
                cs.learners_next.push(replica.id);
            },
        }
        i += 1;
    }
    assert(desc@.replicas.take(desc@.replicas.len() as int) == desc@.replicas);
    if !in_joint {
        cs.voters_outgoing.clear();
    }
    cs
}


/// The members that are left when the replica `replica_id` is taken away.
pub open spec fn without_replica(replicas: Seq<ReplicaDesc>, replica_id: u64) -> Seq<ReplicaDesc> {
    replicas.filter(|r: ReplicaDesc| r.id != replica_id)
}

/// The members after one committed change: an added replica joins as a
/// voter and an added learner as a learner, each in place of any member
/// with the same id; a removed replica leaves; a change of an unknown kind
/// changes nothing.
pub open spec fn members_after(replicas: Seq<ReplicaDesc>, change: ChangeReplica) -> Seq<ReplicaDesc> {
    match ChangeReplicaType::spec_from_i32(change.change_type) {
        Some(ChangeReplicaType::Add) => without_replica(replicas, change.replica_id).push(
            ReplicaDesc {
                id: change.replica_id,
                node_id: change.node_id,
                role: ReplicaRole::Voter.spec_to_i32(),
            },
        ),
        Some(ChangeReplicaType::AddLearner) => without_replica(replicas, change.replica_id).push(
            ReplicaDesc {
                id: change.replica_id,
                node_id: change.node_id,
                role: ReplicaRole::Learner.spec_to_i32(),
            },
        ),
        Some(ChangeReplicaType::Remove) => without_replica(replicas, change.replica_id),
        None => replicas,
    }
}

/// The members after a list of committed changes, applied in order.
pub open spec fn members_after_all(replicas: Seq<ReplicaDesc>, changes: Seq<ChangeReplica>) -> Seq<ReplicaDesc>
    decreases changes.len(),
{
    if changes.len() == 0 {
        replicas
    } else {
        members_after(members_after_all(replicas, changes.drop_last()), changes.last())
    }
}

/// Takes the replica `replica_id` away from a list of members.
pub fn remove_replica(replicas: &Vec<ReplicaDesc>, replica_id: u64) -> (left: Vec<ReplicaDesc>)
    ensures
        left@ == without_replica(replicas@, replica_id),
{
    let ghost stays = |r: ReplicaDesc| r.id != replica_id;
    let mut left: Vec<ReplicaDesc> = Vec::new();
    let mut i: usize = 0;
    proof {
        reveal(Seq::filter);
        assert(replicas@.take(0).filter(stays) == Seq::<ReplicaDesc>::empty());
    }
    while i < replicas.len()
        invariant
            i <= replicas.len(),
            stays == |r: ReplicaDesc| r.id != replica_id,
            left@ == replicas@.take(i as int).filter(stays),
        decreases replicas.len() - i,
    {
        proof {
            reveal(Seq::filter);
            assert(replicas@.take(i + 1).drop_last() == replicas@.take(i as int));
        }
        if replicas[i].id != replica_id {
            left.push(replicas[i]);
        }
        i += 1;
    }
    assert(replicas@.take(replicas.len() as int) == replicas@);
    left
}

/// Applies a committed membership change to a list of members.
pub fn apply_change_replicas(replicas: &Vec<ReplicaDesc>, change_replicas: &ChangeReplicas) -> (members: Vec<
    ReplicaDesc,
>)
    ensures
        members@ == members_after_all(replicas@, change_replicas@),
{
    let mut members = crate::metadata::copy_vec(replicas);
    let mut i: usize = 0;
    assert(change_replicas@.take(0) == Seq::<ChangeReplica>::empty());
    while i < change_replicas.changes.len()
        invariant
            i <= change_replicas.changes.len(),
            members@ == members_after_all(replicas@, change_replicas@.take(i as int)),
        decreases change_replicas.changes.len() - i,
    {
        let c = change_replicas.changes[i];
        assert(change_replicas@.take(i + 1).drop_last() == change_replicas@.take(i as int));
        match ChangeReplicaType::from_i32(c.change_type) {
            Some(ChangeReplicaType::Add) => {
                members = remove_replica(&members, c.replica_id);
                members.push(ReplicaDesc { id: c.replica_id, node_id: c.node_id, role: ReplicaRole::Voter.to_i32() });
            },
            Some(ChangeReplicaType::AddLearner) => {
                members = remove_replica(&members, c.replica_id);
                members.push(
                    ReplicaDesc { id: c.replica_id, node_id: c.node_id, role: ReplicaRole::Learner.to_i32() },
                );
            },
            Some(ChangeReplicaType::Remove) => {
                members = remove_replica(&members, c.replica_id);
            },
            None => {},
        }
        i += 1;
    }
    assert(change_replicas@.take(change_replicas@.len() as int) == change_replicas@);
    members
}

} // verus!
