//! Consensus messages as the worker sees them, and their grouping into one
//! batch per destination.

use std::collections::HashMap;
use vstd::prelude::*;
use crate::metadata::ReplicaDesc;
use crate::raftgroup::cache::ReplicaCache;

verus! {

broadcast use vstd::std_specs::hash::group_hash_axioms;

/// The kind of a consensus message.
#[derive(Clone, Copy, Debug, PartialEq, Eq, Structural)]
pub enum MessageType {
    MsgHup,
    MsgBeat,
    MsgPropose,
    MsgAppend,
    MsgAppendResponse,
    MsgRequestVote,
    MsgRequestVoteResponse,
    MsgSnapshot,
    MsgHeartbeat,
    MsgHeartbeatResponse,
    MsgUnreachable,
    MsgSnapStatus,
    MsgCheckQuorum,
    MsgTransferLeader,
    MsgTimeoutNow,
    MsgReadIndex,
    MsgReadIndexResp,
    MsgRequestPreVote,
    MsgRequestPreVoteResponse,
}

/// One consensus message: the header fields that routing and dispatch read,
/// and the rest of the message as `body`. A message that the worker makes
/// itself has no body.
#[derive(Debug, PartialEq, Eq)]
pub struct Message<B> {
    pub msg_type: MessageType,
    pub to: u64,
    pub from: u64,
    pub reject: bool,
    pub body: Option<B>,
}

/// A batch of consensus messages of one group, from one replica to another.
#[derive(Debug, PartialEq, Eq)]
pub struct RaftMessage<B> {
    pub group_id: u64,
    pub from_replica: Option<ReplicaDesc>,
    pub to_replica: Option<ReplicaDesc>,
    pub messages: Vec<Message<B>>,
}

/// The destinations that get a batch: the distinct targets of the messages
/// whose target the cache knows, in the order in which they first occur.
pub open spec fn known_targets<B>(msgs: Seq<Message<B>>, cache: Map<u64, ReplicaDesc>) -> Seq<u64>
    decreases msgs.len(),
{
    if msgs.len() == 0 {
        Seq::empty()
    } else {
        let before = known_targets(msgs.drop_last(), cache);
        let target = msgs.last().to;
        if cache.contains_key(target) && !before.contains(target) {
            before.push(target)
        } else {
            before
        }
    }
}

/// The messages addressed to `target`, in the order in which they were given.
pub open spec fn addressed_to<B>(msgs: Seq<Message<B>>, target: u64) -> Seq<Message<B>> {
    msgs.filter(|m: Message<B>| m.to == target)
}

/// Whether `batch` is the batch of group `group_id` from `from` to `to`
/// that carries exactly `messages`.
pub open spec fn is_batch<B>(
    batch: RaftMessage<B>,
    group_id: u64,
    from: ReplicaDesc,
    to: ReplicaDesc,
    messages: Seq<Message<B>>,
) -> bool {
    &&& batch.group_id == group_id
    &&& batch.from_replica == Some(from)
    &&& batch.to_replica == Some(to)
    &&& batch.messages@ == messages
}

/// Whether `batches` are the outbound batches for `msgs`: one batch per
/// known target, in order of first occurrence, each carrying all messages
/// for its target in the order in which they were given.
pub open spec fn is_separated<B>(
    batches: Seq<RaftMessage<B>>,
    msgs: Seq<Message<B>>,
    cache: Map<u64, ReplicaDesc>,
    group_id: u64,
    from: ReplicaDesc,
) -> bool {
    let targets = known_targets(msgs, cache);
    &&& batches.len() == targets.len()
    &&& forall|i: int|
        0 <= i < batches.len() ==> is_batch(
            #[trigger] batches[i],
            group_id,
            from,
            cache[targets[i]],
            addressed_to(msgs, targets[i]),
        )
}

/// A target gets a batch exactly if the cache knows it and a message is
/// addressed to it.
pub proof fn lemma_known_target<B>(msgs: Seq<Message<B>>, cache: Map<u64, ReplicaDesc>, target: u64)
    ensures
        known_targets(msgs, cache).contains(target) <==> cache.contains_key(target) && exists|i: int|
            0 <= i < msgs.len() && (#[trigger] msgs[i]).to == target,
    decreases msgs.len(),
{
    if msgs.len() > 0 {
        let front = msgs.drop_last();
        let before = known_targets(front, cache);
        let all = known_targets(msgs, cache);
        lemma_known_target(front, cache, target);
        if all.contains(target) {
            if before.contains(target) {
                let i = choose|i: int| 0 <= i < front.len() && (#[trigger] front[i]).to == target;
                assert(msgs[i].to == target);
            } else {
                let k = choose|k: int| 0 <= k < all.len() && all[k] == target;
                assert(k == before.len());
                assert(msgs[msgs.len() - 1].to == target);
            }
        }
        if cache.contains_key(target) && exists|i: int|
            0 <= i < msgs.len() && (#[trigger] msgs[i]).to == target {
            let i = choose|i: int| 0 <= i < msgs.len() && (#[trigger] msgs[i]).to == target;
            if i < front.len() {
                assert(front[i].to == target);
            }
            if before.contains(target) {
                let k = choose|k: int| 0 <= k < before.len() && before[k] == target;
                assert(all[k] == target);
            } else {
                assert(all[before.len() as int] == target);
            }
        }
    }
}

/// No target gets two batches.
pub proof fn lemma_known_targets_distinct<B>(msgs: Seq<Message<B>>, cache: Map<u64, ReplicaDesc>)
    ensures
        known_targets(msgs, cache).no_duplicates(),
    decreases msgs.len(),
{
    if msgs.len() > 0 {
        lemma_known_targets_distinct(msgs.drop_last(), cache);
    }
}

/// Appending a message appends it to the messages for its target and
/// leaves the messages for every other target as they were.
pub proof fn lemma_addressed_to_push<B>(msgs: Seq<Message<B>>, msg: Message<B>, target: u64)
    ensures
        addressed_to(msgs.push(msg), target) == if msg.to == target {
            addressed_to(msgs, target).push(msg)
        } else {
            addressed_to(msgs, target)
        },
{
    reveal(Seq::filter);
    assert(msgs.push(msg).drop_last() == msgs);
}

/// A target without a batch has no messages, if the cache knows it.
pub proof fn lemma_unknown_target_has_no_messages<B>(
    msgs: Seq<Message<B>>,
    cache: Map<u64, ReplicaDesc>,
    target: u64,
)
    requires
        cache.contains_key(target),
        !known_targets(msgs, cache).contains(target),
    ensures
        addressed_to(msgs, target) == Seq::<Message<B>>::empty(),
    decreases msgs.len(),
{
    reveal(Seq::filter);
    if msgs.len() > 0 {
        let before = known_targets(msgs.drop_last(), cache);
        let all = known_targets(msgs, cache);
        if before.contains(target) {
            let k = choose|k: int| 0 <= k < before.len() && before[k] == target;
            assert(all[k] == target);
        }
        if msgs.last().to == target {
            assert(all[before.len() as int] == target);
        }
        lemma_unknown_target_has_no_messages(msgs.drop_last(), cache, target);
    }
}

/// Groups outbound messages into one batch per destination. Messages to a
/// target that the cache does not know are dropped. The batches come in the
/// order in which their targets first occur, and within a batch the
/// messages keep their order.
pub fn send_messages<B>(
    group_id: u64,
    desc: ReplicaDesc,
    cache: &ReplicaCache,
    msgs: Vec<Message<B>>,
) -> (batches: Vec<RaftMessage<B>>)
    ensures
        is_separated(batches@, msgs@, cache@, group_id, desc),
{
    let mut separated: HashMap<u64, Vec<Message<B>>> = HashMap::new();
    let mut targets: Vec<u64> = Vec::new();
    let ghost all = msgs@;
    assert(all.take(0) == Seq::<Message<B>>::empty());
    for msg in it: msgs
        invariant
            it.seq() == all,
            targets@ == known_targets(all.take(it.index() as int), cache@),
            forall|t: u64| #[trigger] separated@.contains_key(t) <==> targets@.contains(t),
            forall|t: u64|
                separated@.contains_key(t) ==> (#[trigger] separated@[t])@ == addressed_to(
                    all.take(it.index() as int),
                    t,
                ),
    {
        let ghost seen = all.take(it.index() as int);
        let ghost before = separated@;
        let to = msg.to;
        proof {
            assert(all.take(it.index() + 1) == seen.push(msg));
            assert(all.take(it.index() + 1).drop_last() == seen);
            assert forall|t: u64| true implies #[trigger] addressed_to(seen.push(msg), t) == if msg.to == t {
                addressed_to(seen, t).push(msg)
            } else {
                addressed_to(seen, t)
            } by {
                lemma_addressed_to_push(seen, msg, t);
            }
            assert forall|t: u64| targets@.contains(t) implies cache@.contains_key(t) by {
                lemma_known_target(seen, cache@, t);
            }
        }
        if cache.get(to).is_some() {
            match separated.remove(&to) {
                Some(list) => {
                    let mut list = list;
                    list.push(msg);
                    separated.insert(to, list);
                    assert(separated@ == before.insert(to, list));
                },
                None => {
                    proof {
                        lemma_unknown_target_has_no_messages(seen, cache@, to);
                    }
                    let ghost listed = targets@;
                    targets.push(to);
                    let mut list: Vec<Message<B>> = Vec::new();
                    list.push(msg);
                    separated.insert(to, list);
                    assert(separated@ == before.insert(to, list));
                    assert forall|t: u64| #[trigger] separated@.contains_key(t) <==> targets@.contains(t) by {
                        if t == to {
                            assert(targets@[listed.len() as int] == to);
                        } else {
                            if listed.contains(t) {
                                let k = choose|k: int| 0 <= k < listed.len() && listed[k] == t;
                                assert(targets@[k] == t);
                            }
                            if targets@.contains(t) {
                                let k = choose|k: int| 0 <= k < targets@.len() && targets@[k] == t;
                                assert(listed[k] == t);
                            }
                        }
                    }
                },
            }
        }
    }
    assert(all.take(all.len() as int) == all);
    let mut batches: Vec<RaftMessage<B>> = Vec::new();
    let mut i: usize = 0;
    proof {
        lemma_known_targets_distinct(all, cache@);
        assert forall|j: int| 0 <= j < targets@.len() implies cache@.contains_key(#[trigger] targets@[j]) by {
            lemma_known_target(all, cache@, targets@[j]);
        }
    }
    while i < targets.len()
        invariant
            i <= targets.len(),
            targets@ == known_targets(all, cache@),
            targets@.no_duplicates(),
            forall|j: int| 0 <= j < targets@.len() ==> cache@.contains_key(#[trigger] targets@[j]),
            forall|j: int|
                i <= j < targets@.len() ==> separated@.contains_key(#[trigger] targets@[j]) && separated@[targets@[j]]@
                    == addressed_to(all, targets@[j]),
            batches@.len() == i,
            forall|k: int|
                0 <= k < i ==> is_batch(
                    #[trigger] batches@[k],
                    group_id,
                    desc,
                    cache@[targets@[k]],
                    addressed_to(all, targets@[k]),
                ),
        decreases targets.len() - i,
    {
        let target = targets[i];
        let ghost before = separated@;
        let messages = separated.remove(&target).unwrap();
        let to_replica = cache.get(target).unwrap();
        assert(separated@ == before.remove(target));
        assert forall|j: int| i + 1 <= j < targets@.len() implies separated@.contains_key(#[trigger] targets@[j])
            && separated@[targets@[j]]@ == addressed_to(all, targets@[j]) by {
            assert(targets@[j] != targets@[i as int]);
        }
        batches.push(RaftMessage { group_id, from_replica: Some(desc), to_replica: Some(to_replica), messages });
        i += 1;
    }
    batches
}

} // verus!
