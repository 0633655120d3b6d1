//! The window of the replicated log that a replica still holds, and the
//! choice of how far the log may be compacted.

use vstd::prelude::*;

verus! {

/// How far one member of the group is known to have replicated the log.
#[derive(Clone, Copy, Debug, PartialEq, Eq, Structural)]
pub struct Progress {
    pub replica_id: u64,
    pub matched: u64,
    pub voter: bool,
}

/// What the worker reads from the node and the state machine before it
/// compacts the log.
#[derive(Debug, PartialEq, Eq)]
pub struct LogStatus {
    /// The highest index whose effects are durable in the state machine.
    pub flushed_index: u64,
    /// Whether this replica leads the group.
    pub is_leader: bool,
    /// The replication progress of the members, as the leader tracks it.
    pub progress: Vec<Progress>,
    /// The first index that the log still holds.
    pub first_index: u64,
}

/// What the worker does to the log and the snapshots on a tick: compact
/// the log to `to` if `truncate` says so, and in any case recycle the
/// snapshots that `to` makes obsolete.
#[derive(Clone, Copy, Debug, PartialEq, Eq, Structural)]
pub struct Compaction {
    pub to: u64,
    pub truncate: bool,
}

/// Whether `bound` is at most the matched index of every voting member.
pub open spec fn below_all_voters(bound: u64, progress: Seq<Progress>) -> bool {
    forall|i: int| 0 <= i < progress.len() && (#[trigger] progress[i]).voter ==> bound <= progress[i].matched
}

/// Whether `index` is the index up to which the log may be compacted: the
/// flushed index, or, on the leader, the smallest of the flushed index and
/// the matched indexes of the voting members.
pub open spec fn is_compaction_index(index: u64, flushed_index: u64, is_leader: bool, progress: Seq<Progress>) -> bool {
    if is_leader {
        &&& index <= flushed_index
        &&& below_all_voters(index, progress)
        &&& (index == flushed_index || exists|i: int|
            0 <= i < progress.len() && (#[trigger] progress[i]).voter && progress[i].matched == index)
    } else {
        index == flushed_index
    }
}

/// There is only one compaction index.
pub proof fn lemma_compaction_index_unique(
    a: u64,
    b: u64,
    flushed_index: u64,
    is_leader: bool,
    progress: Seq<Progress>,
)
    requires
        is_compaction_index(a, flushed_index, is_leader, progress),
        is_compaction_index(b, flushed_index, is_leader, progress),
    ensures
        a == b,
{
}

/// Chooses how far to compact the log. Entries that a voting member has not
/// matched yet, or whose effects the state machine has not flushed, stay.
/// The log is truncated only if that removes something.
pub fn compact_log(status: &LogStatus) -> (plan: Compaction)
    ensures
        is_compaction_index(plan.to, status.flushed_index, status.is_leader, status.progress@),
        plan.truncate == (status.first_index < plan.to),
{
    let mut to = status.flushed_index;
    if status.is_leader {
        let mut i: usize = 0;
        while i < status.progress.len()
            invariant
                i <= status.progress.len(),
                to <= status.flushed_index,
                below_all_voters(to, status.progress@.take(i as int)),
                to == status.flushed_index || exists|j: int|
                    0 <= j < i && (#[trigger] status.progress@[j]).voter && status.progress@[j].matched == to,
            decreases status.progress.len() - i,
        {
            let p = status.progress[i];
            if p.voter && p.matched < to {
                to = p.matched;
            }
            assert forall|j: int| 0 <= j < i + 1 && (#[trigger] status.progress@.take(i + 1)[j]).voter implies to
                <= status.progress@.take(i + 1)[j].matched by {
                if j < i {
                    assert(status.progress@.take(i as int)[j].voter);
                }
            }
            i += 1;
        }
        assert(status.progress@.take(status.progress.len() as int) == status.progress@);
    }
    Compaction { to, truncate: status.first_index < to }
}

/// The indexes of the log entries that a replica still holds: every index
/// from `first_index` to `last_index`. An empty log has
/// `first_index == last_index + 1`.
#[derive(Clone, Copy, Debug, PartialEq, Eq, Structural)]
pub struct LogWindow {
    pub first_index: u64,
    pub last_index: u64,
}

impl LogWindow {
    /// Whether the window is one that a log can have.
    pub open spec fn wf(self) -> bool {
        0 < self.first_index <= self.last_index + 1
    }

    /// Whether the log still holds the entry at `index`.
    pub open spec fn holds(self, index: u64) -> bool {
        self.first_index <= index <= self.last_index
    }

    /// Whether a member that has matched `matched` can still be served from
    /// the log: every entry after `matched` is held.
    pub open spec fn can_serve(self, matched: u64) -> bool {
        forall|index: u64| matched < index <= self.last_index ==> self.holds(index)
    }

    /// The window after the entries below `to` were dropped.
    pub open spec fn spec_compact_to(self, to: u64) -> LogWindow {
        if self.first_index < to <= self.last_index + 1 {
            LogWindow { first_index: to, last_index: self.last_index }
        } else {
            self
        }
    }

    /// The first index that the log still holds.
    pub fn first_index(&self) -> (index: u64)
        ensures
            index == self.first_index,
    {
        self.first_index
    }

    /// Drops the entries below `to`, so that `to` becomes the first index.
    /// Nothing happens if the log starts at or after `to` already, or if it
    /// does not reach `to`.
    pub fn compact_to(&mut self, to: u64)
        ensures
            *final(self) == old(self).spec_compact_to(to),
            old(self).wf() ==> final(self).wf(),
    {
        if self.first_index < to && to - 1 <= self.last_index {
            self.first_index = to;
        }
    }
}

/// Compaction keeps what members still need: after the log was compacted to
/// `index`, a member that has matched `index` or more can still be served,
/// and so can one that has matched `index - 1`.
pub proof fn lemma_compaction_serves_matched(log: LogWindow, index: u64, matched: u64)
    requires
        log.wf(),
        matched + 1 >= index,
        log.can_serve(matched),
    ensures
        log.spec_compact_to(index).can_serve(matched),
{
}

/// After the log was compacted to `index`, it starts no later than
/// `index + 1`, if it did so before.
pub proof fn lemma_compaction_first_index(log: LogWindow, index: u64)
    requires
        log.wf(),
        log.first_index <= index + 1,
    ensures
        log.spec_compact_to(index).first_index <= index + 1,
{
}

/// The compaction that the leader plans denies no voting member an entry:
/// whoever could be served before can be served after.
pub proof fn lemma_planned_compaction_is_safe(
    log: LogWindow,
    flushed_index: u64,
    progress: Seq<Progress>,
    to: u64,
    i: int,
)
    requires
        log.wf(),
        is_compaction_index(to, flushed_index, true, progress),
        0 <= i < progress.len(),
        progress[i].voter,
        log.can_serve(progress[i].matched),
    ensures
        log.spec_compact_to(to).can_serve(progress[i].matched),
{
    lemma_compaction_serves_matched(log, to, progress[i].matched);
}

} // verus!
