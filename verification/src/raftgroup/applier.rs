//! Tracking of what has been applied to the state machine, so that every
//! committed entry is applied once and in order.

use vstd::prelude::*;

verus! {

/// The applied index after the entries at `committed` were offered, one
/// after the other: an entry is taken exactly if its index is the one after
/// the applied index.
pub open spec fn applied_after(applied_index: u64, committed: Seq<u64>) -> u64
    decreases committed.len(),
{
    if committed.len() == 0 {
        applied_index
    } else {
        let before = applied_after(applied_index, committed.drop_last());
        if committed.last() == before + 1 {
            committed.last()
        } else {
            before
        }
    }
}

/// The indexes that are applied when the entries at `committed` are
/// offered: every index after `applied_index` up to the new applied index.
pub open spec fn newly_applied(applied_index: u64, committed: Seq<u64>) -> Seq<u64> {
    Seq::new(
        (applied_after(applied_index, committed) - applied_index) as nat,
        |i: int| (applied_index + 1 + i) as u64,
    )
}

/// Whether `committed` is a run of consecutive indexes.
pub open spec fn is_run(committed: Seq<u64>) -> bool {
    forall|i: int| 0 < i < committed.len() ==> #[trigger] committed[i] == committed[i - 1] + 1
}

/// The applied index never decreases.
pub proof fn lemma_applied_monotonic(applied_index: u64, committed: Seq<u64>)
    ensures
        applied_index <= applied_after(applied_index, committed),
    decreases committed.len(),
{
    if committed.len() > 0 {
        lemma_applied_monotonic(applied_index, committed.drop_last());
    }
}

/// Once every committed entry was offered, the applied index equals the
/// commit index: if the node hands over a run of consecutive entries that
/// starts no later than the entry after the applied index and ends at
/// `commit_index`, the applied index ends at the larger of the two.
pub proof fn lemma_applied_reaches_commit(applied_index: u64, committed: Seq<u64>)
    requires
        committed.len() > 0,
        is_run(committed),
        committed[0] <= applied_index + 1,
    ensures
        applied_after(applied_index, committed) == if committed.last() >= applied_index {
            committed.last()
        } else {
            applied_index
        },
    decreases committed.len(),
{
    if committed.len() > 1 {
        let front = committed.drop_last();
        assert(is_run(front)) by {
            assert forall|i: int| 0 < i < front.len() implies #[trigger] front[i] == front[i - 1] + 1 by {
                assert(committed[i] == committed[i - 1] + 1);
            }
        }
        assert(front[0] == committed[0]);
        lemma_applied_reaches_commit(applied_index, front);
        assert(committed[committed.len() - 1] == committed[committed.len() - 2] + 1);
        assert(front.last() == committed[committed.len() - 2]);
    } else {
        assert(committed.drop_last().len() == 0);
        assert(applied_after(applied_index, committed.drop_last()) == applied_index);
    }
}

/// Offering entries in several goes is offering them in one: what the
/// applied index is after a first and then a second offer, it is after the
/// offer of both in a row.
pub proof fn lemma_applied_composes(applied_index: u64, first: Seq<u64>, second: Seq<u64>)
    ensures
        applied_after(applied_after(applied_index, first), second) == applied_after(applied_index, first + second),
    decreases second.len(),
{
    if second.len() == 0 {
        assert(first + second == first);
    } else {
        lemma_applied_composes(applied_index, first, second.drop_last());
        assert((first + second).drop_last() == first + second.drop_last());
        assert((first + second).last() == second.last());
    }
}

/// However the node splits what it hands over, once it has handed over
/// every entry up to the commit index the applied index is the commit
/// index: if the entries of a first and a second offer together are a run
/// of consecutive entries that starts no later than the entry after the
/// applied index and ends at the commit index, which is not behind, then
/// the applied index after both offers is the commit index.
pub proof fn lemma_applied_catches_up(applied_index: u64, first: Seq<u64>, second: Seq<u64>, commit_index: u64)
    requires
        (first + second).len() > 0,
        is_run(first + second),
        (first + second)[0] <= applied_index + 1,
        (first + second).last() == commit_index,
        commit_index >= applied_index,
    ensures
        applied_after(applied_after(applied_index, first), second) == commit_index,
{
    lemma_applied_composes(applied_index, first, second);
    lemma_applied_reaches_commit(applied_index, first + second);
}

/// Keeps the index of the last entry that was applied.
pub struct Applier {
    applied_index: u64,
}

impl View for Applier {
    type V = u64;

    closed spec fn view(&self) -> u64 {
        self.applied_index
    }
}

impl Applier {
    /// An applier for a state machine whose durable state holds the effects
    /// of every entry up to `flushed_index`: it continues after that index.
    pub fn recover(flushed_index: u64) -> (applier: Applier)
        ensures
            applier@ == flushed_index,
    {
        Applier { applied_index: flushed_index }
    }

    /// The index of the last entry that was applied.
    pub fn applied_index(&self) -> (index: u64)
        ensures
            index == self@,
    {
        self.applied_index
    }

    /// Offers the committed entries at the indexes `committed`, in order,
    /// and returns the indexes of those to apply now, in order. An entry is
    /// applied exactly if it is the one after the last applied entry; an
    /// entry that was applied before, or that would leave a gap, is not.
    pub fn apply_entries(&mut self, committed: &Vec<u64>) -> (applied: Vec<u64>)
        ensures
            final(self)@ == applied_after(old(self)@, committed@),
            applied@ == newly_applied(old(self)@, committed@),
    {
        let mut applied: Vec<u64> = Vec::new();
        let mut i: usize = 0;
        assert(committed@.take(0) == Seq::<u64>::empty());
        while i < committed.len()
            invariant
                i <= committed.len(),
                self@ == applied_after(old(self)@, committed@.take(i as int)),
                applied@ == newly_applied(old(self)@, committed@.take(i as int)),
            decreases committed.len() - i,
        {
            assert(committed@.take(i + 1).drop_last() == committed@.take(i as int));
            proof {
                lemma_applied_monotonic(old(self)@, committed@.take(i as int));
            }
            let index = committed[i];
            if self.applied_index < u64::MAX && index == self.applied_index + 1 {
                self.applied_index = index;
                applied.push(index);
            }
            i += 1;
        }
        assert(committed@.take(committed.len() as int) == committed@);
        applied
    }
}

/// Every index that is applied lies after the applied index from before
/// and at or below the applied index from after, and the indexes come in
/// strictly increasing order.
pub proof fn lemma_newly_applied(applied_index: u64, committed: Seq<u64>)
    ensures
        forall|i: int|
            0 <= i < newly_applied(applied_index, committed).len() ==> applied_index
                < #[trigger] newly_applied(applied_index, committed)[i] <= applied_after(
                applied_index,
                committed,
            ),
        forall|i: int, j: int|
            0 <= i < j < newly_applied(applied_index, committed).len() ==> newly_applied(
                applied_index,
                committed,
            )[i] < newly_applied(applied_index, committed)[j],
{
    lemma_applied_monotonic(applied_index, committed);
}

/// No entry is applied twice: what a second offer applies was not applied
/// by the first, whatever the two offers hold.
pub proof fn lemma_exactly_once(applied_index: u64, first: Seq<u64>, second: Seq<u64>)
    ensures
        forall|i: int, j: int|
            0 <= i < newly_applied(applied_index, first).len() && 0 <= j < newly_applied(
                applied_after(applied_index, first),
                second,
            ).len() ==> newly_applied(applied_index, first)[i] != newly_applied(
                applied_after(applied_index, first),
                second,
            )[j],
{
    lemma_newly_applied(applied_index, first);
    lemma_newly_applied(applied_after(applied_index, first), second);
}

/// A restart applies nothing that is durable: an applier that recovers from
/// `flushed_index` applies only entries after that index.
pub proof fn lemma_replay_skips_flushed(flushed_index: u64, committed: Seq<u64>)
    ensures
        forall|i: int|
            0 <= i < newly_applied(flushed_index, committed).len() ==> flushed_index
                < #[trigger] newly_applied(flushed_index, committed)[i],
{
    lemma_newly_applied(flushed_index, committed);
}

} // verus!
