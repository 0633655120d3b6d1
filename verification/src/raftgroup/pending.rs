//! The requests that wait for the log: reads that wait for the state
//! machine to catch up, and proposals that wait for their entry to be
//! applied. Every reply handle that goes in comes out exactly once.

use vstd::prelude::*;

verus! {

/// A read that may proceed once every entry up to `index` is applied.
#[derive(Debug, PartialEq, Eq)]
pub struct PendingRead<S> {
    pub index: u64,
    pub sender: S,
}

/// The reply handles of the reads among `reads` that may proceed when
/// every entry up to `applied_index` is applied, in order.
pub open spec fn ready_reads<S>(reads: Seq<PendingRead<S>>, applied_index: u64) -> Seq<S> {
    reads.filter(|r: PendingRead<S>| r.index <= applied_index).map_values(|r: PendingRead<S>| r.sender)
}

/// The reads among `reads` that still wait when every entry up to
/// `applied_index` is applied, in order.
pub open spec fn waiting_reads<S>(reads: Seq<PendingRead<S>>, applied_index: u64) -> Seq<PendingRead<S>> {
    reads.filter(|r: PendingRead<S>| r.index > applied_index)
}

/// The reads that wait for entries to be applied, in the order in which
/// they came.
pub struct ReadQueue<S> {
    reads: Vec<PendingRead<S>>,
}

impl<S> View for ReadQueue<S> {
    type V = Seq<PendingRead<S>>;

    closed spec fn view(&self) -> Seq<PendingRead<S>> {
        self.reads@
    }
}

impl<S> ReadQueue<S> {
    /// An empty queue.
    pub fn new() -> (queue: ReadQueue<S>)
        ensures
            queue@ == Seq::<PendingRead<S>>::empty(),
    {
        ReadQueue { reads: Vec::new() }
    }

    /// How many reads wait.
    pub fn len(&self) -> (n: usize)
        ensures
            n == self@.len(),
    {
        self.reads.len()
    }

    /// Takes a read that was issued when the commit index was
    /// `commit_index`. If every entry up to there is applied the read may
    /// proceed at once and its reply handle comes back; else it waits.
    pub fn push(&mut self, commit_index: u64, applied_index: u64, sender: S) -> (ready: Option<S>)
        ensures
            ready == if commit_index <= applied_index {
                Some(sender)
            } else {
                None
            },
            final(self)@ == if commit_index <= applied_index {
                old(self)@
            } else {
                old(self)@.push(PendingRead { index: commit_index, sender })
            },
    {
        if commit_index <= applied_index {
            Some(sender)
        } else {
            self.reads.push(PendingRead { index: commit_index, sender });
            None
        }
    }

    /// Takes note that every entry up to `applied_index` is applied: the
    /// reads that waited for no more than that leave the queue, and their
    /// reply handles come back in the order of the reads. No read leaves
    /// before the entries that it waits for are applied.
    pub fn advance(&mut self, applied_index: u64) -> (ready: Vec<S>)
        ensures
            ready@ == ready_reads(old(self)@, applied_index),
            final(self)@ == waiting_reads(old(self)@, applied_index),
    {
        let mut reads: Vec<PendingRead<S>> = Vec::new();
        core::mem::swap(&mut self.reads, &mut reads);
        let ghost all = reads@;
        let ghost leaves = |r: PendingRead<S>| r.index <= applied_index;
        let ghost stays = |r: PendingRead<S>| r.index > applied_index;
        let ghost sender_of = |r: PendingRead<S>| r.sender;
        let mut ready: Vec<S> = Vec::new();
        proof {
            reveal(Seq::filter);
            assert(all.take(0).filter(leaves).map_values(sender_of) == Seq::<S>::empty());
            assert(all.take(0).filter(stays) == Seq::<PendingRead<S>>::empty());
        }
        for read in it: reads
            invariant
                it.seq() == all,
                leaves == |r: PendingRead<S>| r.index <= applied_index,
                stays == |r: PendingRead<S>| r.index > applied_index,
                sender_of == |r: PendingRead<S>| r.sender,
                ready@ == all.take(it.index() as int).filter(leaves).map_values(sender_of),
                self.reads@ == all.take(it.index() as int).filter(stays),
        {
            proof {
                reveal(Seq::filter);
                let before = all.take(it.index() as int);
                assert(all.take(it.index() + 1) == before.push(read));
                assert(before.push(read).drop_last() == before);
                if leaves(read) {
                    assert(before.filter(leaves).push(read).map_values(sender_of) == before.filter(
                        leaves,
                    ).map_values(sender_of).push(read.sender));
                }
            }
            if read.index <= applied_index {
                ready.push(read.sender);
            } else {
                self.reads.push(read);
            }
        }
        assert(all.take(all.len() as int) == all);
        ready
    }

    /// Gives every read up: the queue is empty and the reply handles of all
    /// reads come back, in order, to be answered with a failure or dropped.
    pub fn cancel(&mut self) -> (cancelled: Vec<S>)
        ensures
            cancelled@ == old(self)@.map_values(|r: PendingRead<S>| r.sender),
            final(self)@ == Seq::<PendingRead<S>>::empty(),
    {
        let mut reads: Vec<PendingRead<S>> = Vec::new();
        core::mem::swap(&mut self.reads, &mut reads);
        let ghost all = reads@;
        let ghost sender_of = |r: PendingRead<S>| r.sender;
        let mut cancelled: Vec<S> = Vec::new();
        assert(all.take(0).map_values(sender_of) == Seq::<S>::empty());
        for read in it: reads
            invariant
                it.seq() == all,
                sender_of == |r: PendingRead<S>| r.sender,
                cancelled@ == all.take(it.index() as int).map_values(sender_of),
                self.reads@ == Seq::<PendingRead<S>>::empty(),
        {
            assert(all.take(it.index() + 1).map_values(sender_of) == all.take(
                it.index() as int,
            ).map_values(sender_of).push(read.sender));
            cancelled.push(read.sender);
        }
        assert(all.take(all.len() as int) == all);
        cancelled
    }
}

/// What is left by a filter was there before and passes the filter.
pub proof fn lemma_filter_elements<T>(items: Seq<T>, pred: spec_fn(T) -> bool, i: int)
    requires
        0 <= i < items.filter(pred).len(),
    ensures
        pred(items.filter(pred)[i]),
        exists|j: int| 0 <= j < items.len() && #[trigger] items[j] == items.filter(pred)[i],
    decreases items.len(),
{
    reveal(Seq::filter);
    if items.len() > 0 {
        let front = items.drop_last();
        if i < front.filter(pred).len() {
            lemma_filter_elements(front, pred, i);
            let j = choose|j: int| 0 <= j < front.len() && #[trigger] front[j] == front.filter(pred)[i];
            assert(items[j] == items.filter(pred)[i]);
        } else {
            assert(items[items.len() - 1] == items.filter(pred)[i]);
        }
    }
}

/// A read that leaves the queue has waited long enough: every reply handle
/// that `advance` hands back belongs to a read whose index is at most the
/// applied index.
pub proof fn lemma_reads_are_never_stale<S>(reads: Seq<PendingRead<S>>, applied_index: u64, i: int)
    requires
        0 <= i < ready_reads(reads, applied_index).len(),
    ensures
        exists|j: int|
            0 <= j < reads.len() && (#[trigger] reads[j]).index <= applied_index && reads[j].sender
                == ready_reads(reads, applied_index)[i],
{
    let leaves = |r: PendingRead<S>| r.index <= applied_index;
    let left = reads.filter(leaves);
    lemma_filter_elements(reads, leaves, i);
    let j = choose|j: int| 0 <= j < reads.len() && #[trigger] reads[j] == left[i];
    assert(reads[j].index <= applied_index);
}

/// Every read is answered once: it either leaves the queue or stays in it.
pub proof fn lemma_reads_leave_or_stay<S>(reads: Seq<PendingRead<S>>, applied_index: u64)
    ensures
        ready_reads(reads, applied_index).len() + waiting_reads(reads, applied_index).len() == reads.len(),
    decreases reads.len(),
{
    reveal(Seq::filter);
    if reads.len() > 0 {
        lemma_reads_leave_or_stay(reads.drop_last(), applied_index);
    }
}

/// A proposal that waits for the entry at `index`, which it expects to
/// carry the term `term`.
#[derive(Debug, PartialEq, Eq)]
pub struct Proposal<S> {
    pub index: u64,
    pub term: u64,
    pub sender: S,
}

/// How a proposal ended.
#[derive(Clone, Copy, Debug, PartialEq, Eq, Structural)]
pub enum Outcome {
    /// Its entry was committed and applied.
    Applied,
    /// Another entry took its place in the log: the replica that proposed
    /// had lost leadership.
    Lost,
}

/// A proposal that ended: its reply handle and how it ended.
#[derive(Debug, PartialEq, Eq)]
pub struct Resolved<S> {
    pub sender: S,
    pub outcome: Outcome,
}

/// How a proposal ends when the entry at `index` with the term `term` is
/// applied, given that the proposal waited for an entry at or before
/// `index`.
pub open spec fn resolve<S>(proposal: Proposal<S>, index: u64, term: u64) -> Resolved<S> {
    Resolved {
        sender: proposal.sender,
        outcome: if proposal.index == index && proposal.term == term {
            Outcome::Applied
        } else {
            Outcome::Lost
        },
    }
}

/// The proposals among `proposals` that end when the entry at `index` with
/// the term `term` is applied, each with how it ends, in order.
pub open spec fn resolved_by<S>(proposals: Seq<Proposal<S>>, index: u64, term: u64) -> Seq<Resolved<S>> {
    proposals.filter(|p: Proposal<S>| p.index <= index).map_values(|p: Proposal<S>| resolve(p, index, term))
}

/// The proposals among `proposals` that still wait when the entry at
/// `index` is applied, in order.
pub open spec fn unresolved_by<S>(proposals: Seq<Proposal<S>>, index: u64) -> Seq<Proposal<S>> {
    proposals.filter(|p: Proposal<S>| p.index > index)
}

/// The proposals that wait for their entries to be applied, in the order in
/// which they were made.
pub struct ProposalQueue<S> {
    proposals: Vec<Proposal<S>>,
}

impl<S> View for ProposalQueue<S> {
    type V = Seq<Proposal<S>>;

    closed spec fn view(&self) -> Seq<Proposal<S>> {
        self.proposals@
    }
}

impl<S> ProposalQueue<S> {
    /// An empty queue.
    pub fn new() -> (queue: ProposalQueue<S>)
        ensures
            queue@ == Seq::<Proposal<S>>::empty(),
    {
        ProposalQueue { proposals: Vec::new() }
    }

    /// How many proposals wait.
    pub fn len(&self) -> (n: usize)
        ensures
            n == self@.len(),
    {
        self.proposals.len()
    }

    /// Takes a proposal whose entry was appended at `index` in the term
    /// `term`.
    pub fn push(&mut self, index: u64, term: u64, sender: S)
        ensures
            final(self)@ == old(self)@.push(Proposal { index, term, sender }),
    {
        self.proposals.push(Proposal { index, term, sender });
    }

    /// Takes note that the entry at `index` with the term `term` was
    /// applied. Every proposal that waited for an entry at or before
    /// `index` ends: the one whose entry this is was applied, any other
    /// lost its place. The others go on waiting.
    pub fn apply(&mut self, index: u64, term: u64) -> (resolved: Vec<Resolved<S>>)
        ensures
            resolved@ == resolved_by(old(self)@, index, term),
            final(self)@ == unresolved_by(old(self)@, index),
    {
        let mut proposals: Vec<Proposal<S>> = Vec::new();
        core::mem::swap(&mut self.proposals, &mut proposals);
        let ghost all = proposals@;
        let ghost ends = |p: Proposal<S>| p.index <= index;
        let ghost waits = |p: Proposal<S>| p.index > index;
        let ghost end_of = |p: Proposal<S>| resolve(p, index, term);
        let mut resolved: Vec<Resolved<S>> = Vec::new();
        proof {
            reveal(Seq::filter);
            assert(all.take(0).filter(ends).map_values(end_of) == Seq::<Resolved<S>>::empty());
            assert(all.take(0).filter(waits) == Seq::<Proposal<S>>::empty());
        }
        for proposal in it: proposals
            invariant
                it.seq() == all,
                ends == |p: Proposal<S>| p.index <= index,
                waits == |p: Proposal<S>| p.index > index,
                end_of == |p: Proposal<S>| resolve(p, index, term),
                resolved@ == all.take(it.index() as int).filter(ends).map_values(end_of),
                self.proposals@ == all.take(it.index() as int).filter(waits),
        {
            proof {
                reveal(Seq::filter);
                let before = all.take(it.index() as int);
                assert(all.take(it.index() + 1) == before.push(proposal));
                assert(before.push(proposal).drop_last() == before);
                if ends(proposal) {
                    assert(before.filter(ends).push(proposal).map_values(end_of) == before.filter(
                        ends,
                    ).map_values(end_of).push(resolve(proposal, index, term)));
                }
            }
            if proposal.index <= index {
                let outcome = if proposal.index == index && proposal.term == term {
                    Outcome::Applied
                } else {
                    Outcome::Lost
                };
                resolved.push(Resolved { sender: proposal.sender, outcome });
            } else {
                self.proposals.push(proposal);
            }
        }
        assert(all.take(all.len() as int) == all);
        resolved
    }

    /// Gives every proposal up, as when leadership is lost or the worker
    /// shuts down: the queue is empty and the reply handles of all
    /// proposals come back, in order.
    pub fn cancel(&mut self) -> (cancelled: Vec<S>)
        ensures
            cancelled@ == old(self)@.map_values(|p: Proposal<S>| p.sender),
            final(self)@ == Seq::<Proposal<S>>::empty(),
    {
        let mut proposals: Vec<Proposal<S>> = Vec::new();
        core::mem::swap(&mut self.proposals, &mut proposals);
        let ghost all = proposals@;
        let ghost sender_of = |p: Proposal<S>| p.sender;
        let mut cancelled: Vec<S> = Vec::new();
        assert(all.take(0).map_values(sender_of) == Seq::<S>::empty());
        for proposal in it: proposals
            invariant
                it.seq() == all,
                sender_of == |p: Proposal<S>| p.sender,
                cancelled@ == all.take(it.index() as int).map_values(sender_of),
                self.proposals@ == Seq::<Proposal<S>>::empty(),
        {
            assert(all.take(it.index() + 1).map_values(sender_of) == all.take(
                it.index() as int,
            ).map_values(sender_of).push(proposal.sender));
            cancelled.push(proposal.sender);
        }
        assert(all.take(all.len() as int) == all);
        cancelled
    }
}

/// Every proposal is answered once: when an entry is applied a proposal
/// either ends or goes on waiting.
pub proof fn lemma_proposals_end_or_wait<S>(proposals: Seq<Proposal<S>>, index: u64, term: u64)
    ensures
        resolved_by(proposals, index, term).len() + unresolved_by(proposals, index).len() == proposals.len(),
    decreases proposals.len(),
{
    reveal(Seq::filter);
    if proposals.len() > 0 {
        lemma_proposals_end_or_wait(proposals.drop_last(), index, term);
    }
}

} // verus!
