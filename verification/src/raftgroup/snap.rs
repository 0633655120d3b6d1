//! The snapshot manager's bookkeeping: which snapshots exist, which
//! transfers still read them, and which may be deleted.

use vstd::prelude::*;

verus! {

/// What the manager knows of one snapshot.
#[derive(Clone, Copy, Debug, PartialEq, Eq, Structural)]
pub struct SnapshotInfo {
    /// The replica whose state the snapshot holds.
    pub replica_id: u64,
    /// The name under which the snapshot is stored.
    pub snapshot_id: u64,
    /// The log index whose effects the snapshot holds.
    pub index: u64,
    /// How many transfers are reading the snapshot.
    pub transfers: u64,
}

/// Whether a snapshot may be deleted once the log of `replica_id` was
/// compacted to `compacted_index`: it belongs to that replica, lies at or
/// below that index, and no transfer reads it.
pub open spec fn recyclable(info: SnapshotInfo, replica_id: u64, compacted_index: u64) -> bool {
    info.replica_id == replica_id && info.index <= compacted_index && info.transfers == 0
}

/// The snapshots of one node process, across all groups.
pub struct SnapManager {
    snapshots: Vec<SnapshotInfo>,
}

impl View for SnapManager {
    type V = Seq<SnapshotInfo>;

    closed spec fn view(&self) -> Seq<SnapshotInfo> {
        self.snapshots@
    }
}

/// The snapshots after a transfer of `snapshot_id` began (`delta` 1) or
/// ended (`delta` -1).
pub open spec fn with_transfers(snapshots: Seq<SnapshotInfo>, snapshot_id: u64, delta: int) -> Seq<SnapshotInfo> {
    snapshots.map_values(
        |info: SnapshotInfo|
            if info.snapshot_id == snapshot_id && 0 <= info.transfers + delta <= u64::MAX {
                SnapshotInfo { transfers: (info.transfers + delta) as u64, ..info }
            } else {
                info
            },
    )
}

impl SnapManager {
    /// A manager without snapshots.
    pub fn new() -> (manager: SnapManager)
        ensures
            manager@ == Seq::<SnapshotInfo>::empty(),
    {
        SnapManager { snapshots: Vec::new() }
    }

    /// What the manager knows of every snapshot, in the order in which it
    /// learned of them.
    pub fn snapshots(&self) -> (snapshots: Vec<SnapshotInfo>)
        ensures
            snapshots@ == self@,
    {
        crate::metadata::copy_vec(&self.snapshots)
    }

    /// Takes note of a snapshot that was created or downloaded.
    pub fn register(&mut self, replica_id: u64, snapshot_id: u64, index: u64)
        ensures
            final(self)@ == old(self)@.push(SnapshotInfo { replica_id, snapshot_id, index, transfers: 0 }),
    {
        self.snapshots.push(SnapshotInfo { replica_id, snapshot_id, index, transfers: 0 });
    }

    /// Takes note that a transfer started to read a snapshot.
    pub fn begin_transfer(&mut self, snapshot_id: u64)
        ensures
            final(self)@ == with_transfers(old(self)@, snapshot_id, 1),
    {
        self.adjust(snapshot_id, true);
    }

    /// Takes note that a transfer stopped reading a snapshot.
    pub fn end_transfer(&mut self, snapshot_id: u64)
        ensures
            final(self)@ == with_transfers(old(self)@, snapshot_id, -1),
    {
        self.adjust(snapshot_id, false);
    }

    fn adjust(&mut self, snapshot_id: u64, begin: bool)
        ensures
            final(self)@ == with_transfers(old(self)@, snapshot_id, if begin { 1 } else { -1 }),
    {
        let ghost delta: int = if begin { 1 } else { -1 };
        let mut i: usize = 0;
        while i < self.snapshots.len()
            invariant
                i <= self.snapshots.len(),
                self.snapshots@.len() == old(self)@.len(),
                delta == if begin { 1int } else { -1int },
                forall|j: int| 0 <= j < i ==> self.snapshots@[j] == with_transfers(old(self)@, snapshot_id, delta)[j],
                forall|j: int| i <= j < self.snapshots@.len() ==> self.snapshots@[j] == old(self)@[j],
            decreases self.snapshots.len() - i,
        {
            let info = self.snapshots[i];
            if info.snapshot_id == snapshot_id {
                if begin && info.transfers < u64::MAX {
                    self.snapshots.set(i, SnapshotInfo { transfers: info.transfers + 1, ..info });
                } else if !begin && info.transfers > 0 {
                    self.snapshots.set(i, SnapshotInfo { transfers: info.transfers - 1, ..info });
                }
            }
            i += 1;
        }
        assert(self.snapshots@ =~= with_transfers(old(self)@, snapshot_id, delta));
    }

    /// Forgets the snapshots of `replica_id` that lie at or below
    /// `compacted_index`, but for those that a transfer still reads, and
    /// returns the ids of the forgotten ones, whose files can be deleted.
    /// All other snapshots stay, in their order.
    pub fn recycle_snapshots(&mut self, replica_id: u64, compacted_index: u64) -> (recycled: Vec<u64>)
        ensures
            final(self)@ == old(self)@.filter(|info: SnapshotInfo| !recyclable(info, replica_id, compacted_index)),
            recycled@ == old(self)@.filter(
                |info: SnapshotInfo| recyclable(info, replica_id, compacted_index),
            ).map_values(|info: SnapshotInfo| info.snapshot_id),
    {
        let ghost stays = |info: SnapshotInfo| !recyclable(info, replica_id, compacted_index);
        let ghost goes = |info: SnapshotInfo| recyclable(info, replica_id, compacted_index);
        let ghost id_of = |info: SnapshotInfo| info.snapshot_id;
        let mut kept: Vec<SnapshotInfo> = Vec::new();
        let mut recycled: Vec<u64> = Vec::new();
        let mut i: usize = 0;
        proof {
            reveal(Seq::filter);
            assert(self.snapshots@.take(0).filter(stays) == Seq::<SnapshotInfo>::empty());
            assert(self.snapshots@.take(0).filter(goes).map_values(id_of) == Seq::<u64>::empty());
        }
        while i < self.snapshots.len()
            invariant
                i <= self.snapshots.len(),
                self.snapshots@ == old(self)@,
                stays == |info: SnapshotInfo| !recyclable(info, replica_id, compacted_index),
                goes == |info: SnapshotInfo| recyclable(info, replica_id, compacted_index),
                id_of == |info: SnapshotInfo| info.snapshot_id,
                kept@ == self.snapshots@.take(i as int).filter(stays),
                recycled@ == self.snapshots@.take(i as int).filter(goes).map_values(id_of),
            decreases self.snapshots.len() - i,
        {
            let info = self.snapshots[i];
            proof {
                reveal(Seq::filter);
                let before = self.snapshots@.take(i as int);
                assert(self.snapshots@.take(i + 1) == before.push(info));
                assert(before.push(info).drop_last() == before);
                if goes(info) {
                    assert(before.filter(goes).push(info).map_values(id_of) == before.filter(goes).map_values(
                        id_of,
                    ).push(info.snapshot_id));
                }
            }
            if info.replica_id == replica_id && info.index <= compacted_index && info.transfers == 0 {
                recycled.push(info.snapshot_id);
            } else {
                kept.push(info);
            }
            i += 1;
        }
        assert(self.snapshots@.take(self.snapshots.len() as int) == self.snapshots@);
        self.snapshots = kept;
        recycled
    }
}

/// A snapshot that a transfer reads is never recycled.
pub proof fn lemma_in_flight_snapshots_stay(
    snapshots: Seq<SnapshotInfo>,
    replica_id: u64,
    compacted_index: u64,
    i: int,
)
    requires
        0 <= i < snapshots.len(),
        snapshots[i].transfers > 0,
    ensures
        snapshots.filter(|info: SnapshotInfo| !recyclable(info, replica_id, compacted_index)).contains(
            snapshots[i],
        ),
{
    let stays = |info: SnapshotInfo| !recyclable(info, replica_id, compacted_index);
    snapshots.lemma_filter_contains_rev(stays, snapshots[i]);
}

} // verus!
