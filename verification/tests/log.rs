use engula::raftgroup::applier::Applier;
use engula::raftgroup::snap::{SnapManager, SnapshotInfo};
use engula::raftgroup::storage::{compact_log, Compaction, LogStatus, LogWindow, Progress};

fn p(replica_id: u64, matched: u64, voter: bool) -> Progress {
    Progress { replica_id, matched, voter }
}

#[test]
fn compaction_stops_at_the_slowest_voter() {
    let status = LogStatus {
        flushed_index: 50,
        is_leader: true,
        progress: vec![p(1, 60, true), p(2, 40, true), p(3, 45, true), p(4, 10, false)],
        first_index: 5,
    };
    assert_eq!(compact_log(&status), Compaction { to: 40, truncate: true });
    // What the state machine has not flushed stays too.
    let status = LogStatus { flushed_index: 30, ..status };
    assert_eq!(compact_log(&status), Compaction { to: 30, truncate: true });
}

#[test]
fn a_follower_compacts_to_what_is_flushed() {
    let status = LogStatus { flushed_index: 50, is_leader: false, progress: vec![p(2, 40, true)], first_index: 5 };
    assert_eq!(compact_log(&status), Compaction { to: 50, truncate: true });
    // A leader that tracks nobody does the same.
    let status = LogStatus { flushed_index: 50, is_leader: true, progress: vec![], first_index: 5 };
    assert_eq!(compact_log(&status), Compaction { to: 50, truncate: true });
}

#[test]
fn nothing_is_truncated_when_the_log_starts_late() {
    let status = LogStatus { flushed_index: 50, is_leader: false, progress: vec![], first_index: 50 };
    assert_eq!(compact_log(&status), Compaction { to: 50, truncate: false });
    let status = LogStatus { flushed_index: 50, is_leader: false, progress: vec![], first_index: 49 };
    assert_eq!(compact_log(&status), Compaction { to: 50, truncate: true });
    let status = LogStatus { flushed_index: 50, is_leader: false, progress: vec![], first_index: 70 };
    assert_eq!(compact_log(&status), Compaction { to: 50, truncate: false });
}

#[test]
fn compact_to_moves_the_first_index() {
    let mut log = LogWindow { first_index: 5, last_index: 100 };
    log.compact_to(40);
    assert_eq!(log, LogWindow { first_index: 40, last_index: 100 });
    assert_eq!(log.first_index(), 40);
    // A replica that has matched 39 or more still finds entry 40 and on.
    log.compact_to(40);
    assert_eq!(log.first_index(), 40);
    log.compact_to(12);
    assert_eq!(log.first_index(), 40);
    // The whole log may go, but no more.
    log.compact_to(101);
    assert_eq!(log, LogWindow { first_index: 101, last_index: 100 });
    let mut log = LogWindow { first_index: 5, last_index: 100 };
    log.compact_to(102);
    assert_eq!(log.first_index(), 5);
}

#[test]
fn planned_compaction_leaves_first_index_at_most_one_past() {
    let status = LogStatus {
        flushed_index: 50,
        is_leader: true,
        progress: vec![p(1, 60, true), p(2, 40, true)],
        first_index: 5,
    };
    let plan = compact_log(&status);
    let mut log = LogWindow { first_index: 5, last_index: 60 };
    if plan.truncate {
        log.compact_to(plan.to);
    }
    assert!(log.first_index() <= plan.to + 1);
    for progress in &status.progress {
        // Every entry after what the member has matched is still there.
        assert!(log.first_index() <= progress.matched + 1);
    }
}

#[test]
fn entries_are_applied_once_and_in_order() {
    let mut applier = Applier::recover(0);
    assert_eq!(applier.applied_index(), 0);
    assert_eq!(applier.apply_entries(&vec![1, 2, 3]), vec![1, 2, 3]);
    assert_eq!(applier.applied_index(), 3);
    // What was applied is not applied again.
    assert_eq!(applier.apply_entries(&vec![2, 3, 4, 5]), vec![4, 5]);
    assert_eq!(applier.applied_index(), 5);
    assert_eq!(applier.apply_entries(&vec![1, 2, 3, 4, 5]), Vec::<u64>::new());
    assert_eq!(applier.applied_index(), 5);
    assert_eq!(applier.apply_entries(&vec![]), Vec::<u64>::new());
    // An entry that would leave a gap waits.
    assert_eq!(applier.apply_entries(&vec![7, 8]), Vec::<u64>::new());
    assert_eq!(applier.applied_index(), 5);
    assert_eq!(applier.apply_entries(&vec![6, 6, 7, 9]), vec![6, 7]);
    assert_eq!(applier.applied_index(), 7);
}

#[test]
fn a_restart_replays_from_the_persisted_index() {
    let mut applier = Applier::recover(0);
    applier.apply_entries(&vec![1, 2, 3, 4, 5, 6]);
    // The state machine had flushed up to 4 when the worker went down.
    let mut applier = Applier::recover(4);
    assert_eq!(applier.applied_index(), 4);
    assert_eq!(applier.apply_entries(&vec![1, 2, 3, 4, 5, 6, 7]), vec![5, 6, 7]);
    assert_eq!(applier.applied_index(), 7);
    let mut last = Applier::recover(u64::MAX);
    assert_eq!(last.apply_entries(&vec![0, 1, u64::MAX]), Vec::<u64>::new());
    assert_eq!(last.applied_index(), u64::MAX);
}

#[test]
fn snapshots_below_the_compacted_index_are_recycled() {
    let mut mgr = SnapManager::new();
    mgr.register(1, 100, 10);
    mgr.register(1, 101, 20);
    mgr.register(2, 102, 5);
    mgr.register(1, 103, 30);
    mgr.begin_transfer(100);
    assert_eq!(mgr.snapshots()[0], SnapshotInfo { replica_id: 1, snapshot_id: 100, index: 10, transfers: 1 });
    // The snapshot in transfer stays, and so does what lies above the index
    // or belongs to another replica.
    assert_eq!(mgr.recycle_snapshots(1, 20), vec![101]);
    let left: Vec<u64> = mgr.snapshots().iter().map(|s| s.snapshot_id).collect();
    assert_eq!(left, vec![100, 102, 103]);
    mgr.end_transfer(100);
    mgr.end_transfer(100);
    assert_eq!(mgr.snapshots()[0].transfers, 0);
    assert_eq!(mgr.recycle_snapshots(1, 20), vec![100]);
    assert_eq!(mgr.recycle_snapshots(1, 20), Vec::<u64>::new());
    assert_eq!(mgr.recycle_snapshots(2, 4), Vec::<u64>::new());
    assert_eq!(mgr.recycle_snapshots(2, 5), vec![102]);
    assert_eq!(mgr.recycle_snapshots(1, u64::MAX), vec![103]);
    assert!(mgr.snapshots().is_empty());
}
