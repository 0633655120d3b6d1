use engula::error::Error;
use engula::metadata::{GroupDesc, RaftRole, ReplicaDesc, ReplicaRole, ShardDesc};
use engula::migration::{AcceptShardRequest, GroupState, MigrationState, ShardRecord};

/// One replicated group: the state of each of its replicas, and which of
/// them are on nodes that run.
struct Group {
    replicas: Vec<GroupState>,
    nodes: Vec<u64>,
    offline: Vec<u64>,
}

impl Group {
    fn leader(&self) -> usize {
        for i in 0..self.replicas.len() {
            if !self.offline.contains(&self.nodes[i]) {
                return i;
            }
        }
        panic!("no replica is online");
    }

    fn online(&self, i: usize) -> bool {
        !self.offline.contains(&self.nodes[i])
    }
}

fn create_group(id: u64, replica_ids: Vec<(u64, u64)>, shards: Vec<ShardDesc>) -> Group {
    let replicas: Vec<ReplicaDesc> = replica_ids
        .iter()
        .cloned()
        .map(|(id, node_id)| ReplicaDesc { id, node_id, role: ReplicaRole::Voter.to_i32() })
        .collect();
    let group_desc = GroupDesc { id, epoch: 0, shards, replicas };
    let mut states = Vec::new();
    let mut nodes = Vec::new();
    for (_, node_id) in &replica_ids {
        let mut state = GroupState::new(group_desc.clone());
        state.on_state_updated(replica_ids[0].0, replica_ids[0].0, 1, RaftRole::Follower);
        states.push(state);
        nodes.push(*node_id);
    }
    states[0].on_state_updated(replica_ids[0].0, replica_ids[0].0, 1, RaftRole::Leader);
    Group { replicas: states, nodes, offline: vec![] }
}

fn insert(group: &mut Group, shard_id: u64, range: std::ops::Range<u64>) {
    for i in range {
        let key = format!("key-{}", i);
        let value = format!("value-{}", i);
        for r in 0..group.replicas.len() {
            if group.online(r) {
                group.replicas[r].put(shard_id, key.as_bytes().to_vec(), value.as_bytes().to_vec()).unwrap();
            }
        }
    }
}

/// Commits one migration from `src` to `dest` on every replica that is
/// online: the intent, the data in batches, and the transfer of ownership.
fn migrate(src: &mut Group, dest: &mut Group, req: AcceptShardRequest) {
    let pulled = src.replicas[src.leader()].shard_records(req.shard_desc.id);
    for r in 0..dest.replicas.len() {
        if !dest.online(r) || !src.online(r) {
            continue;
        }
        dest.replicas[r].apply_prepare(req);
        for chunk in pulled.chunks(64) {
            let batch: Vec<ShardRecord> = chunk.to_vec();
            dest.replicas[r].apply_batch(batch);
        }
        dest.replicas[r].begin_finish();
        dest.replicas[r].apply_finish(&mut src.replicas[r]);
        if dest.replicas[r].collect_migration_state() == MigrationState::Aborting {
            dest.replicas[r].apply_abort();
        }
    }
}

fn move_shard(src: &mut Group, dest: &mut Group, shard_desc: &ShardDesc) {
    for _ in 0..10 {
        let src_group_epoch = src.replicas[src.leader()].epoch();

        // Shard migration is finished.
        if dest.replicas[dest.leader()].owns_shard(shard_desc.id) {
            return;
        }

        let src_group_id = src.replicas[src.leader()].descriptor().id;
        let req = AcceptShardRequest { src_group_id, src_group_epoch, shard_desc: shard_desc.clone() };
        if dest.replicas[dest.leader()].accept_shard(req).is_err() {
            continue;
        }

        migrate(src, dest, req);
        if dest.replicas[dest.leader()].collect_migration_state() == MigrationState::Idle {
            // migration is finished or aborted.
            continue;
        }

        panic!("migration task is timeout");
    }

    panic!("move shard is failed after 10 retries");
}

fn expect_moved(src: &Group, dest: &Group, shard_id: u64) {
    for r in 0..dest.replicas.len() {
        if dest.online(r) && src.online(r) {
            assert_eq!(dest.replicas[r].collect_migration_state(), MigrationState::Idle);
            assert!(dest.replicas[r].owns_shard(shard_id));
            assert!(!src.replicas[r].owns_shard(shard_id));
        }
    }
}

/// Migration test within groups which have only one member, shard is empty.
#[test]
fn single_replica_empty_shard_migration() {
    let node_1_id = 0;
    let node_2_id = 1;
    let group_id_1 = 100000;
    let group_id_2 = 100001;
    let replica_1 = 1000000;
    let replica_2 = 2000000;
    let shard_id = 10000000;

    let shard_desc = ShardDesc { id: shard_id, collection_id: shard_id };
    let mut group_1 = create_group(group_id_1, vec![(replica_1, node_1_id)], vec![shard_desc.clone()]);
    let mut group_2 = create_group(group_id_2, vec![(replica_2, node_2_id)], vec![]);

    move_shard(&mut group_1, &mut group_2, &shard_desc);
    expect_moved(&group_1, &group_2, shard_id);
}

/// Migration test within groups which have only one member, shard have 1000 key values.
#[test]
fn single_replica_migration() {
    let node_1_id = 0;
    let node_2_id = 1;
    let group_id_1 = 100000;
    let group_id_2 = 100001;
    let replica_1 = 1000000;
    let replica_2 = 2000000;
    let shard_id = 10000000;

    let shard_desc = ShardDesc { id: shard_id, collection_id: shard_id };
    let mut group_1 = create_group(group_id_1, vec![(replica_1, node_1_id)], vec![shard_desc.clone()]);

    insert(&mut group_1, shard_id, 0..1000);

    let mut group_2 = create_group(group_id_2, vec![(replica_2, node_2_id)], vec![]);

    move_shard(&mut group_1, &mut group_2, &shard_desc);
    expect_moved(&group_1, &group_2, shard_id);
    assert_eq!(group_2.replicas[0].shard_records(shard_id).len(), 1000);
    assert_eq!(group_1.replicas[0].shard_records(shard_id).len(), 0);
    for i in 0..1000 {
        let key = format!("key-{}", i).into_bytes();
        let value = format!("value-{}", i).into_bytes();
        assert_eq!(group_2.replicas[0].get(shard_id, &key), Ok(Some(value)));
        assert_eq!(group_1.replicas[0].get(shard_id, &key), Err(Error::InvalidArgument));
    }
    assert_eq!(group_1.replicas[0].epoch(), 1);
    assert_eq!(group_2.replicas[0].epoch(), 1);
}

/// The basic migration test.
#[test]
fn basic_migration() {
    let node_1_id = 0;
    let node_2_id = 1;
    let node_3_id = 2;

    let group_id_1 = 100000;
    let group_id_2 = 100001;
    let replica_1_1 = 1000001;
    let replica_1_2 = 1000002;
    let replica_1_3 = 1000003;
    let replica_2_1 = 2000001;
    let replica_2_2 = 2000002;
    let replica_2_3 = 2000003;
    let shard_id = 10000000;

    let shard_desc = ShardDesc { id: shard_id, collection_id: shard_id };
    let mut group_1 = create_group(
        group_id_1,
        vec![(replica_1_1, node_1_id), (replica_1_2, node_2_id), (replica_1_3, node_3_id)],
        vec![shard_desc.clone()],
    );

    insert(&mut group_1, shard_id, 0..1000);

    let mut group_2 = create_group(
        group_id_2,
        vec![(replica_2_1, node_1_id), (replica_2_2, node_2_id), (replica_2_3, node_3_id)],
        vec![],
    );

    move_shard(&mut group_1, &mut group_2, &shard_desc);
    expect_moved(&group_1, &group_2, shard_id);
    for r in 0..3 {
        assert_eq!(group_2.replicas[r].shard_records(shard_id).len(), 1000);
    }
}

#[test]
fn abort_migration() {
    let node_1_id = 0;
    let node_2_id = 1;
    let node_3_id = 2;

    let group_id_1 = 100000;
    let group_id_2 = 100001;
    let replica_1_1 = 1000001;
    let replica_1_2 = 1000002;
    let replica_1_3 = 1000003;
    let replica_2_1 = 2000001;
    let replica_2_2 = 2000002;
    let replica_2_3 = 2000003;
    let shard_id = 10000000;

    let shard_desc = ShardDesc { id: shard_id, collection_id: shard_id };
    let mut group_1 = create_group(
        group_id_1,
        vec![(replica_1_1, node_1_id), (replica_1_2, node_2_id), (replica_1_3, node_3_id)],
        vec![shard_desc.clone()],
    );
    let mut group_2 = create_group(
        group_id_2,
        vec![(replica_2_1, node_1_id), (replica_2_2, node_2_id), (replica_2_3, node_3_id)],
        vec![],
    );

    let src_epoch = group_1.replicas[0].epoch();
    // The source changes its membership after its epoch was read.
    let change = engula::metadata::ChangeReplicas {
        changes: vec![engula::metadata::ChangeReplica {
            change_type: engula::metadata::ChangeReplicaType::Remove.to_i32(),
            replica_id: replica_1_3,
            node_id: node_3_id,
        }],
    };
    for r in 0..3 {
        group_1.replicas[r].apply_conf_change(&change);
    }
    assert_eq!(group_1.replicas[0].epoch(), src_epoch + 1);

    let req = AcceptShardRequest {
        src_group_id: group_id_1,
        src_group_epoch: src_epoch,
        shard_desc: shard_desc.to_owned(),
    };

    // Ensure issue at least one shard migration.
    let mut tries = 0;
    while group_2.replicas[0].accept_shard(req.clone()).is_err() {
        tries += 1;
        assert!(tries < 1000);
    }
    migrate(&mut group_1, &mut group_2, req);
    // Ensure the former shard migration is aborted by epoch not match.
    while group_2.replicas[0].accept_shard(req.clone()).is_err() {
        tries += 1;
        assert!(tries < 1000);
    }
    for r in 0..3 {
        assert_eq!(group_2.replicas[r].collect_migration_state(), MigrationState::Idle);
        assert!(!group_2.replicas[r].owns_shard(shard_id));
        assert!(group_1.replicas[r].owns_shard(shard_id));
        assert_eq!(group_2.replicas[r].epoch(), 0);
    }
}

#[test]
fn migration_with_offline_peers() {
    let node_1_id = 0;
    let node_2_id = 1;
    let node_3_id = 2;

    let group_id_1 = 100000;
    let group_id_2 = 100001;
    let replica_1_1 = 1000001;
    let replica_1_2 = 1000002;
    let replica_1_3 = 1000003;
    let replica_2_1 = 2000001;
    let replica_2_2 = 2000002;
    let replica_2_3 = 2000003;
    let shard_id = 10000000;

    let shard_desc = ShardDesc { id: shard_id, collection_id: shard_id };
    let mut group_1 = create_group(
        group_id_1,
        vec![(replica_1_1, node_1_id), (replica_1_2, node_2_id), (replica_1_3, node_3_id)],
        vec![shard_desc.clone()],
    );

    insert(&mut group_1, shard_id, 0..1000);

    let mut group_2 = create_group(
        group_id_2,
        vec![(replica_2_1, node_1_id), (replica_2_2, node_2_id), (replica_2_3, node_3_id)],
        vec![],
    );

    group_1.offline.push(2);
    group_2.offline.push(2);

    move_shard(&mut group_1, &mut group_2, &shard_desc);
    expect_moved(&group_1, &group_2, shard_id);
    // The replicas on the node that is down have seen nothing of it.
    assert!(group_1.replicas[2].owns_shard(shard_id));
    assert!(!group_2.replicas[2].owns_shard(shard_id));
}

#[test]
fn accept_shard_is_fenced_by_the_recorded_epoch() {
    let shard = ShardDesc { id: 7, collection_id: 1 };
    let replica = ReplicaDesc { id: 21, node_id: 1, role: ReplicaRole::Voter.to_i32() };
    let desc = GroupDesc { id: 2, epoch: 4, shards: vec![], replicas: vec![replica] };
    let mut dest = GroupState::new(desc.clone());
    dest.on_state_updated(21, 21, 1, RaftRole::Leader);
    assert_eq!(dest.recorded_epoch(1), 0);
    assert!(!dest.observe_epoch(1, 5));
    assert_eq!(dest.recorded_epoch(1), 5);

    // Strictly behind: refused, with the current descriptor.
    let stale = AcceptShardRequest { src_group_id: 1, src_group_epoch: 4, shard_desc: shard };
    assert_eq!(dest.accept_shard(stale), Err(Error::EpochNotMatch(desc.clone())));
    // Equal and ahead: accepted.
    let equal = AcceptShardRequest { src_group_id: 1, src_group_epoch: 5, shard_desc: shard };
    let ahead = AcceptShardRequest { src_group_id: 1, src_group_epoch: 6, shard_desc: shard };
    assert!(dest.accept_shard(equal).is_ok());
    let response = dest.accept_shard(ahead).unwrap();
    assert_eq!(response.record.src_group, 1);
    assert_eq!(response.record.src_epoch, 6);
    assert_eq!(response.record.dest_group, 2);
    assert_eq!(response.record.shard_desc, shard);
    assert_eq!(response.record.state, MigrationState::Prepare);
    // Another source has its own record.
    let other = AcceptShardRequest { src_group_id: 3, src_group_epoch: 0, shard_desc: shard };
    assert!(dest.accept_shard(other).is_ok());
    // An earlier epoch does not take the record back.
    assert!(!dest.observe_epoch(1, 2));
    assert_eq!(dest.recorded_epoch(1), 5);
}

#[test]
fn accept_shard_on_a_follower_names_the_leader() {
    let shard = ShardDesc { id: 7, collection_id: 1 };
    let a = ReplicaDesc { id: 21, node_id: 1, role: ReplicaRole::Voter.to_i32() };
    let b = ReplicaDesc { id: 22, node_id: 2, role: ReplicaRole::Voter.to_i32() };
    let desc = GroupDesc { id: 2, epoch: 0, shards: vec![], replicas: vec![a, b] };
    let mut dest = GroupState::new(desc.clone());
    let req = AcceptShardRequest { src_group_id: 1, src_group_epoch: 0, shard_desc: shard };
    assert_eq!(dest.accept_shard(req), Err(Error::NotLeader(2, None)));
    dest.on_state_updated(22, 22, 3, RaftRole::Follower);
    assert_eq!(dest.accept_shard(req), Err(Error::NotLeader(2, Some(b))));
    dest.on_state_updated(99, 0, 4, RaftRole::Candidate);
    assert_eq!(dest.accept_shard(req), Err(Error::NotLeader(2, None)));
    // A stale epoch is reported before leadership is looked at.
    dest.observe_epoch(1, 9);
    assert_eq!(dest.accept_shard(req), Err(Error::EpochNotMatch(desc)));
}

#[test]
fn node_accept_shard_reports_unknown_groups() {
    let shard = ShardDesc { id: 7, collection_id: 1 };
    let replica = ReplicaDesc { id: 21, node_id: 1, role: ReplicaRole::Voter.to_i32() };
    let desc = GroupDesc { id: 2, epoch: 0, shards: vec![], replicas: vec![replica] };
    let mut group = GroupState::new(desc);
    group.on_state_updated(21, 21, 1, RaftRole::Leader);
    let mut node = engula::migration::Node::new();
    let req = AcceptShardRequest { src_group_id: 1, src_group_epoch: 0, shard_desc: shard };
    assert_eq!(node.accept_shard(2, req), Err(Error::GroupNotFound(2)));
    assert_eq!(node.collect_migration_state(2), Err(Error::GroupNotFound(2)));
    node.add_group(group);
    assert_eq!(node.find_group(2), Some(0));
    assert_eq!(node.find_group(5), None);
    assert!(node.accept_shard(2, req).is_ok());
    assert_eq!(node.accept_shard(5, req), Err(Error::GroupNotFound(5)));
    assert_eq!(node.collect_migration_state(2), Ok(MigrationState::Idle));
    assert_eq!(node.group(0).epoch(), 0);
    let taken = node.take_group(0);
    assert_eq!(taken.descriptor().id, 2);
    assert_eq!(node.find_group(2), None);
}

#[test]
fn migration_states_follow_the_committed_entries() {
    let shard = ShardDesc { id: 7, collection_id: 1 };
    let src_replica = ReplicaDesc { id: 11, node_id: 1, role: ReplicaRole::Voter.to_i32() };
    let dest_replica = ReplicaDesc { id: 21, node_id: 2, role: ReplicaRole::Voter.to_i32() };
    let mut src = GroupState::new(GroupDesc { id: 1, epoch: 3, shards: vec![shard], replicas: vec![src_replica] });
    let mut dest = GroupState::new(GroupDesc { id: 2, epoch: 8, shards: vec![], replicas: vec![dest_replica] });
    src.put(7, b"k".to_vec(), b"v".to_vec()).unwrap();
    let req = AcceptShardRequest { src_group_id: 1, src_group_epoch: 3, shard_desc: shard };

    // Nothing but a prepare starts a migration.
    dest.apply_batch(vec![ShardRecord { shard_id: 7, key: b"x".to_vec(), value: b"y".to_vec() }]);
    dest.begin_finish();
    dest.apply_abort();
    dest.apply_finish(&mut src);
    assert_eq!(dest.collect_migration_state(), MigrationState::Idle);
    assert!(src.owns_shard(7));
    assert_eq!(src.epoch(), 3);

    dest.apply_prepare(req);
    assert_eq!(dest.collect_migration_state(), MigrationState::Prepare);
    assert_eq!(dest.recorded_epoch(1), 3);
    let record = dest.migration_record();
    assert_eq!((record.src_group, record.src_epoch, record.dest_group, record.shard_desc), (1, 3, 2, shard));
    // A second prepare is a duplicate and changes nothing.
    dest.apply_prepare(AcceptShardRequest { src_group_id: 1, src_group_epoch: 4, shard_desc: shard });
    assert_eq!(dest.migration_record().src_epoch, 3);
    assert_eq!(dest.recorded_epoch(1), 3);

    dest.apply_batch(src.shard_records(7));
    assert_eq!(dest.collect_migration_state(), MigrationState::Migrating);
    // Until ownership moves the destination serves nothing of the shard.
    assert_eq!(dest.get(7, &b"k".to_vec()), Err(Error::InvalidArgument));
    dest.begin_finish();
    assert_eq!(dest.collect_migration_state(), MigrationState::Finishing);
    dest.apply_finish(&mut src);
    assert_eq!(dest.collect_migration_state(), MigrationState::Idle);
    assert!(dest.owns_shard(7));
    assert!(!src.owns_shard(7));
    assert_eq!(src.epoch(), 4);
    assert_eq!(dest.epoch(), 9);
    assert_eq!(dest.get(7, &b"k".to_vec()), Ok(Some(b"v".to_vec())));
    assert_eq!(dest.descriptor().shards, vec![shard]);
    assert_eq!(src.descriptor().shards, vec![]);
}

#[test]
fn abort_releases_what_was_pulled() {
    let shard = ShardDesc { id: 7, collection_id: 1 };
    let mut src = GroupState::new(GroupDesc { id: 1, epoch: 3, shards: vec![shard], replicas: vec![] });
    let mut dest = GroupState::new(GroupDesc { id: 2, epoch: 8, shards: vec![], replicas: vec![] });
    src.put(7, b"k".to_vec(), b"v".to_vec()).unwrap();
    let req = AcceptShardRequest { src_group_id: 1, src_group_epoch: 3, shard_desc: shard };
    dest.apply_prepare(req);
    dest.apply_batch(src.shard_records(7));
    // The source moves on: the epoch check finds the migration behind.
    src.bump_epoch();
    assert!(dest.observe_epoch(1, src.epoch()));
    dest.begin_abort();
    assert_eq!(dest.collect_migration_state(), MigrationState::Aborting);
    // A finish that comes now moves nothing.
    dest.apply_finish(&mut src);
    assert_eq!(dest.collect_migration_state(), MigrationState::Aborting);
    assert!(src.owns_shard(7));
    dest.apply_abort();
    assert_eq!(dest.collect_migration_state(), MigrationState::Idle);
    assert!(!dest.owns_shard(7));
    assert_eq!(dest.epoch(), 8);
    // A retry with the old epoch is refused, one with the new epoch goes through.
    let mut dest_leader = dest;
    dest_leader.on_state_updated(0, 0, 1, RaftRole::Leader);
    assert!(matches!(dest_leader.accept_shard(req), Err(Error::EpochNotMatch(_))));
    let retry = AcceptShardRequest { src_group_id: 1, src_group_epoch: 4, shard_desc: shard };
    assert!(dest_leader.accept_shard(retry).is_ok());
    dest_leader.apply_prepare(retry);
    dest_leader.apply_batch(src.shard_records(7));
    dest_leader.apply_finish(&mut src);
    assert!(dest_leader.owns_shard(7));
    assert!(!src.owns_shard(7));
    // What the aborted attempt had pulled did not stay: one record, not two.
    assert_eq!(dest_leader.shard_records(7).len(), 1);
}

#[test]
fn two_accepts_around_an_epoch_bump_move_the_shard_once() {
    let shard = ShardDesc { id: 7, collection_id: 1 };
    let mut src = GroupState::new(GroupDesc { id: 1, epoch: 3, shards: vec![shard], replicas: vec![] });
    let mut dest = GroupState::new(GroupDesc { id: 2, epoch: 0, shards: vec![], replicas: vec![] });
    dest.on_state_updated(0, 0, 1, RaftRole::Leader);
    let first = AcceptShardRequest { src_group_id: 1, src_group_epoch: src.epoch(), shard_desc: shard };
    src.bump_epoch();
    let second = AcceptShardRequest { src_group_id: 1, src_group_epoch: src.epoch(), shard_desc: shard };

    // Both calls are accepted; whichever is committed first runs.
    assert!(dest.accept_shard(second).is_ok());
    assert!(dest.accept_shard(first).is_ok());
    dest.apply_prepare(second);
    dest.apply_prepare(first);
    assert_eq!(dest.migration_record().src_epoch, 4);
    // From now on the first call is behind.
    assert!(matches!(dest.accept_shard(first), Err(Error::EpochNotMatch(_))));
    dest.apply_finish(&mut src);
    assert!(dest.owns_shard(7) && !src.owns_shard(7));
    assert_eq!(dest.descriptor().shards.len(), 1);
    // The late duplicate finds the shard there and starts nothing.
    dest.apply_prepare(second);
    assert_eq!(dest.collect_migration_state(), MigrationState::Idle);

    // The other order: the call with the old epoch is committed first and is given up.
    let mut src = GroupState::new(GroupDesc { id: 1, epoch: 3, shards: vec![shard], replicas: vec![] });
    let mut dest = GroupState::new(GroupDesc { id: 2, epoch: 0, shards: vec![], replicas: vec![] });
    src.bump_epoch();
    dest.apply_prepare(first);
    dest.apply_prepare(second);
    dest.apply_finish(&mut src);
    assert_eq!(dest.collect_migration_state(), MigrationState::Aborting);
    dest.apply_abort();
    assert!(src.owns_shard(7) && !dest.owns_shard(7));
    dest.apply_prepare(second);
    dest.apply_finish(&mut src);
    assert!(dest.owns_shard(7) && !src.owns_shard(7));
}

#[test]
fn no_interleaving_makes_two_owners() {
    let shard = ShardDesc { id: 7, collection_id: 1 };
    // Every sequence of five steps out of seven kinds, from a fresh pair.
    let kinds = 7u32;
    let mut code = 0u32;
    while code < kinds.pow(5) {
        let mut src = GroupState::new(GroupDesc { id: 1, epoch: 0, shards: vec![shard], replicas: vec![] });
        let mut dest = GroupState::new(GroupDesc { id: 2, epoch: 0, shards: vec![], replicas: vec![] });
        let mut rest = code;
        for _ in 0..5 {
            match rest % kinds {
                0 => dest.apply_prepare(AcceptShardRequest {
                    src_group_id: 1,
                    src_group_epoch: src.epoch(),
                    shard_desc: shard,
                }),
                1 => dest.apply_batch(vec![ShardRecord { shard_id: 7, key: vec![1], value: vec![2] }]),
                2 => dest.begin_finish(),
                3 => dest.apply_finish(&mut src),
                4 => dest.begin_abort(),
                5 => dest.apply_abort(),
                _ => src.bump_epoch(),
            }
            rest /= kinds;
            assert!(!(src.owns_shard(7) && dest.owns_shard(7)));
            let in_flight = dest.collect_migration_state() != MigrationState::Idle;
            assert!(src.owns_shard(7) || dest.owns_shard(7));
            assert!(!(dest.owns_shard(7) && in_flight));
        }
        code += 1;
    }
}

#[test]
fn snapshot_round_trip_keeps_what_is_replicated() {
    let shard = ShardDesc { id: 7, collection_id: 1 };
    let replica = ReplicaDesc { id: 11, node_id: 1, role: ReplicaRole::Voter.to_i32() };
    let mut state = GroupState::new(GroupDesc { id: 1, epoch: 3, shards: vec![shard], replicas: vec![replica] });
    state.put(7, b"a".to_vec(), b"1".to_vec()).unwrap();
    state.put(7, b"b".to_vec(), b"2".to_vec()).unwrap();
    state.put(7, b"a".to_vec(), b"3".to_vec()).unwrap();
    state.flush(17);
    state.flush(12);
    assert_eq!(state.flushed_index(), 17);
    state.observe_epoch(9, 4);
    state.on_state_updated(11, 11, 2, RaftRole::Leader);

    let snapshot = state.create_snapshot();
    assert_eq!(snapshot.index, 17);
    assert_eq!(snapshot.data.len(), 3);

    let mut other = GroupState::new(GroupDesc { id: 1, epoch: 0, shards: vec![], replicas: vec![] });
    other.restore(&snapshot);
    assert_eq!(other.descriptor(), state.descriptor());
    assert_eq!(other.flushed_index(), 17);
    assert_eq!(other.get(7, &b"a".to_vec()), Ok(Some(b"3".to_vec())));
    assert_eq!(other.get(7, &b"b".to_vec()), Ok(Some(b"2".to_vec())));
    assert_eq!(other.get(7, &b"c".to_vec()), Ok(None));
    assert_eq!(other.shard_records(7), state.shard_records(7));
    assert_eq!(other.recorded_epoch(9), 4);
    // Who leads is not part of a snapshot.
    assert!(!other.is_leader());
    assert_eq!(other.create_snapshot(), snapshot);

    state.restore(&snapshot);
    assert!(state.is_leader());
    assert_eq!(state.create_snapshot(), snapshot);
}

#[test]
fn the_first_group_with_an_id_answers() {
    let shard = ShardDesc { id: 7, collection_id: 1 };
    let replica = ReplicaDesc { id: 21, node_id: 1, role: ReplicaRole::Voter.to_i32() };
    let desc = GroupDesc { id: 2, epoch: 0, shards: vec![], replicas: vec![replica] };
    let follower = GroupState::new(desc.clone());
    let mut leader = GroupState::new(desc.clone());
    leader.on_state_updated(21, 21, 1, RaftRole::Leader);
    leader.apply_prepare(AcceptShardRequest { src_group_id: 1, src_group_epoch: 0, shard_desc: shard });
    let req = AcceptShardRequest { src_group_id: 1, src_group_epoch: 0, shard_desc: shard };

    let mut node = engula::migration::Node::new();
    node.add_group(follower);
    node.add_group(leader);
    assert_eq!(node.find_group(2), Some(0));
    assert_eq!(node.accept_shard(2, req), Err(Error::NotLeader(2, None)));
    assert_eq!(node.collect_migration_state(2), Ok(MigrationState::Idle));
    node.take_group(0);
    assert!(node.accept_shard(2, req).is_ok());
    assert_eq!(node.collect_migration_state(2), Ok(MigrationState::Prepare));
}
