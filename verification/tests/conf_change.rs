use engula::metadata::{
    ChangeReplica, ChangeReplicaType, ChangeReplicas, GroupDesc, ReplicaDesc, ReplicaRole,
};
use engula::raftgroup::codec::{decode_change_replicas, encode_change_replicas};
use engula::raftgroup::conf::{
    all_supported, apply_change_replicas, decode_from_conf_change, encode_to_conf_change, remove_replica,
    try_decode_from_conf_change, try_encode_to_conf_change, ConfChangeTransition, ConfChangeType, ConfChangeV2,
};
use prost::encoding::{encode_key, encode_varint, encoded_len_varint, int32, uint64, WireType};
use engula::raftgroup::conf_state_from_group_descriptor;

#[test]
fn encode_maps_each_change_in_order() {
    let change = ChangeReplicas {
        changes: vec![
            ChangeReplica { change_type: ChangeReplicaType::Add.to_i32(), replica_id: 7, node_id: 1 },
            ChangeReplica { change_type: ChangeReplicaType::Remove.to_i32(), replica_id: 8, node_id: 2 },
            ChangeReplica { change_type: ChangeReplicaType::AddLearner.to_i32(), replica_id: 9, node_id: 3 },
        ],
    };
    let cc = encode_to_conf_change(change.clone());
    assert_eq!(cc.transition, ConfChangeTransition::Auto);
    assert_eq!(cc.changes.len(), 3);
    assert_eq!(cc.changes[0].change_type, ConfChangeType::AddNode);
    assert_eq!(cc.changes[0].node_id, 7);
    assert_eq!(cc.changes[1].change_type, ConfChangeType::RemoveNode);
    assert_eq!(cc.changes[1].node_id, 8);
    assert_eq!(cc.changes[2].change_type, ConfChangeType::AddLearnerNode);
    assert_eq!(cc.changes[2].node_id, 9);
    assert_eq!(
        cc.context,
        vec![0x0a, 4, 0x10, 7, 0x18, 1, 0x0a, 6, 0x08, 1, 0x10, 8, 0x18, 2, 0x0a, 6, 0x08, 2, 0x10, 9, 0x18, 3]
    );
    let back = decode_from_conf_change(&cc);
    assert_eq!(back.changes, change.changes);
}

#[test]
fn encode_of_an_empty_request_is_empty() {
    let cc = encode_to_conf_change(ChangeReplicas { changes: vec![] });
    assert_eq!(cc.transition, ConfChangeTransition::Auto);
    assert!(cc.changes.is_empty());
    assert!(cc.context.is_empty());
    assert!(decode_from_conf_change(&cc).changes.is_empty());
}

#[test]
fn wire_values_of_roles_and_kinds() {
    assert_eq!(ReplicaRole::from_i32(0), Some(ReplicaRole::Voter));
    assert_eq!(ReplicaRole::from_i32(1), Some(ReplicaRole::Learner));
    assert_eq!(ReplicaRole::from_i32(2), Some(ReplicaRole::IncomingVoter));
    assert_eq!(ReplicaRole::from_i32(3), Some(ReplicaRole::DemotingVoter));
    assert_eq!(ReplicaRole::from_i32(4), None);
    assert_eq!(ReplicaRole::from_i32(-1), None);
    assert_eq!(ReplicaRole::DemotingVoter.to_i32(), 3);
    assert_eq!(ChangeReplicaType::from_i32(0), Some(ChangeReplicaType::Add));
    assert_eq!(ChangeReplicaType::from_i32(1), Some(ChangeReplicaType::Remove));
    assert_eq!(ChangeReplicaType::from_i32(2), Some(ChangeReplicaType::AddLearner));
    assert_eq!(ChangeReplicaType::from_i32(3), None);
    assert_eq!(ChangeReplicaType::AddLearner.to_i32(), 2);
}

#[test]
fn conf_state_sorts_members_by_role() {
    let r = |id: u64, role: i32| ReplicaDesc { id, node_id: id, role };
    let desc = GroupDesc {
        id: 1,
        epoch: 0,
        shards: vec![],
        replicas: vec![r(1, 0), r(2, 1), r(3, 2), r(4, 3), r(5, 0), r(6, 77), r(7, 3)],
    };
    let cs = conf_state_from_group_descriptor(&desc);
    assert_eq!(cs.voters, vec![1, 3, 5, 6]);
    assert_eq!(cs.learners, vec![2]);
    assert_eq!(cs.voters_outgoing, vec![4, 7]);
    assert_eq!(cs.learners_next, vec![4, 7]);
    assert!(!cs.auto_leave);

    let plain = GroupDesc { id: 1, epoch: 0, shards: vec![], replicas: vec![r(1, 0), r(2, 1), r(3, 0)] };
    let cs = conf_state_from_group_descriptor(&plain);
    assert_eq!(cs.voters, vec![1, 3]);
    assert_eq!(cs.learners, vec![2]);
    assert!(cs.voters_outgoing.is_empty());
    assert!(cs.learners_next.is_empty());

    let empty = GroupDesc { id: 1, epoch: 0, shards: vec![], replicas: vec![] };
    let cs = conf_state_from_group_descriptor(&empty);
    assert!(cs.voters.is_empty() && cs.learners.is_empty());
}

#[test]
fn committed_changes_rewrite_the_members() {
    let r = |id: u64, node_id: u64, role: i32| ReplicaDesc { id, node_id, role };
    let members = vec![r(1, 10, 0), r(2, 20, 0), r(3, 30, 1)];
    assert_eq!(remove_replica(&members, 2), vec![r(1, 10, 0), r(3, 30, 1)]);
    assert_eq!(remove_replica(&members, 9), members);
    let c = |kind: i32, replica_id: u64, node_id: u64| ChangeReplica { change_type: kind, replica_id, node_id };
    let change = ChangeReplicas { changes: vec![c(0, 4, 40), c(2, 5, 50), c(1, 1, 10), c(0, 3, 31), c(9, 2, 0)] };
    assert_eq!(
        apply_change_replicas(&members, &change),
        vec![r(2, 20, 0), r(4, 40, 0), r(5, 50, 1), r(3, 31, 0)]
    );
}

/// The bytes that the field encoders of `prost` write for a request: the
/// changes as entries of field 1, each with its three numbers.
fn written_by_prost(change: &ChangeReplicas) -> Vec<u8> {
    let mut buf = Vec::new();
    for c in &change.changes {
        let mut len = 0;
        if c.change_type != 0 {
            len += 1 + encoded_len_varint(c.change_type as u64);
        }
        if c.replica_id != 0 {
            len += 1 + encoded_len_varint(c.replica_id);
        }
        if c.node_id != 0 {
            len += 1 + encoded_len_varint(c.node_id);
        }
        encode_key(1, WireType::LengthDelimited, &mut buf);
        encode_varint(len as u64, &mut buf);
        if c.change_type != 0 {
            int32::encode(1, &c.change_type, &mut buf);
        }
        if c.replica_id != 0 {
            uint64::encode(2, &c.replica_id, &mut buf);
        }
        if c.node_id != 0 {
            uint64::encode(3, &c.node_id, &mut buf);
        }
    }
    buf
}

fn sample_requests() -> Vec<ChangeReplicas> {
    let c = |change_type: i32, replica_id: u64, node_id: u64| ChangeReplica { change_type, replica_id, node_id };
    vec![
        ChangeReplicas { changes: vec![] },
        ChangeReplicas { changes: vec![c(0, 0, 0)] },
        ChangeReplicas { changes: vec![c(2, 4, 40)] },
        ChangeReplicas { changes: vec![c(1, 127, 128), c(0, 300, 16384), c(2, u64::MAX, 1 << 63)] },
        ChangeReplicas { changes: vec![c(-1, 1, 0), c(i32::MIN, 0, 2), c(i32::MAX, 1 << 35, 1 << 56)] },
        ChangeReplicas { changes: vec![c(0, 0, 0), c(0, 0, 0), c(7, 0, 0), c(0, 0, 9)] },
    ]
}

#[test]
fn the_wire_form_is_the_one_of_the_field_encoders() {
    for request in sample_requests() {
        assert_eq!(encode_change_replicas(&request), written_by_prost(&request));
    }
    let one = ChangeReplicas { changes: vec![ChangeReplica { change_type: 2, replica_id: 4, node_id: 40 }] };
    assert_eq!(encode_change_replicas(&one), vec![0x0a, 6, 0x08, 2, 0x10, 4, 0x18, 40]);
    let wide = ChangeReplicas { changes: vec![ChangeReplica { change_type: 0, replica_id: 300, node_id: 0 }] };
    assert_eq!(encode_change_replicas(&wide), vec![0x0a, 3, 0x10, 0xac, 0x02]);
}

#[test]
fn what_is_written_is_read_back() {
    for request in sample_requests() {
        let bytes = encode_change_replicas(&request);
        assert_eq!(decode_change_replicas(&bytes), Some(request));
    }
}

#[test]
fn fields_are_read_in_any_order_and_unknown_ones_skipped() {
    let expected = ChangeReplicas { changes: vec![ChangeReplica { change_type: 1, replica_id: 5, node_id: 6 }] };
    // node, replica, kind.
    assert_eq!(decode_change_replicas(&vec![0x0a, 6, 0x18, 6, 0x10, 5, 0x08, 1]), Some(expected.clone()));
    // The last of two values counts.
    assert_eq!(decode_change_replicas(&vec![0x0a, 8, 0x10, 9, 0x08, 1, 0x10, 5, 0x18, 6]), Some(expected.clone()));
    // A number written with more bytes than it needs.
    assert_eq!(decode_change_replicas(&vec![0x0a, 7, 0x08, 0x81, 0x00, 0x10, 5, 0x18, 6]), Some(expected.clone()));
    // Unknown fields inside a change: a number, eight bytes, a string, four bytes.
    let inner = vec![
        0x08, 1, 0x20, 0xff, 0x01, 0x29, 1, 2, 3, 4, 5, 6, 7, 8, 0x10, 5, 0x32, 2, b'h', b'i', 0x3d, 1, 2, 3, 4, 0x18,
        6,
    ];
    let mut bytes = vec![0x0a, inner.len() as u8];
    bytes.extend(inner);
    // And beside the changes.
    bytes.extend(vec![0x10, 7, 0x1a, 1, 0]);
    assert_eq!(decode_change_replicas(&bytes), Some(expected));
    // The kind keeps its low 32 bits.
    let kind = ChangeReplicas { changes: vec![ChangeReplica { change_type: -2, replica_id: 0, node_id: 0 }] };
    assert_eq!(
        decode_change_replicas(&vec![0x0a, 11, 0x08, 0xfe, 0xff, 0xff, 0xff, 0xff, 0xff, 0xff, 0xff, 0xff, 0x01]),
        Some(kind.clone())
    );
    assert_eq!(decode_change_replicas(&vec![0x0a, 6, 0x08, 0xfe, 0xff, 0xff, 0xff, 0x0f]), Some(kind));
}

#[test]
fn damaged_bytes_hold_no_request() {
    let damaged: Vec<Vec<u8>> = vec![
        vec![0x0a],
        vec![0x0a, 2, 0x10],
        vec![0x0a, 2, 0x10, 5, 0x18],
        vec![0x0a, 3, 0x10, 5],
        // The change ends inside a number.
        vec![0x0a, 2, 0x10, 0x80, 0x01],
        // The entries are no number.
        vec![0x08, 1],
        // A field of a change with the wrong wire type.
        vec![0x0a, 3, 0x12, 1, 0],
        // Tag zero.
        vec![0x00, 1],
        vec![0x0a, 2, 0x00, 1],
        // A number of eleven bytes, and one whose tenth byte is too large.
        vec![0x0a, 12, 0x08, 0x80, 0x80, 0x80, 0x80, 0x80, 0x80, 0x80, 0x80, 0x80, 0x80, 0x01],
        vec![0x0a, 11, 0x08, 0xff, 0xff, 0xff, 0xff, 0xff, 0xff, 0xff, 0xff, 0xff, 0x02],
        // A group.
        vec![0x0a, 2, 0x23, 0x24],
        vec![0x13],
        // A skipped field that runs over the end.
        vec![0x12, 5, 1],
        vec![0x0a, 3, 0x21, 1, 2],
    ];
    for bytes in damaged {
        assert_eq!(decode_change_replicas(&bytes), None, "{:?}", bytes);
        let cc = ConfChangeV2 { transition: ConfChangeTransition::Auto, changes: vec![], context: bytes };
        assert_eq!(try_decode_from_conf_change(&cc), None);
    }
}

#[test]
fn unknown_kinds_of_change_are_not_encoded() {
    let known = ChangeReplicas { changes: vec![ChangeReplica { change_type: 2, replica_id: 1, node_id: 1 }] };
    let unknown = ChangeReplicas {
        changes: vec![
            ChangeReplica { change_type: 0, replica_id: 1, node_id: 1 },
            ChangeReplica { change_type: 3, replica_id: 2, node_id: 2 },
        ],
    };
    assert!(all_supported(&known));
    assert!(!all_supported(&unknown));
    assert!(all_supported(&ChangeReplicas { changes: vec![] }));
    let cc = try_encode_to_conf_change(known.clone()).unwrap();
    assert_eq!(try_decode_from_conf_change(&cc), Some(known));
    assert_eq!(try_encode_to_conf_change(unknown), None);
}
