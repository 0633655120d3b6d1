//! Shard migration: moving a shard from a source group to a destination
//! group as a sequence of committed entries, fenced by the source's epoch.

use vstd::prelude::*;
use crate::error::Error;
use crate::metadata::{
    copy_vec, ChangeReplicas, GroupDesc, GroupDescView, RaftRole, ReplicaDesc, ShardDesc,
};
use crate::raftgroup::conf::{apply_change_replicas, members_after_all};

verus! {

/// How far a migration has come at its destination.
#[derive(Clone, Copy, Debug, PartialEq, Eq, Structural)]
pub enum MigrationState {
    /// No migration: none was started, or the last one finished or was
    /// aborted.
    Idle,
    /// The intent is committed; no data has arrived.
    Prepare,
    /// Data is arriving.
    Migrating,
    /// All data has arrived; the transfer of ownership is on its way.
    Finishing,
    /// The migration is being given up.
    Aborting,
}

/// What a destination group remembers of the migration it takes part in.
#[derive(Clone, Copy, Debug, PartialEq, Eq, Structural)]
pub struct MigrationRecord {
    pub src_group: u64,
    pub src_epoch: u64,
    pub dest_group: u64,
    pub shard_desc: ShardDesc,
    pub state: MigrationState,
}

/// The request to take over a shard from the group `src_group_id`, which
/// the caller saw at epoch `src_group_epoch`.
#[derive(Clone, Copy, Debug, PartialEq, Eq, Structural)]
pub struct AcceptShardRequest {
    pub src_group_id: u64,
    pub src_group_epoch: u64,
    pub shard_desc: ShardDesc,
}

/// The answer to an accepted request: the migration record that the
/// destination will commit.
#[derive(Clone, Copy, Debug, PartialEq, Eq, Structural)]
pub struct AcceptShardResponse {
    pub record: MigrationRecord,
}

/// One key and its value, in one shard.
#[derive(Debug, PartialEq, Eq)]
pub struct ShardRecord {
    pub shard_id: u64,
    pub key: Vec<u8>,
    pub value: Vec<u8>,
}

/// The mathematical content of a `ShardRecord`.
pub struct ShardRecordView {
    pub shard_id: u64,
    pub key: Seq<u8>,
    pub value: Seq<u8>,
}

impl View for ShardRecord {
    type V = ShardRecordView;

    open spec fn view(&self) -> ShardRecordView {
        ShardRecordView { shard_id: self.shard_id, key: self.key@, value: self.value@ }
    }
}

impl Clone for ShardRecord {
    fn clone(&self) -> (copy: ShardRecord)
        ensures
            copy@ == self@,
    {
        ShardRecord { shard_id: self.shard_id, key: copy_vec(&self.key), value: copy_vec(&self.value) }
    }
}

/// The contents of a list of records.
pub open spec fn views(records: Seq<ShardRecord>) -> Seq<ShardRecordView> {
    records.map_values(|r: ShardRecord| r@)
}

/// Copies a list of records.
pub fn copy_records(records: &Vec<ShardRecord>) -> (copy: Vec<ShardRecord>)
    ensures
        views(copy@) == views(records@),
{
    let mut copy: Vec<ShardRecord> = Vec::new();
    let mut i: usize = 0;
    while i < records.len()
        invariant
            i <= records.len(),
            views(copy@) == views(records@.take(i as int)),
        decreases records.len() - i,
    {
        let ghost before = copy@;
        copy.push(records[i].clone());
        assert(views(copy@) == views(before).push(records@[i as int]@));
        assert(records@.take(i + 1) == records@.take(i as int).push(records@[i as int]));
        i += 1;
    }
    assert(records@.take(records.len() as int) == records@);
    copy
}

/// The epoch of a source group as a destination last recorded it.
#[derive(Clone, Copy, Debug, PartialEq, Eq, Structural)]
pub struct RecordedEpoch {
    pub group_id: u64,
    pub epoch: u64,
}

/// The epoch recorded for `group_id`: that of its entry, and 0 if it has
/// none.
pub open spec fn recorded_epoch(epochs: Seq<RecordedEpoch>, group_id: u64) -> u64
    decreases epochs.len(),
{
    if epochs.len() == 0 {
        0
    } else if epochs.last().group_id == group_id {
        epochs.last().epoch
    } else {
        recorded_epoch(epochs.drop_last(), group_id)
    }
}


/// Filtering after appending one element filters the element.
pub proof fn lemma_filter_push<T>(items: Seq<T>, item: T, pred: spec_fn(T) -> bool)
    ensures
        items.push(item).filter(pred) == if pred(item) {
            items.filter(pred).push(item)
        } else {
            items.filter(pred)
        },
{
    reveal(Seq::filter);
    assert(items.push(item).drop_last() == items);
}

/// The shards that are left when the shard `shard_id` is taken away.
pub open spec fn without_shard(shards: Seq<ShardDesc>, shard_id: u64) -> Seq<ShardDesc> {
    shards.filter(|s: ShardDesc| s.id != shard_id)
}

/// The records that are left when those of the shard `shard_id` are taken
/// away.
pub open spec fn without_records(records: Seq<ShardRecordView>, shard_id: u64) -> Seq<ShardRecordView> {
    records.filter(|r: ShardRecordView| r.shard_id != shard_id)
}

/// Taking a shard away takes exactly that shard away.
pub proof fn lemma_without_shard(shards: Seq<ShardDesc>, shard_id: u64, other: u64)
    ensures
        (exists|i: int|
            0 <= i < without_shard(shards, shard_id).len() && (#[trigger] without_shard(
                shards,
                shard_id,
            )[i]).id == other) <==> (other != shard_id && exists|i: int|
            0 <= i < shards.len() && (#[trigger] shards[i]).id == other),
    decreases shards.len(),
{
    reveal(Seq::filter);
    let pred = |s: ShardDesc| s.id != shard_id;
    let left = without_shard(shards, shard_id);
    if shards.len() > 0 {
        let front = shards.drop_last();
        let front_left = without_shard(front, shard_id);
        lemma_without_shard(front, shard_id, other);
        if exists|i: int| 0 <= i < left.len() && (#[trigger] left[i]).id == other {
            let i = choose|i: int| 0 <= i < left.len() && (#[trigger] left[i]).id == other;
            if i < front_left.len() {
                assert(front_left[i].id == other);
                let j = choose|j: int| 0 <= j < front.len() && (#[trigger] front[j]).id == other;
                assert(shards[j].id == other);
            } else {
                assert(shards[shards.len() - 1].id == other);
            }
        }
        if other != shard_id && exists|i: int| 0 <= i < shards.len() && (#[trigger] shards[i]).id == other {
            let i = choose|i: int| 0 <= i < shards.len() && (#[trigger] shards[i]).id == other;
            if i < front.len() {
                assert(front[i].id == other);
                let j = choose|j: int| 0 <= j < front_left.len() && (#[trigger] front_left[j]).id == other;
                assert(left[j].id == other);
            } else {
                assert(left[left.len() - 1].id == other);
            }
        }
    }
}

/// The record of a destination that takes part in no migration.
pub open spec fn idle_record(dest_group: u64) -> MigrationRecord {
    MigrationRecord {
        src_group: 0,
        src_epoch: 0,
        dest_group,
        shard_desc: ShardDesc { id: 0, collection_id: 0 },
        state: MigrationState::Idle,
    }
}

/// The replicated state of one group: its descriptor, the records of its
/// shards, and what it knows of the migration it takes part in.
pub struct GroupStateView {
    pub desc: GroupDescView,
    pub flushed_index: u64,
    pub data: Seq<ShardRecordView>,
    pub staged: Seq<ShardRecordView>,
    pub record: MigrationRecord,
    pub epochs: Seq<RecordedEpoch>,
    pub role: RaftRole,
    pub leader: Option<ReplicaDesc>,
}

impl GroupStateView {
    /// Whether a migration is under way that can still go either way.
    pub open spec fn in_progress(self) -> bool {
        self.record.state == MigrationState::Prepare || self.record.state == MigrationState::Migrating
            || self.record.state == MigrationState::Finishing
    }

    /// Whether the epoch `epoch` is behind what is recorded for `group_id`.
    pub open spec fn is_stale(self, group_id: u64, epoch: u64) -> bool {
        epoch < recorded_epoch(self.epochs, group_id)
    }

    /// The state after `epoch` was recorded for `group_id`, unless a later
    /// epoch is recorded already.
    pub open spec fn with_epoch(self, group_id: u64, epoch: u64) -> GroupStateView {
        if epoch > recorded_epoch(self.epochs, group_id) {
            GroupStateView { epochs: self.epochs.push(RecordedEpoch { group_id, epoch }), ..self }
        } else {
            self
        }
    }

    /// The state of a destination after a committed `Prepare`. The entry
    /// takes effect if no migration is under way, the epoch is not behind
    /// and the group does not own the shard yet; otherwise it is a
    /// duplicate or comes too late, and changes nothing.
    pub open spec fn after_prepare(self, request: AcceptShardRequest) -> GroupStateView {
        if self.record.state == MigrationState::Idle && !self.is_stale(
            request.src_group_id,
            request.src_group_epoch,
        ) && !self.desc.owns_shard(request.shard_desc.id) {
            GroupStateView {
                record: MigrationRecord {
                    src_group: request.src_group_id,
                    src_epoch: request.src_group_epoch,
                    dest_group: self.desc.id,
                    shard_desc: request.shard_desc,
                    state: MigrationState::Prepare,
                },
                ..self.with_epoch(request.src_group_id, request.src_group_epoch)
            }
        } else {
            self
        }
    }

    /// The state of a destination after a committed batch of data: the
    /// records are kept aside until ownership moves. A batch that belongs
    /// to no migration changes nothing.
    pub open spec fn after_batch(self, records: Seq<ShardRecordView>) -> GroupStateView {
        if self.record.state == MigrationState::Prepare || self.record.state == MigrationState::Migrating {
            GroupStateView {
                staged: self.staged + records,
                record: MigrationRecord { state: MigrationState::Migrating, ..self.record },
                ..self
            }
        } else {
            self
        }
    }

    /// The state of a destination after a committed `Abort`: what was
    /// pulled is released and the group takes part in no migration.
    pub open spec fn after_abort(self) -> GroupStateView {
        if self.record.state == MigrationState::Idle {
            self
        } else {
            GroupStateView { staged: Seq::empty(), record: idle_record(self.desc.id), ..self }
        }
    }

    /// The state after the leader decided to finish: all data is there.
    pub open spec fn after_begin_finish(self) -> GroupStateView {
        if self.record.state == MigrationState::Prepare || self.record.state == MigrationState::Migrating {
            GroupStateView { record: MigrationRecord { state: MigrationState::Finishing, ..self.record }, ..self }
        } else {
            self
        }
    }

    /// The state after the leader decided to give the migration up.
    pub open spec fn after_begin_abort(self) -> GroupStateView {
        if self.in_progress() {
            GroupStateView { record: MigrationRecord { state: MigrationState::Aborting, ..self.record }, ..self }
        } else {
            self
        }
    }

    /// The state of a group after a change of its membership or shards was
    /// committed: the epoch moves on.
    pub open spec fn after_epoch_bump(self) -> GroupStateView {
        if self.desc.epoch < u64::MAX {
            GroupStateView { desc: GroupDescView { epoch: (self.desc.epoch + 1) as u64, ..self.desc }, ..self }
        } else {
            self
        }
    }
}

/// Whether a committed `Finish` at `dest` can move ownership: `dest` is in
/// a migration from `source`, `source` is still at the epoch that the
/// migration was started with and still owns the shard, `dest` does not own
/// it, and both epochs can move on.
pub open spec fn can_finish(source: GroupStateView, dest: GroupStateView) -> bool {
    &&& dest.in_progress()
    &&& dest.record.src_group == source.desc.id
    &&& dest.record.src_epoch == source.desc.epoch
    &&& source.desc.owns_shard(dest.record.shard_desc.id)
    &&& !dest.desc.owns_shard(dest.record.shard_desc.id)
    &&& source.desc.epoch < u64::MAX
    &&& dest.desc.epoch < u64::MAX
}

/// The source after a committed `Finish`: where ownership moves, the shard
/// and its records leave and the epoch moves on.
pub open spec fn source_after_finish(source: GroupStateView, dest: GroupStateView) -> GroupStateView {
    if can_finish(source, dest) {
        GroupStateView {
            desc: GroupDescView {
                epoch: (source.desc.epoch + 1) as u64,
                shards: without_shard(source.desc.shards, dest.record.shard_desc.id),
                ..source.desc
            },
            data: without_records(source.data, dest.record.shard_desc.id),
            ..source
        }
    } else {
        source
    }
}

/// The destination after a committed `Finish`: where ownership moves, the
/// shard joins the descriptor, what was pulled becomes its records, the
/// epoch moves on and the migration is over. Where it cannot move any
/// more, a migration that is under way turns to aborting.
pub open spec fn dest_after_finish(source: GroupStateView, dest: GroupStateView) -> GroupStateView {
    if can_finish(source, dest) {
        GroupStateView {
            desc: GroupDescView {
                epoch: (dest.desc.epoch + 1) as u64,
                shards: dest.desc.shards.push(dest.record.shard_desc),
                ..dest.desc
            },
            data: dest.data + dest.staged,
            staged: Seq::empty(),
            record: idle_record(dest.desc.id),
            ..dest
        }
    } else {
        dest.after_begin_abort()
    }
}

/// Whether no shard is listed by both groups.
pub open spec fn exclusive(source: GroupStateView, dest: GroupStateView) -> bool {
    forall|shard_id: u64| !(source.desc.owns_shard(shard_id) && dest.desc.owns_shard(shard_id))
}

/// One step of a migration between a source and a destination, as the two
/// groups commit it.
pub enum MigrationStep {
    Prepare(AcceptShardRequest),
    Batch(Seq<ShardRecordView>),
    BeginFinish,
    Finish,
    BeginAbort,
    Abort,
    /// The source commits a change of its own, which moves its epoch on.
    SourceChanged,
    /// The destination commits a change of its own.
    DestChanged,
}

/// The two groups after one step.
pub open spec fn after_step(source: GroupStateView, dest: GroupStateView, step: MigrationStep) -> (
    GroupStateView,
    GroupStateView,
) {
    match step {
        MigrationStep::Prepare(request) => (source, dest.after_prepare(request)),
        MigrationStep::Batch(records) => (source, dest.after_batch(records)),
        MigrationStep::BeginFinish => (source, dest.after_begin_finish()),
        MigrationStep::Finish => (source_after_finish(source, dest), dest_after_finish(source, dest)),
        MigrationStep::BeginAbort => (source, dest.after_begin_abort()),
        MigrationStep::Abort => (source, dest.after_abort()),
        MigrationStep::SourceChanged => (source.after_epoch_bump(), dest),
        MigrationStep::DestChanged => (source, dest.after_epoch_bump()),
    }
}

/// The two groups after a sequence of steps.
pub open spec fn after_steps(source: GroupStateView, dest: GroupStateView, steps: Seq<MigrationStep>) -> (
    GroupStateView,
    GroupStateView,
)
    decreases steps.len(),
{
    if steps.len() == 0 {
        (source, dest)
    } else {
        let (s, d) = after_steps(source, dest, steps.drop_last());
        after_step(s, d, steps.last())
    }
}

/// No step makes two groups own one shard.
pub proof fn lemma_step_keeps_exclusive(source: GroupStateView, dest: GroupStateView, step: MigrationStep)
    requires
        exclusive(source, dest),
    ensures
        exclusive(after_step(source, dest, step).0, after_step(source, dest, step).1),
{
    let (s, d) = after_step(source, dest, step);
    match step {
        MigrationStep::Finish => {
            if can_finish(source, dest) {
                let moved = dest.record.shard_desc.id;
                assert forall|shard_id: u64| !(s.desc.owns_shard(shard_id) && d.desc.owns_shard(shard_id)) by {
                    lemma_without_shard(source.desc.shards, moved, shard_id);
                    if s.desc.owns_shard(shard_id) && d.desc.owns_shard(shard_id) {
                        assert(source.desc.owns_shard(shard_id));
                        let i = choose|i: int| 0 <= i < d.desc.shards.len() && (#[trigger] d.desc.shards[i]).id == shard_id;
                        assert(i < dest.desc.shards.len());
                        assert(dest.desc.shards[i].id == shard_id);
                        assert(dest.desc.owns_shard(shard_id));
                    }
                }
            }
        },
        _ => {},
    }
}

/// Migration safety: whatever steps the two groups commit, in whatever
/// order, at no point do both descriptors list the same shard.
pub proof fn lemma_migration_safety(source: GroupStateView, dest: GroupStateView, steps: Seq<MigrationStep>)
    requires
        exclusive(source, dest),
    ensures
        exclusive(after_steps(source, dest, steps).0, after_steps(source, dest, steps).1),
    decreases steps.len(),
{
    if steps.len() > 0 {
        lemma_migration_safety(source, dest, steps.drop_last());
        let (s, d) = after_steps(source, dest, steps.drop_last());
        lemma_step_keeps_exclusive(s, d, steps.last());
    }
}

/// A shard always has an owner or is on its way: a committed `Finish` that
/// takes the shard from the source gives it to the destination.
pub proof fn lemma_finish_moves_ownership(source: GroupStateView, dest: GroupStateView)
    requires
        can_finish(source, dest),
    ensures
        !source_after_finish(source, dest).desc.owns_shard(dest.record.shard_desc.id),
        dest_after_finish(source, dest).desc.owns_shard(dest.record.shard_desc.id),
        dest_after_finish(source, dest).record.state == MigrationState::Idle,
        source_after_finish(source, dest).desc.epoch == source.desc.epoch + 1,
        dest_after_finish(source, dest).desc.epoch == dest.desc.epoch + 1,
{
    let moved = dest.record.shard_desc.id;
    lemma_without_shard(source.desc.shards, moved, moved);
    let d = dest_after_finish(source, dest);
    assert(d.desc.shards[d.desc.shards.len() - 1].id == moved);
}


/// Whether `result` is the answer of `group` to the request to take over a
/// shard: `EpochNotMatch` with the group's descriptor if the epoch of the
/// request is behind the one recorded for the source; else `NotLeader` with
/// the group's id and leader hint if the replica does not lead; else the
/// record to commit.
pub open spec fn accept_outcome(
    group: GroupStateView,
    request: AcceptShardRequest,
    result: Result<AcceptShardResponse, Error>,
) -> bool {
    if group.is_stale(request.src_group_id, request.src_group_epoch) {
        result matches Err(Error::EpochNotMatch(desc)) && desc@ == group.desc
    } else if group.role != RaftRole::Leader {
        result matches Err(Error::NotLeader(group_id, hint)) && group_id == group.desc.id && hint == group.leader
    } else {
        result matches Ok(response) && response.record == (MigrationRecord {
            src_group: request.src_group_id,
            src_epoch: request.src_group_epoch,
            dest_group: group.desc.id,
            shard_desc: request.shard_desc,
            state: MigrationState::Prepare,
        })
    }
}

/// The destination after a run of committed batches of data.
pub open spec fn after_batches(dest: GroupStateView, batches: Seq<Seq<ShardRecordView>>) -> GroupStateView
    decreases batches.len(),
{
    if batches.len() == 0 {
        dest
    } else {
        after_batches(dest, batches.drop_last()).after_batch(batches.last())
    }
}

/// Batches of data change nothing of a migration but what was pulled and
/// that data has arrived.
pub proof fn lemma_batches_keep_the_migration(dest: GroupStateView, batches: Seq<Seq<ShardRecordView>>)
    requires
        dest.record.state == MigrationState::Prepare || dest.record.state == MigrationState::Migrating,
    ensures
        after_batches(dest, batches).desc == dest.desc,
        after_batches(dest, batches).epochs == dest.epochs,
        after_batches(dest, batches).record.src_group == dest.record.src_group,
        after_batches(dest, batches).record.src_epoch == dest.record.src_epoch,
        after_batches(dest, batches).record.shard_desc == dest.record.shard_desc,
        after_batches(dest, batches).record.state == MigrationState::Prepare || after_batches(
            dest,
            batches,
        ).record.state == MigrationState::Migrating,
    decreases batches.len(),
{
    if batches.len() > 0 {
        lemma_batches_keep_the_migration(dest, batches.drop_last());
    }
}

/// A shard that is accepted arrives: if the source lists the shard, the
/// destination does not, takes part in no migration and has recorded no
/// later epoch of the source, then after the committed `Prepare` for the
/// source's current epoch, any batches of data and the committed `Finish`,
/// the destination lists the shard, the source does not, and the migration
/// is over. Both epochs have to be below the largest one, so that they can
/// move on.
pub proof fn lemma_accepted_shard_arrives(
    source: GroupStateView,
    dest: GroupStateView,
    shard_desc: ShardDesc,
    batches: Seq<Seq<ShardRecordView>>,
)
    requires
        source.desc.owns_shard(shard_desc.id),
        !dest.desc.owns_shard(shard_desc.id),
        dest.record.state == MigrationState::Idle,
        !dest.is_stale(source.desc.id, source.desc.epoch),
        source.desc.epoch < u64::MAX,
        dest.desc.epoch < u64::MAX,
    ensures
        ({
            let request = AcceptShardRequest {
                src_group_id: source.desc.id,
                src_group_epoch: source.desc.epoch,
                shard_desc,
            };
            let pulled = after_batches(dest.after_prepare(request), batches);
            &&& dest_after_finish(source, pulled).desc.owns_shard(shard_desc.id)
            &&& !source_after_finish(source, pulled).desc.owns_shard(shard_desc.id)
            &&& dest_after_finish(source, pulled).record.state == MigrationState::Idle
        }),
{
    let request = AcceptShardRequest { src_group_id: source.desc.id, src_group_epoch: source.desc.epoch, shard_desc };
    let prepared = dest.after_prepare(request);
    lemma_batches_keep_the_migration(prepared, batches);
    let pulled = after_batches(prepared, batches);
    assert(can_finish(source, pulled));
    lemma_finish_moves_ownership(source, pulled);
}

/// The state of a group that was just created from its descriptor: it
/// holds no records, takes part in no migration, has recorded no epochs
/// and follows an unknown leader.
pub open spec fn initial_state(desc: GroupDescView) -> GroupStateView {
    GroupStateView {
        desc,
        flushed_index: 0,
        data: Seq::empty(),
        staged: Seq::empty(),
        record: idle_record(desc.id),
        epochs: Seq::empty(),
        role: RaftRole::Follower,
        leader: None,
    }
}

/// The first replica with the id `id`, if there is one.
pub open spec fn replica_with_id(replicas: Seq<ReplicaDesc>, id: u64) -> Option<ReplicaDesc>
    decreases replicas.len(),
{
    if replicas.len() == 0 {
        None
    } else if replicas[0].id == id {
        Some(replicas[0])
    } else {
        replica_with_id(replicas.subrange(1, replicas.len() as int), id)
    }
}

/// The replicated state of one group, with the migration it takes part in
/// as a destination.
pub struct GroupState {
    desc: GroupDesc,
    flushed_index: u64,
    data: Vec<ShardRecord>,
    staged: Vec<ShardRecord>,
    record: MigrationRecord,
    epochs: Vec<RecordedEpoch>,
    role: RaftRole,
    leader: Option<ReplicaDesc>,
}

impl View for GroupState {
    type V = GroupStateView;

    closed spec fn view(&self) -> GroupStateView {
        GroupStateView {
            desc: self.desc@,
            flushed_index: self.flushed_index,
            data: views(self.data@),
            staged: views(self.staged@),
            record: self.record,
            epochs: self.epochs@,
            role: self.role,
            leader: self.leader,
        }
    }
}

impl GroupState {
    /// The state of a new group with the descriptor `desc`.
    pub fn new(desc: GroupDesc) -> (state: GroupState)
        ensures
            state@ == initial_state(desc@),
    {
        let record = MigrationRecord {
            src_group: 0,
            src_epoch: 0,
            dest_group: desc.id,
            shard_desc: ShardDesc { id: 0, collection_id: 0 },
            state: MigrationState::Idle,
        };
        let state = GroupState {
            desc,
            flushed_index: 0,
            data: Vec::new(),
            staged: Vec::new(),
            record,
            epochs: Vec::new(),
            role: RaftRole::Follower,
            leader: None,
        };
        assert(views(state.data@) == Seq::<ShardRecordView>::empty());
        assert(views(state.staged@) == Seq::<ShardRecordView>::empty());
        state
    }

    /// The current descriptor.
    pub fn descriptor(&self) -> (desc: GroupDesc)
        ensures
            desc@ == self@.desc,
    {
        self.desc.clone()
    }

    /// The current epoch.
    pub fn epoch(&self) -> (epoch: u64)
        ensures
            epoch == self@.desc.epoch,
    {
        self.desc.epoch
    }

    /// The highest index whose effects are durable.
    pub fn flushed_index(&self) -> (index: u64)
        ensures
            index == self@.flushed_index,
    {
        self.flushed_index
    }

    /// Records that the effects of every entry up to `index` are durable.
    /// The watermark never moves back.
    pub fn flush(&mut self, index: u64)
        ensures
            final(self)@ == (GroupStateView {
                flushed_index: if index > old(self)@.flushed_index {
                    index
                } else {
                    old(self)@.flushed_index
                },
                ..old(self)@
            }),
    {
        if index > self.flushed_index {
            self.flushed_index = index;
        }
    }

    /// Whether the group lists the shard `shard_id`.
    pub fn owns_shard(&self, shard_id: u64) -> (owned: bool)
        ensures
            owned == self@.desc.owns_shard(shard_id),
    {
        self.desc.owns_shard(shard_id)
    }

    /// Whether this replica leads the group.
    pub fn is_leader(&self) -> (leader: bool)
        ensures
            leader == (self@.role == RaftRole::Leader),
    {
        match self.role {
            RaftRole::Leader => true,
            _ => false,
        }
    }

    /// Takes note of a change of role or term: the role is the new role and
    /// the leader hint is the member with the id `leader_id`, if the
    /// descriptor lists one.
    pub fn on_state_updated(&mut self, leader_id: u64, voted_for: u64, term: u64, role: RaftRole)
        ensures
            final(self)@ == (GroupStateView {
                role,
                leader: replica_with_id(old(self)@.desc.replicas, leader_id),
                ..old(self)@
            }),
    {
        self.role = role;
        let mut leader: Option<ReplicaDesc> = None;
        let mut i: usize = 0;
        let ghost replicas = self.desc.replicas@;
        assert(replicas.subrange(0, replicas.len() as int) == replicas);
        while i < self.desc.replicas.len()
            invariant_except_break
                leader is None,
                replica_with_id(replicas, leader_id) == replica_with_id(
                    replicas.subrange(i as int, replicas.len() as int),
                    leader_id,
                ),
            invariant
                i <= self.desc.replicas.len(),
                replicas == self.desc.replicas@,
            ensures
                leader == replica_with_id(replicas, leader_id),
            decreases self.desc.replicas.len() - i,
        {
            let ghost rest = replicas.subrange(i as int, replicas.len() as int);
            assert(rest[0] == replicas[i as int]);
            assert(rest.subrange(1, rest.len() as int) == replicas.subrange(i + 1, replicas.len() as int));
            if self.desc.replicas[i].id == leader_id {
                leader = Some(self.desc.replicas[i]);
                break;
            }
            i += 1;
        }
        self.leader = leader;
    }

    /// The epoch recorded for the group `group_id`, and 0 if none is.
    pub fn recorded_epoch(&self, group_id: u64) -> (epoch: u64)
        ensures
            epoch == recorded_epoch(self@.epochs, group_id),
    {
        let mut i: usize = self.epochs.len();
        assert(self.epochs@.take(i as int) == self.epochs@);
        while i > 0
            invariant
                i <= self.epochs.len(),
                recorded_epoch(self.epochs@, group_id) == recorded_epoch(self.epochs@.take(i as int), group_id),
            decreases i,
        {
            assert(self.epochs@.take(i as int).drop_last() == self.epochs@.take(i - 1));
            if self.epochs[i - 1].group_id == group_id {
                return self.epochs[i - 1].epoch;
            }
            i -= 1;
        }
        0
    }

    /// Records the epoch `epoch` for the group `group_id`, unless a later
    /// one is recorded, and tells whether the migration that is under way
    /// has to be given up because its source has moved on.
    pub fn observe_epoch(&mut self, group_id: u64, epoch: u64) -> (moved_on: bool)
        ensures
            final(self)@ == old(self)@.with_epoch(group_id, epoch),
            moved_on == (old(self)@.in_progress() && old(self)@.record.src_group == group_id
                && old(self)@.record.src_epoch < epoch),
    {
        if epoch > self.recorded_epoch(group_id) {
            self.epochs.push(RecordedEpoch { group_id, epoch });
        }
        let in_progress = match self.record.state {
            MigrationState::Prepare => true,
            MigrationState::Migrating => true,
            MigrationState::Finishing => true,
            _ => false,
        };
        in_progress && self.record.src_group == group_id && self.record.src_epoch < epoch
    }

    /// Decides whether the group takes over a shard. A request whose epoch
    /// is behind the one recorded for the source is refused with
    /// `EpochNotMatch`, whoever asks; otherwise a replica that does not
    /// lead refuses with `NotLeader`; otherwise the request is accepted and
    /// the answer holds the record to commit.
    pub fn accept_shard(&self, request: AcceptShardRequest) -> (result: Result<AcceptShardResponse, Error>)
        ensures
            (result matches Err(Error::EpochNotMatch(_))) <==> self@.is_stale(
                request.src_group_id,
                request.src_group_epoch,
            ),
            accept_outcome(self@, request, result),
    {
        if request.src_group_epoch < self.recorded_epoch(request.src_group_id) {
            return Err(Error::EpochNotMatch(self.desc.clone()));
        }
        if !self.is_leader() {
            return Err(Error::NotLeader(self.desc.id, self.leader));
        }
        Ok(
            AcceptShardResponse {
                record: MigrationRecord {
                    src_group: request.src_group_id,
                    src_epoch: request.src_group_epoch,
                    dest_group: self.desc.id,
                    shard_desc: request.shard_desc,
                    state: MigrationState::Prepare,
                },
            },
        )
    }

    /// How far the migration has come.
    pub fn collect_migration_state(&self) -> (state: MigrationState)
        ensures
            state == self@.record.state,
    {
        self.record.state
    }

    /// What the group remembers of its migration.
    pub fn migration_record(&self) -> (record: MigrationRecord)
        ensures
            record == self@.record,
    {
        self.record
    }

    /// Applies a committed `Prepare`.
    pub fn apply_prepare(&mut self, request: AcceptShardRequest)
        ensures
            final(self)@ == old(self)@.after_prepare(request),
    {
        let idle = match self.record.state {
            MigrationState::Idle => true,
            _ => false,
        };
        if idle && request.src_group_epoch >= self.recorded_epoch(request.src_group_id)
            && !self.desc.owns_shard(request.shard_desc.id) {
            if request.src_group_epoch > self.recorded_epoch(request.src_group_id) {
                self.epochs.push(
                    RecordedEpoch { group_id: request.src_group_id, epoch: request.src_group_epoch },
                );
            }
            self.record = MigrationRecord {
                src_group: request.src_group_id,
                src_epoch: request.src_group_epoch,
                dest_group: self.desc.id,
                shard_desc: request.shard_desc,
                state: MigrationState::Prepare,
            };
        }
    }

    /// Applies a committed batch of pulled data.
    pub fn apply_batch(&mut self, records: Vec<ShardRecord>)
        ensures
            final(self)@ == old(self)@.after_batch(views(records@)),
    {
        let receiving = match self.record.state {
            MigrationState::Prepare => true,
            MigrationState::Migrating => true,
            _ => false,
        };
        if receiving {
            let mut records = records;
            let ghost before = self.staged@;
            let ghost added = records@;
            self.staged.append(&mut records);
            assert(views(before + added) == views(before) + views(added));
            self.record.state = MigrationState::Migrating;
        }
    }

    /// Marks the migration as finishing: all data is there.
    pub fn begin_finish(&mut self)
        ensures
            final(self)@ == old(self)@.after_begin_finish(),
    {
        match self.record.state {
            MigrationState::Prepare => {
                self.record.state = MigrationState::Finishing;
            },
            MigrationState::Migrating => {
                self.record.state = MigrationState::Finishing;
            },
            _ => {},
        }
    }

    /// Marks the migration as being given up.
    pub fn begin_abort(&mut self)
        ensures
            final(self)@ == old(self)@.after_begin_abort(),
    {
        match self.record.state {
            MigrationState::Prepare => {
                self.record.state = MigrationState::Aborting;
            },
            MigrationState::Migrating => {
                self.record.state = MigrationState::Aborting;
            },
            MigrationState::Finishing => {
                self.record.state = MigrationState::Aborting;
            },
            _ => {},
        }
    }

    /// Applies a committed `Abort`.
    pub fn apply_abort(&mut self)
        ensures
            final(self)@ == old(self)@.after_abort(),
    {
        match self.record.state {
            MigrationState::Idle => {},
            _ => {
                self.staged = Vec::new();
                self.record = MigrationRecord {
                    src_group: 0,
                    src_epoch: 0,
                    dest_group: self.desc.id,
                    shard_desc: ShardDesc { id: 0, collection_id: 0 },
                    state: MigrationState::Idle,
                };
                assert(views(self.staged@) == Seq::<ShardRecordView>::empty());
            },
        }
    }

    /// Applies a committed change of the group's own membership or shards:
    /// the epoch moves on.
    pub fn bump_epoch(&mut self)
        ensures
            final(self)@ == old(self)@.after_epoch_bump(),
    {
        if self.desc.epoch < u64::MAX {
            self.desc.epoch = self.desc.epoch + 1;
        }
    }

    /// Applies a committed membership change: the members change as the
    /// request says and the epoch moves on. At the last epoch nothing
    /// changes.
    pub fn apply_conf_change(&mut self, change: &ChangeReplicas)
        ensures
            final(self)@ == if old(self)@.desc.epoch < u64::MAX {
                GroupStateView {
                    desc: GroupDescView {
                        epoch: (old(self)@.desc.epoch + 1) as u64,
                        replicas: members_after_all(old(self)@.desc.replicas, change@),
                        ..old(self)@.desc
                    },
                    ..old(self)@
                }
            } else {
                old(self)@
            },
    {
        if self.desc.epoch < u64::MAX {
            self.desc.replicas = apply_change_replicas(&self.desc.replicas, change);
            self.desc.epoch = self.desc.epoch + 1;
        }
    }

    /// Applies a committed `Finish` to the destination (`self`) and the
    /// source at once. Either ownership of the shard moves, with what was
    /// pulled, and both epochs move on, or neither group's descriptor
    /// changes and a migration that is under way turns to aborting.
    pub fn apply_finish(&mut self, source: &mut GroupState)
        ensures
            final(source)@ == source_after_finish(old(source)@, old(self)@),
            final(self)@ == dest_after_finish(old(source)@, old(self)@),
    {
        let in_progress = match self.record.state {
            MigrationState::Prepare => true,
            MigrationState::Migrating => true,
            MigrationState::Finishing => true,
            _ => false,
        };
        let shard = self.record.shard_desc;
        if in_progress && self.record.src_group == source.desc.id && self.record.src_epoch
            == source.desc.epoch && source.desc.owns_shard(shard.id) && !self.desc.owns_shard(shard.id)
            && source.desc.epoch < u64::MAX && self.desc.epoch < u64::MAX {
            let ghost keeps_shard = |s: ShardDesc| s.id != shard.id;
            let ghost keeps_record = |r: ShardRecordView| r.shard_id != shard.id;
            let mut shards: Vec<ShardDesc> = Vec::new();
            let mut i: usize = 0;
            assert(source.desc.shards@.take(0).filter(keeps_shard) == Seq::<ShardDesc>::empty());
            while i < source.desc.shards.len()
                invariant
                    i <= source.desc.shards.len(),
                    source.desc.shards@ == old(source).desc.shards@,
                    keeps_shard == |s: ShardDesc| s.id != shard.id,
                    shards@ == source.desc.shards@.take(i as int).filter(keeps_shard),
                decreases source.desc.shards.len() - i,
            {
                let s = source.desc.shards[i];
                proof {
                    assert(source.desc.shards@.take(i + 1) == source.desc.shards@.take(i as int).push(s));
                    lemma_filter_push(source.desc.shards@.take(i as int), s, keeps_shard);
                }
                if s.id != shard.id {
                    shards.push(s);
                }
                i += 1;
            }
            assert(source.desc.shards@.take(source.desc.shards.len() as int) == source.desc.shards@);
            let mut kept: Vec<ShardRecord> = Vec::new();
            let mut j: usize = 0;
            assert(views(source.data@.take(0)).filter(keeps_record) == Seq::<ShardRecordView>::empty());
            while j < source.data.len()
                invariant
                    j <= source.data.len(),
                    source.data@ == old(source).data@,
                    keeps_record == |r: ShardRecordView| r.shard_id != shard.id,
                    views(kept@) == views(source.data@.take(j as int)).filter(keeps_record),
                decreases source.data.len() - j,
            {
                proof {
                    let r = source.data@[j as int];
                    assert(source.data@.take(j + 1) == source.data@.take(j as int).push(r));
                    assert(views(source.data@.take(j + 1)) == views(source.data@.take(j as int)).push(r@));
                    lemma_filter_push(views(source.data@.take(j as int)), r@, keeps_record);
                }
                if source.data[j].shard_id != shard.id {
                    let ghost before = kept@;
                    kept.push(source.data[j].clone());
                    assert(views(kept@) == views(before).push(source.data@[j as int]@));
                }
                j += 1;
            }
            assert(source.data@.take(source.data.len() as int) == source.data@);
            source.desc.shards = shards;
            source.desc.epoch = source.desc.epoch + 1;
            source.data = kept;
            self.desc.shards.push(shard);
            self.desc.epoch = self.desc.epoch + 1;
            let ghost data = self.data@;
            let ghost staged = self.staged@;
            self.data.append(&mut self.staged);
            assert(views(data + staged) == views(data) + views(staged));
            assert(views(self.staged@) == Seq::<ShardRecordView>::empty());
            self.record = MigrationRecord {
                src_group: 0,
                src_epoch: 0,
                dest_group: self.desc.id,
                shard_desc: ShardDesc { id: 0, collection_id: 0 },
                state: MigrationState::Idle,
            };
        } else {
            self.begin_abort();
        }
    }

    /// Stores a value under a key of a shard. A group that does not list
    /// the shard refuses with `InvalidArgument`.
    pub fn put(&mut self, shard_id: u64, key: Vec<u8>, value: Vec<u8>) -> (result: Result<(), Error>)
        ensures
            match result {
                Ok(()) => old(self)@.desc.owns_shard(shard_id) && final(self)@ == (GroupStateView {
                    data: old(self)@.data.push(ShardRecordView { shard_id, key: key@, value: value@ }),
                    ..old(self)@
                }),
                Err(Error::InvalidArgument) => !old(self)@.desc.owns_shard(shard_id) && final(self)@ == old(
                    self,
                )@,
                Err(_) => false,
            },
    {
        if !self.desc.owns_shard(shard_id) {
            return Err(Error::InvalidArgument);
        }
        let ghost before = self.data@;
        let record = ShardRecord { shard_id, key, value };
        self.data.push(record);
        assert(views(self.data@) == views(before).push(record@));
        Ok(())
    }

    /// Reads the value that was last stored under a key of a shard. A group
    /// that does not list the shard refuses with `InvalidArgument`.
    pub fn get(&self, shard_id: u64, key: &Vec<u8>) -> (result: Result<Option<Vec<u8>>, Error>)
        ensures
            match result {
                Ok(value) => self@.desc.owns_shard(shard_id) && match value {
                    Some(v) => lookup(self@.data, shard_id, key@) == Some(v@),
                    None => lookup(self@.data, shard_id, key@) is None,
                },
                Err(Error::InvalidArgument) => !self@.desc.owns_shard(shard_id),
                Err(_) => false,
            },
    {
        if !self.desc.owns_shard(shard_id) {
            return Err(Error::InvalidArgument);
        }
        let mut i: usize = self.data.len();
        assert(self.data@.take(i as int) == self.data@);
        while i > 0
            invariant
                i <= self.data.len(),
                self@.desc.owns_shard(shard_id),
                lookup(views(self.data@), shard_id, key@) == lookup(
                    views(self.data@.take(i as int)),
                    shard_id,
                    key@,
                ),
            decreases i,
        {
            proof {
                let front = self.data@.take(i as int);
                assert(front.drop_last() == self.data@.take(i - 1));
                assert(views(front).drop_last() == views(front.drop_last()));
                assert(views(front).last() == self.data@[i - 1]@);
            }
            let record = &self.data[i - 1];
            if record.shard_id == shard_id && bytes_eq(&record.key, key) {
                let value = copy_vec(&record.value);
                proof {
                    let front = views(self.data@.take(i as int));
                    assert(front.len() > 0);
                    assert(front.last().shard_id == shard_id && front.last().key == key@);
                    assert(lookup(front, shard_id, key@) == Some(front.last().value));
                }
                return Ok(Some(value));
            }
            i -= 1;
        }
        assert(views(self.data@.take(0)).len() == 0);
        Ok(None)
    }

    /// The records of the shard `shard_id`, in the order in which they were
    /// stored: what a destination pulls.
    pub fn shard_records(&self, shard_id: u64) -> (records: Vec<ShardRecord>)
        ensures
            views(records@) == self@.data.filter(|r: ShardRecordView| r.shard_id == shard_id),
    {
        let ghost wanted = |r: ShardRecordView| r.shard_id == shard_id;
        let mut records: Vec<ShardRecord> = Vec::new();
        let mut i: usize = 0;
        proof {
            reveal(Seq::filter);
            assert(views(self.data@.take(0)).filter(wanted) == Seq::<ShardRecordView>::empty());
            assert(views(records@) == Seq::<ShardRecordView>::empty());
        }
        while i < self.data.len()
            invariant
                i <= self.data.len(),
                wanted == |r: ShardRecordView| r.shard_id == shard_id,
                views(records@) == views(self.data@.take(i as int)).filter(wanted),
            decreases self.data.len() - i,
        {
            proof {
                let r = self.data@[i as int];
                assert(self.data@.take(i + 1) == self.data@.take(i as int).push(r));
                assert(views(self.data@.take(i + 1)) == views(self.data@.take(i as int)).push(r@));
                lemma_filter_push(views(self.data@.take(i as int)), r@, wanted);
            }
            if self.data[i].shard_id == shard_id {
                let ghost before = records@;
                records.push(self.data[i].clone());
                assert(views(records@) == views(before).push(self.data@[i as int]@));
            }
            i += 1;
        }
        assert(self.data@.take(self.data.len() as int) == self.data@);
        records
    }

    /// A point-in-time copy of everything that is replicated, tagged with
    /// the index whose effects it holds.
    pub fn create_snapshot(&self) -> (snapshot: Snapshot)
        ensures
            snapshot@ == snapshot_of(self@),
    {
        Snapshot {
            index: self.flushed_index,
            desc: self.desc.clone(),
            data: copy_records(&self.data),
            staged: copy_records(&self.staged),
            record: self.record,
            epochs: copy_vec(&self.epochs),
        }
    }

    /// Installs a snapshot: everything that is replicated is replaced by
    /// what the snapshot holds, all of it at once; who leads is not part of
    /// a snapshot and stays.
    pub fn restore(&mut self, snapshot: &Snapshot)
        ensures
            final(self)@ == restored(old(self)@, snapshot@),
    {
        self.desc = snapshot.desc.clone();
        self.flushed_index = snapshot.index;
        self.data = copy_records(&snapshot.data);
        self.staged = copy_records(&snapshot.staged);
        self.record = snapshot.record;
        self.epochs = copy_vec(&snapshot.epochs);
    }
}

/// Whether two byte strings are equal.
pub fn bytes_eq(a: &Vec<u8>, b: &Vec<u8>) -> (equal: bool)
    ensures
        equal == (a@ == b@),
{
    if a.len() != b.len() {
        return false;
    }
    let mut i: usize = 0;
    while i < a.len()
        invariant
            i <= a.len(),
            a.len() == b.len(),
            forall|j: int| 0 <= j < i ==> a@[j] == b@[j],
        decreases a.len() - i,
    {
        if a[i] != b[i] {
            return false;
        }
        i += 1;
    }
    assert(a@ =~= b@);
    true
}

/// The value that was last stored under `key` of the shard `shard_id`.
pub open spec fn lookup(records: Seq<ShardRecordView>, shard_id: u64, key: Seq<u8>) -> Option<Seq<u8>>
    decreases records.len(),
{
    if records.len() == 0 {
        None
    } else if records.last().shard_id == shard_id && records.last().key == key {
        Some(records.last().value)
    } else {
        lookup(records.drop_last(), shard_id, key)
    }
}

/// A point-in-time copy of the replicated state of a group.
#[derive(Debug, PartialEq, Eq)]
pub struct Snapshot {
    pub index: u64,
    pub desc: GroupDesc,
    pub data: Vec<ShardRecord>,
    pub staged: Vec<ShardRecord>,
    pub record: MigrationRecord,
    pub epochs: Vec<RecordedEpoch>,
}

/// The mathematical content of a `Snapshot`.
pub struct SnapshotView {
    pub index: u64,
    pub desc: GroupDescView,
    pub data: Seq<ShardRecordView>,
    pub staged: Seq<ShardRecordView>,
    pub record: MigrationRecord,
    pub epochs: Seq<RecordedEpoch>,
}

impl View for Snapshot {
    type V = SnapshotView;

    open spec fn view(&self) -> SnapshotView {
        SnapshotView {
            index: self.index,
            desc: self.desc@,
            data: views(self.data@),
            staged: views(self.staged@),
            record: self.record,
            epochs: self.epochs@,
        }
    }
}

/// The snapshot of a state.
pub open spec fn snapshot_of(state: GroupStateView) -> SnapshotView {
    SnapshotView {
        index: state.flushed_index,
        desc: state.desc,
        data: state.data,
        staged: state.staged,
        record: state.record,
        epochs: state.epochs,
    }
}

/// The state after a snapshot was installed.
pub open spec fn restored(state: GroupStateView, snapshot: SnapshotView) -> GroupStateView {
    GroupStateView {
        desc: snapshot.desc,
        flushed_index: snapshot.index,
        data: snapshot.data,
        staged: snapshot.staged,
        record: snapshot.record,
        epochs: snapshot.epochs,
        role: state.role,
        leader: state.leader,
    }
}

/// Snapshot round trip: a state machine that installs the snapshot of
/// another has the same descriptor, the same flushed index and the same
/// contents as the other, and one that installs its own snapshot is what
/// it was.
pub proof fn lemma_snapshot_round_trip(state: GroupStateView, other: GroupStateView)
    ensures
        restored(other, snapshot_of(state)).desc == state.desc,
        restored(other, snapshot_of(state)).flushed_index == state.flushed_index,
        restored(other, snapshot_of(state)).data == state.data,
        forall|shard_id: u64, key: Seq<u8>|
            lookup(restored(other, snapshot_of(state)).data, shard_id, key) == lookup(
                state.data,
                shard_id,
                key,
            ),
        restored(state, snapshot_of(state)) == state,
{
}


impl crate::raftgroup::StateObserver for GroupState {
    fn on_state_updated(&mut self, leader_id: u64, voted_for: u64, term: u64, role: RaftRole)
        ensures
            final(self)@ == (GroupStateView {
                role,
                leader: replica_with_id(old(self)@.desc.replicas, leader_id),
                ..old(self)@
            }),
    {
        GroupState::on_state_updated(self, leader_id, voted_for, term, role)
    }
}

/// The group that answers for the id `group_id`: the first of the groups
/// with that id, if there is one.
pub open spec fn serving(groups: Seq<GroupStateView>, group_id: u64) -> Option<GroupStateView>
    decreases groups.len(),
{
    if groups.len() == 0 {
        None
    } else if groups[0].desc.id == group_id {
        Some(groups[0])
    } else {
        serving(groups.subrange(1, groups.len() as int), group_id)
    }
}

/// The group that answers for an id is the one before which no group has
/// the id; where no group has the id, none answers.
pub proof fn lemma_serving(groups: Seq<GroupStateView>, group_id: u64, first: int)
    requires
        0 <= first <= groups.len(),
        forall|j: int| 0 <= j < first ==> (#[trigger] groups[j]).desc.id != group_id,
        first < groups.len() ==> groups[first].desc.id == group_id,
    ensures
        serving(groups, group_id) == if first < groups.len() {
            Some(groups[first])
        } else {
            None
        },
    decreases groups.len(),
{
    if groups.len() > 0 && first > 0 {
        let rest = groups.subrange(1, groups.len() as int);
        assert(groups[0].desc.id != group_id);
        assert forall|j: int| 0 <= j < first - 1 implies (#[trigger] rest[j]).desc.id != group_id by {
            assert(groups[j + 1].desc.id != group_id);
        }
        lemma_serving(rest, group_id, first - 1);
    }
}

/// The groups that one node serves.
pub struct Node {
    groups: Vec<GroupState>,
}

impl View for Node {
    type V = Seq<GroupStateView>;

    closed spec fn view(&self) -> Seq<GroupStateView> {
        self.groups@.map_values(|g: GroupState| g@)
    }
}

impl Node {
    /// A node that serves no group.
    pub fn new() -> (node: Node)
        ensures
            node@ == Seq::<GroupStateView>::empty(),
    {
        let node = Node { groups: Vec::new() };
        assert(node@ == Seq::<GroupStateView>::empty());
        node
    }

    /// Starts to serve a group.
    pub fn add_group(&mut self, group: GroupState)
        ensures
            final(self)@ == old(self)@.push(group@),
    {
        self.groups.push(group);
        assert(self@ == old(self)@.push(group@));
    }

    /// The position of the group `group_id` among the groups served.
    pub fn find_group(&self, group_id: u64) -> (found: Option<usize>)
        ensures
            match found {
                Some(i) => i < self@.len() && self@[i as int].desc.id == group_id && forall|j: int|
                    0 <= j < i ==> (#[trigger] self@[j]).desc.id != group_id,
                None => forall|j: int| 0 <= j < self@.len() ==> (#[trigger] self@[j]).desc.id != group_id,
            },
    {
        let mut i: usize = 0;
        while i < self.groups.len()
            invariant
                i <= self.groups.len(),
                forall|j: int| 0 <= j < i ==> (#[trigger] self@[j]).desc.id != group_id,
            decreases self.groups.len() - i,
        {
            if self.groups[i].desc.id == group_id {
                return Some(i);
            }
            i += 1;
        }
        None
    }

    /// The group at a position.
    pub fn group(&self, position: usize) -> (group: &GroupState)
        requires
            position < self@.len(),
        ensures
            group@ == self@[position as int],
    {
        &self.groups[position]
    }

    /// Stops serving the group at a position and hands it out.
    pub fn take_group(&mut self, position: usize) -> (group: GroupState)
        requires
            position < old(self)@.len(),
        ensures
            group@ == old(self)@[position as int],
            final(self)@ == old(self)@.remove(position as int),
    {
        let group = self.groups.remove(position);
        assert(self@ == old(self)@.remove(position as int));
        group
    }

    /// Decides whether the group `group_id` takes over a shard. A node that
    /// does not serve the group refuses with `GroupNotFound`; otherwise the
    /// first group with that id decides.
    pub fn accept_shard(&self, group_id: u64, request: AcceptShardRequest) -> (result: Result<
        AcceptShardResponse,
        Error,
    >)
        ensures
            match serving(self@, group_id) {
                Some(group) => accept_outcome(group, request, result),
                None => result matches Err(Error::GroupNotFound(id)) && id == group_id,
            },
    {
        match self.find_group(group_id) {
            Some(i) => {
                assert(self@[i as int] == self.groups@[i as int]@);
                proof {
                    lemma_serving(self@, group_id, i as int);
                }
                self.groups[i].accept_shard(request)
            },
            None => {
                proof {
                    lemma_serving(self@, group_id, self@.len() as int);
                }
                Err(Error::GroupNotFound(group_id))
            },
        }
    }

    /// How far the migration of the group `group_id` has come, as the first
    /// group with that id says. A node that does not serve the group
    /// refuses with `GroupNotFound`.
    pub fn collect_migration_state(&self, group_id: u64) -> (result: Result<MigrationState, Error>)
        ensures
            match serving(self@, group_id) {
                Some(group) => result matches Ok(state) && state == group.record.state,
                None => result matches Err(Error::GroupNotFound(id)) && id == group_id,
            },
    {
        match self.find_group(group_id) {
            Some(i) => {
                assert(self@[i as int] == self.groups@[i as int]@);
                proof {
                    lemma_serving(self@, group_id, i as int);
                }
                Ok(self.groups[i].collect_migration_state())
            },
            None => {
                proof {
                    lemma_serving(self@, group_id, self@.len() as int);
                }
                Err(Error::GroupNotFound(group_id))
            },
        }
    }
}

} // verus!
