//! The worker that owns one consensus node: it turns queued requests and
//! timer ticks into operations on the node, in the order that keeps what is
//! visible behind what is durable.
//!
//! The worker itself performs no I/O. Whoever drives it waits for the
//! outside world where the worker's phase says so, hands the outcome to
//! `RaftWorker::run` as an event, and performs the actions that come back,
//! in order.

use vstd::prelude::*;
use crate::error::Error;
use crate::metadata::{ChangeReplicas, GroupDesc, RaftRole, ReplicaDesc};
use crate::raftgroup::cache::{insert_all, ReplicaCache};
use crate::raftgroup::conf::{
    all_supported, encode_to_conf_change, is_conf_change_of, supported, ConfChangeV2,
};
use crate::raftgroup::message::{
    addressed_to, is_batch, is_separated, known_targets, send_messages, Message, MessageType, RaftMessage,
};
use crate::raftgroup::pending::lemma_filter_elements;
use crate::raftgroup::ReadPolicy;

verus! {

/// Who wants to hear of every change of role or term of a replica.
pub trait StateObserver {
    fn on_state_updated(&mut self, leader_id: u64, voted_for: u64, term: u64, role: RaftRole);
}

/// What a caller or a collaborator asks of the worker. `S` is the one-shot
/// reply handle of requests that are answered; `B` is the body of consensus
/// messages.
#[derive(Debug, PartialEq, Eq)]
pub enum Request<S, B> {
    Read { policy: ReadPolicy, sender: S },
    Propose { eval_result: Vec<u8>, sender: S },
    CreateSnapshotFinished,
    InstallSnapshot { msg: Message<B> },
    RejectSnapshot { msg: Message<B> },
    ChangeConfig { change: ChangeReplicas, sender: S },
    Transfer { transferee: u64 },
    Message(RaftMessage<B>),
    Unreachable { target_id: u64 },
    Start,
}

/// One operation that the worker asks of its consensus node or of its
/// collaborators. Every reply handle that came in with a request leaves in
/// exactly one action.
#[derive(Debug, PartialEq, Eq)]
pub enum Action<S, B> {
    /// Advance the node's logical clock.
    Tick,
    /// Compact the log and recycle snapshots, as `compact_log` plans it.
    CompactLog,
    /// Propose `data` for replication.
    Propose { data: Vec<u8>, context: Vec<u8>, sender: S },
    /// Propose a membership change.
    ProposeConfChange { context: Vec<u8>, change: ConfChangeV2, sender: S },
    /// Answer the caller at once, with success; nothing is asked of the
    /// node.
    Resolve { sender: S },
    /// Resolve once every entry committed so far is applied.
    LeaseRead { sender: S },
    /// The same, after a heartbeat round with a quorum.
    ReadIndex { sender: S },
    /// Hint that leadership should move to `transferee`.
    TransferLeader { transferee: u64 },
    /// Tell the node that `target_id` cannot be reached.
    ReportUnreachable { target_id: u64 },
    /// Feed one message into the node.
    Step { msg: Message<B> },
    /// Download the snapshot that `msg` announces from `from_replica`.
    DownloadSnapshot { from_replica: ReplicaDesc, msg: Message<B> },
    /// Send a batch to the replica it is addressed to.
    Send { batch: RaftMessage<B> },
    /// Tell the node that the write task is durable.
    PostAdvance,
    /// Start creating a snapshot off the loop.
    CreateSnapshot,
}

/// Where the worker stands in its loop: what it waits for next.
#[derive(Clone, Copy, Debug, PartialEq, Eq, Structural)]
pub enum Phase {
    /// Whether the node has pending work.
    CheckReady,
    /// The next tick or the next request, whichever comes first.
    Wait,
    /// The next queued request, without blocking.
    Poll,
    /// One advance of the node.
    Advance,
    /// The write task of the last advance, made durable.
    Persist,
    /// Whether the node asked for a snapshot.
    CheckSnapshot,
    /// Nothing: the request queue is closed, or state or log are corrupt.
    Stopped,
}

/// What the outside world answers.
#[derive(Debug, PartialEq, Eq)]
pub enum Event<S, B> {
    /// In `CheckReady`: whether the node has pending work.
    Ready(bool),
    /// In `Wait`: the timer fired.
    Tick,
    /// In `Wait` or `Poll`: a request arrived.
    Incoming(Request<S, B>),
    /// In `Wait`: every sender of the request queue is gone.
    Closed,
    /// In `Poll`: the queue is empty.
    Drained,
    /// In `Advance`: the node was advanced. It wants `messages` sent; it
    /// wants `persisted_messages` sent once what it handed out to be
    /// written is durable; and it did or did not hand out such a write
    /// task.
    Advanced { messages: Vec<Message<B>>, persisted_messages: Vec<Message<B>>, write_task: bool },
    /// In `Persist`: the write task is durable.
    Persisted,
    /// In `CheckSnapshot`: whether the node asked for a snapshot.
    SnapshotRequested(bool),
}

/// The message that tells the sender of a snapshot that it was rejected.
pub open spec fn snapshot_rejection<B>(input: Message<B>) -> Message<B> {
    Message {
        msg_type: MessageType::MsgSnapStatus,
        to: input.from,
        from: input.to,
        reject: true,
        body: None,
    }
}

/// What the worker does with one inbound consensus message: a snapshot
/// announcement starts a download, a snapshot status is stepped as coming
/// from this replica, everything else is stepped as it is.
pub open spec fn inbound_action<S, B>(msg: Message<B>, replica_id: u64, from_replica: ReplicaDesc) -> Action<S, B> {
    if msg.msg_type == MessageType::MsgSnapshot {
        Action::DownloadSnapshot { from_replica, msg }
    } else if msg.msg_type == MessageType::MsgSnapStatus {
        Action::Step { msg: Message { from: replica_id, ..msg } }
    } else {
        Action::Step { msg }
    }
}

/// What a read asks for: a relaxed read reads what is there, so it is
/// answered at once and asks the node for no checkpoint; a lease read
/// waits until every entry committed so far is applied; a read by index
/// does the same after a heartbeat round with a quorum.
pub open spec fn read_action<S, B>(policy: ReadPolicy, sender: S) -> Action<S, B> {
    match policy {
        ReadPolicy::Relaxed => Action::Resolve { sender },
        ReadPolicy::LeaseRead => Action::LeaseRead { sender },
        ReadPolicy::ReadIndex => Action::ReadIndex { sender },
    }
}

/// Whether the worker can take a request: a membership change names only
/// kinds that the consensus algorithm knows, and a batch of messages says
/// who sent it. Every other request can be taken.
pub open spec fn well_formed<S, B>(request: Request<S, B>) -> bool {
    match request {
        Request::ChangeConfig { change, .. } => supported(change@),
        Request::Message(batch) => batch.from_replica is Some,
        _ => true,
    }
}

/// The state of a worker that `run` and `handle_request` read and change.
pub struct WorkerState<B> {
    pub group_id: u64,
    pub desc: ReplicaDesc,
    pub cache: Map<u64, ReplicaDesc>,
    pub creating_snapshot: bool,
    pub phase: Phase,
    pub burst: nat,
    pub max_burst: nat,
    /// The messages that wait for the write task to become durable.
    pub pending: Seq<Message<B>>,
}

/// Whether handling `request` in state `pre` leads to state `post` and asks
/// for exactly `actions`.
pub open spec fn handles<S, B>(
    pre: WorkerState<B>,
    request: Request<S, B>,
    post: WorkerState<B>,
    actions: Seq<Action<S, B>>,
) -> bool {
    match request {
        Request::Propose { eval_result, sender } => {
            &&& post == pre
            &&& actions.len() == 1
            &&& actions[0] matches Action::Propose { data, context, sender: s }
            &&& data == eval_result
            &&& context@ == Seq::<u8>::empty()
            &&& s == sender
        },
        Request::Read { policy, sender } => {
            &&& post == pre
            &&& actions == seq![read_action::<S, B>(policy, sender)]
        },
        Request::ChangeConfig { change, sender } => {
            &&& post == pre
            &&& actions.len() == 1
            &&& actions[0] matches Action::ProposeConfChange { context, change: conf_change, sender: s }
            &&& context@ == Seq::<u8>::empty()
            &&& is_conf_change_of(conf_change, change@)
            &&& s == sender
        },
        Request::CreateSnapshotFinished => {
            &&& post == WorkerState { creating_snapshot: false, ..pre }
            &&& actions.len() == 0
        },
        Request::Transfer { transferee } => {
            &&& post == pre
            &&& actions == seq![Action::<S, B>::TransferLeader { transferee }]
        },
        Request::Message(batch) => {
            let from_replica = batch.from_replica.unwrap();
            &&& post == WorkerState { cache: pre.cache.insert(from_replica.id, from_replica), ..pre }
            &&& actions == batch.messages@.map_values(
                |m: Message<B>| inbound_action::<S, B>(m, pre.desc.id, from_replica),
            )
        },
        Request::Unreachable { target_id } => {
            &&& post == pre
            &&& actions == seq![Action::<S, B>::ReportUnreachable { target_id }]
        },
        Request::RejectSnapshot { msg } => {
            &&& post == pre
            &&& if pre.cache.contains_key(msg.from) {
                &&& actions.len() == 1
                &&& actions[0] matches Action::Send { batch }
                &&& is_batch(
                    batch,
                    pre.group_id,
                    pre.desc,
                    pre.cache[msg.from],
                    seq![snapshot_rejection(msg)],
                )
            } else {
                actions.len() == 0
            }
        },
        Request::InstallSnapshot { msg } => {
            &&& post == pre
            &&& actions == seq![Action::<S, B>::Step { msg }]
        },
        Request::Start => {
            &&& post == pre
            &&& actions.len() == 0
        },
    }
}

/// Whether the worker, in state `pre`, waits for `event`.
pub open spec fn awaits<S, B>(pre: WorkerState<B>, event: Event<S, B>) -> bool {
    match event {
        Event::Ready(_) => pre.phase == Phase::CheckReady,
        Event::Tick => pre.phase == Phase::Wait,
        Event::Incoming(request) => (pre.phase == Phase::Wait || pre.phase == Phase::Poll)
            && well_formed(request),
        Event::Closed => pre.phase == Phase::Wait,
        Event::Drained => pre.phase == Phase::Poll,
        Event::Advanced { .. } => pre.phase == Phase::Advance,
        Event::Persisted => pre.phase == Phase::Persist,
        Event::SnapshotRequested(_) => pre.phase == Phase::CheckSnapshot,
    }
}

/// Whether `actions` send `msgs`: one action per target that the cache
/// knows, in the order in which the targets first occur, each with the
/// batch of all messages for its target.
pub open spec fn sends<S, B>(actions: Seq<Action<S, B>>, msgs: Seq<Message<B>>, state: WorkerState<B>) -> bool {
    let targets = known_targets(msgs, state.cache);
    &&& actions.len() == targets.len()
    &&& forall|i: int|
        0 <= i < actions.len() ==> (#[trigger] actions[i] matches Action::Send { batch } && is_batch(
            batch,
            state.group_id,
            state.desc,
            state.cache[targets[i]],
            addressed_to(msgs, targets[i]),
        ))
}

/// Whether `event` takes the worker from state `pre` to state `post` and
/// asks for exactly `actions`. One turn of the loop is: wait only if the
/// node has no pending work; on a tick, tick the node and compact the log;
/// drain the queue, at most `max_burst` requests in a row, not counting
/// the request that ended the wait; advance the node and send what it
/// wants sent at once; make its write task durable; only then tell the
/// node so and send what depends on the write task; then create a snapshot
/// if the node asked for one and none is being created.
pub open spec fn steps<S, B>(
    pre: WorkerState<B>,
    event: Event<S, B>,
    post: WorkerState<B>,
    actions: Seq<Action<S, B>>,
) -> bool {
    match event {
        Event::Ready(ready) => {
            &&& actions.len() == 0
            &&& post == if ready {
                WorkerState { phase: Phase::Poll, burst: 0, ..pre }
            } else {
                WorkerState { phase: Phase::Wait, ..pre }
            }
        },
        Event::Tick => {
            &&& actions == seq![Action::<S, B>::Tick, Action::<S, B>::CompactLog]
            &&& post == WorkerState { phase: Phase::Poll, burst: 0, ..pre }
        },
        Event::Incoming(request) => {
            let burst = if pre.phase == Phase::Wait {
                0
            } else if pre.burst + 1 < pre.max_burst {
                pre.burst + 1
            } else {
                0
            };
            let phase = if pre.phase == Phase::Wait || pre.burst + 1 < pre.max_burst {
                Phase::Poll
            } else {
                Phase::Advance
            };
            &&& handles(pre, request, WorkerState { phase: pre.phase, burst: pre.burst, ..post }, actions)
            &&& post.phase == phase
            &&& post.burst == burst
        },
        Event::Closed => {
            &&& actions.len() == 0
            &&& post == WorkerState { phase: Phase::Stopped, ..pre }
        },
        Event::Drained => {
            &&& actions.len() == 0
            &&& post == WorkerState { phase: Phase::Advance, ..pre }
        },
        Event::Advanced { messages, persisted_messages, write_task } => {
            if write_task {
                &&& sends(actions, messages@, pre)
                &&& post == WorkerState { phase: Phase::Persist, pending: persisted_messages@, ..pre }
            } else {
                &&& sends(actions, messages@ + persisted_messages@, pre)
                &&& post == WorkerState { phase: Phase::CheckSnapshot, ..pre }
            }
        },
        Event::Persisted => {
            &&& actions.len() > 0
            &&& actions[0] == Action::<S, B>::PostAdvance
            &&& sends(actions.subrange(1, actions.len() as int), pre.pending, pre)
            &&& post == WorkerState { phase: Phase::CheckSnapshot, pending: Seq::empty(), ..pre }
        },
        Event::SnapshotRequested(requested) => {
            if requested && !pre.creating_snapshot {
                &&& actions == seq![Action::<S, B>::CreateSnapshot]
                &&& post == WorkerState { phase: Phase::CheckReady, creating_snapshot: true, ..pre }
            } else {
                &&& actions.len() == 0
                &&& post == WorkerState { phase: Phase::CheckReady, ..pre }
            }
        },
    }
}

/// Durable before visible: when the node hands out a write task, the step
/// that takes the advance sends nothing but messages that the node wants
/// sent at once; what depends on the write task is kept, and the worker
/// waits for the write task to become durable.
pub proof fn lemma_durable_before_visible<S, B>(
    pre: WorkerState<B>,
    messages: Vec<Message<B>>,
    persisted_messages: Vec<Message<B>>,
    post: WorkerState<B>,
    actions: Seq<Action<S, B>>,
    i: int,
    k: int,
)
    requires
        steps(pre, Event::<S, B>::Advanced { messages, persisted_messages, write_task: true }, post, actions),
        0 <= i < actions.len(),
        actions[i] matches Action::Send { batch } && 0 <= k < batch.messages@.len(),
    ensures
        post.phase == Phase::Persist,
        post.pending == persisted_messages@,
        actions[i] matches Action::Send { batch } && exists|j: int|
            0 <= j < messages@.len() && #[trigger] messages@[j] == batch.messages@[k],
{
    let targets = known_targets(messages@, pre.cache);
    let to_target = |m: Message<B>| m.to == targets[i];
    lemma_filter_elements(messages@, to_target, k);
}

/// What the task that downloads a snapshot tells the worker when it ends:
/// a snapshot that was downloaded is installed inside the loop, with the
/// message that announced it; one that was not is rejected, so that the
/// algorithm can try again or pick another source.
pub fn download_finished<S, B>(msg: Message<B>, downloaded: bool) -> (request: Request<S, B>)
    ensures
        request == if downloaded {
            Request::<S, B>::InstallSnapshot { msg }
        } else {
            Request::<S, B>::RejectSnapshot { msg }
        },
{
    if downloaded {
        Request::InstallSnapshot { msg }
    } else {
        Request::RejectSnapshot { msg }
    }
}

/// What the task that creates a snapshot tells the worker when it ends,
/// however it ended.
pub fn creation_finished<S, B>() -> (request: Request<S, B>)
    ensures
        request == Request::<S, B>::CreateSnapshotFinished,
{
    Request::CreateSnapshotFinished
}

/// Whether the worker can take a request.
pub fn is_well_formed<S, B>(request: &Request<S, B>) -> (ok: bool)
    ensures
        ok == well_formed(*request),
{
    match request {
        Request::ChangeConfig { change, .. } => all_supported(change),
        Request::Message(batch) => batch.from_replica.is_some(),
        _ => true,
    }
}

/// The decisions of the actor that owns one consensus node.
pub struct RaftWorker<B> {
    group_id: u64,
    desc: ReplicaDesc,
    replica_cache: ReplicaCache,
    creating_snapshot: bool,
    phase: Phase,
    burst: usize,
    max_burst: usize,
    pending: Vec<Message<B>>,
}

impl<B> View for RaftWorker<B> {
    type V = WorkerState<B>;

    closed spec fn view(&self) -> WorkerState<B> {
        WorkerState {
            pending: self.pending@,
            group_id: self.group_id,
            desc: self.desc,
            cache: self.replica_cache@,
            creating_snapshot: self.creating_snapshot,
            phase: self.phase,
            burst: self.burst as nat,
            max_burst: self.max_burst as nat,
        }
    }
}

impl<B> RaftWorker<B> {
    /// A worker for replica `desc` of group `group_id`. Its replica cache
    /// knows the replica itself and, over that, the members that the group
    /// descriptor lists. It takes at most `max_burst` queued requests in a
    /// row before it advances the node, and at least one. The loop starts
    /// by asking whether the node has pending work.
    pub fn open(group_id: u64, desc: ReplicaDesc, descriptor: &GroupDesc, max_burst: usize) -> (worker: RaftWorker<B>)
        ensures
            worker@ == (WorkerState::<B> {
                group_id,
                desc,
                cache: insert_all(Map::<u64, ReplicaDesc>::empty().insert(desc.id, desc), descriptor@.replicas),
                creating_snapshot: false,
                phase: Phase::CheckReady,
                burst: 0,
                max_burst: max_burst as nat,
                pending: Seq::empty(),
            }),
    {
        let mut replica_cache = ReplicaCache::new();
        replica_cache.insert(desc);
        replica_cache.batch_insert(&descriptor.replicas);
        RaftWorker {
            group_id,
            desc,
            replica_cache,
            creating_snapshot: false,
            phase: Phase::CheckReady,
            burst: 0,
            max_burst,
            pending: Vec::new(),
        }
    }

    /// The group this worker serves.
    pub fn group_id(&self) -> (id: u64)
        ensures
            id == self@.group_id,
    {
        self.group_id
    }

    /// The replica this worker is.
    pub fn desc(&self) -> (desc: ReplicaDesc)
        ensures
            desc == self@.desc,
    {
        self.desc
    }

    /// What the worker waits for next.
    pub fn phase(&self) -> (phase: Phase)
        ensures
            phase == self@.phase,
    {
        self.phase
    }

    /// Whether a snapshot is being created.
    pub fn is_creating_snapshot(&self) -> (creating: bool)
        ensures
            creating == self@.creating_snapshot,
    {
        self.creating_snapshot
    }

    /// The replica cache.
    pub fn replica_cache(&self) -> (cache: &ReplicaCache)
        ensures
            cache@ == self@.cache,
    {
        &self.replica_cache
    }

    /// The replica cache, to record what a committed membership change
    /// says.
    pub fn mut_replica_cache(&mut self) -> (cache: &mut ReplicaCache)
        ensures
            cache@ == old(self)@.cache,
            final(self)@ == (WorkerState { cache: final(cache)@, ..old(self)@ }),
    {
        &mut self.replica_cache
    }

    /// Whether the worker waits for `event`.
    pub fn accepts<S>(&self, event: &Event<S, B>) -> (ok: bool)
        ensures
            ok == awaits(self@, *event),
    {
        match event {
            Event::Ready(_) => self.phase == Phase::CheckReady,
            Event::Tick => self.phase == Phase::Wait,
            Event::Incoming(request) => (self.phase == Phase::Wait || self.phase == Phase::Poll)
                && is_well_formed(request),
            Event::Closed => self.phase == Phase::Wait,
            Event::Drained => self.phase == Phase::Poll,
            Event::Advanced { .. } => self.phase == Phase::Advance,
            Event::Persisted => self.phase == Phase::Persist,
            Event::SnapshotRequested(_) => self.phase == Phase::CheckSnapshot,
        }
    }

    /// Groups the messages that an advance of the node wants sent into one
    /// batch per destination, from this replica to the replica that the
    /// cache knows under the target's id.
    pub fn send_messages(&self, msgs: Vec<Message<B>>) -> (batches: Vec<RaftMessage<B>>)
        ensures
            is_separated(batches@, msgs@, self@.cache, self@.group_id, self@.desc),
    {
        send_messages(self.group_id, self.desc, &self.replica_cache, msgs)
    }

    /// Decides what a failure of an action means for the loop: on
    /// corruption the worker stops for good, any other failure is the
    /// caller's to retry and the loop goes on.
    pub fn on_failure(&mut self, error: &Error) -> (stop: bool)
        ensures
            stop == error.spec_is_fatal(),
            final(self)@ == if stop {
                WorkerState { phase: Phase::Stopped, ..old(self)@ }
            } else {
                old(self)@
            },
    {
        if error.is_fatal() {
            self.phase = Phase::Stopped;
            true
        } else {
            false
        }
    }

    /// The actions that send `msgs`: one per batch.
    fn send_actions<S>(&self, msgs: Vec<Message<B>>) -> (actions: Vec<Action<S, B>>)
        ensures
            sends(actions@, msgs@, self@),
    {
        let batches = self.send_messages(msgs);
        let ghost all = batches@;
        let mut actions: Vec<Action<S, B>> = Vec::new();
        for batch in it: batches
            invariant
                it.seq() == all,
                actions@.len() == it.index(),
                forall|i: int|
                    0 <= i < actions@.len() ==> #[trigger] actions@[i] == (Action::<S, B>::Send { batch: all[i] }),
        {
            actions.push(Action::Send { batch });
        }
        actions
    }

    /// Hands a proposal to the node, with an empty context.
    pub fn handle_proposal<S>(&self, eval_result: Vec<u8>, sender: S) -> (action: Action<S, B>)
        ensures
            action matches Action::Propose { data, context, sender: s } && data == eval_result
                && context@ == Seq::<u8>::empty() && s == sender,
    {
        Action::Propose { data: eval_result, context: Vec::new(), sender }
    }

    /// Encodes a membership change and hands it to the node, with an
    /// empty context.
    pub fn handle_conf_change<S>(&self, change: ChangeReplicas, sender: S) -> (action: Action<S, B>)
        requires
            supported(change@),
        ensures
            action matches Action::ProposeConfChange { context, change: conf_change, sender: s }
                && context@ == Seq::<u8>::empty() && is_conf_change_of(conf_change, change@) && s
                == sender,
    {
        let conf_change = encode_to_conf_change(change);
        Action::ProposeConfChange { context: Vec::new(), change: conf_change, sender }
    }

    /// Decides what a read asks for: the consistency checkpoint that its
    /// policy names, or, for a relaxed read, an answer at once.
    pub fn handle_read<S>(&self, policy: ReadPolicy, sender: S) -> (action: Action<S, B>)
        ensures
            action == read_action::<S, B>(policy, sender),
    {
        match policy {
            ReadPolicy::Relaxed => Action::Resolve { sender },
            ReadPolicy::LeaseRead => Action::LeaseRead { sender },
            ReadPolicy::ReadIndex => Action::ReadIndex { sender },
        }
    }

    /// Takes a batch of inbound consensus messages: remembers the sender,
    /// then decides for each message, in order, what is done with it.
    pub fn handle_msg<S>(&mut self, raft_msg: RaftMessage<B>) -> (actions: Vec<Action<S, B>>)
        requires
            raft_msg.from_replica is Some,
        ensures
            handles(old(self)@, Request::<S, B>::Message(raft_msg), final(self)@, actions@),
    {
        let from_replica = raft_msg.from_replica.unwrap();
        self.replica_cache.insert(from_replica);
        let replica_id = self.desc.id;
        let mut actions: Vec<Action<S, B>> = Vec::new();
        let ghost all = raft_msg.messages@;
        let ghost decide = |m: Message<B>| inbound_action::<S, B>(m, replica_id, from_replica);
        assert(all.take(0).map_values(decide) == Seq::<Action<S, B>>::empty());
        for msg in it: raft_msg.messages
            invariant
                it.seq() == all,
                decide == |m: Message<B>| inbound_action::<S, B>(m, replica_id, from_replica),
                actions@ == all.take(it.index() as int).map_values(decide),
        {
            assert(all.take(it.index() + 1).map_values(decide) == all.take(
                it.index() as int,
            ).map_values(decide).push(decide(msg)));
            if msg.msg_type == MessageType::MsgSnapshot {
                actions.push(Action::DownloadSnapshot { from_replica, msg });
            } else if msg.msg_type == MessageType::MsgSnapStatus {
                let mut msg = msg;
                msg.from = replica_id;
                actions.push(Action::Step { msg });
            } else {
                actions.push(Action::Step { msg });
            }
        }
        assert(all.take(all.len() as int) == all);
        actions
    }

    /// Decides what one request asks of the node and its collaborators.
    pub fn handle_request<S>(&mut self, request: Request<S, B>) -> (actions: Vec<Action<S, B>>)
        requires
            well_formed(request),
        ensures
            handles(old(self)@, request, final(self)@, actions@),
    {
        let mut actions: Vec<Action<S, B>> = Vec::new();
        match request {
            Request::Propose { eval_result, sender } => {
                actions.push(self.handle_proposal(eval_result, sender));
            },
            Request::Read { policy, sender } => {
                actions.push(self.handle_read(policy, sender));
            },
            Request::ChangeConfig { change, sender } => {
                actions.push(self.handle_conf_change(change, sender));
            },
            Request::CreateSnapshotFinished => {
                self.creating_snapshot = false;
            },
            Request::Transfer { transferee } => {
                actions.push(Action::TransferLeader { transferee });
            },
            Request::Message(msg) => {
                return self.handle_msg(msg);
            },
            Request::Unreachable { target_id } => {
                actions.push(Action::ReportUnreachable { target_id });
            },
            Request::RejectSnapshot { msg: input } => {
                let msg = Message {
                    msg_type: MessageType::MsgSnapStatus,
                    to: input.from,
                    from: input.to,
                    reject: true,
                    body: None,
                };
                match self.replica_cache.get(input.from) {
                    Some(to_replica) => {
                        let mut messages: Vec<Message<B>> = Vec::new();
                        messages.push(msg);
                        actions.push(
                            Action::Send {
                                batch: RaftMessage {
                                    group_id: self.group_id,
                                    from_replica: Some(self.desc),
                                    to_replica: Some(to_replica),
                                    messages,
                                },
                            },
                        );
                    },
                    None => {},
                }
            },
            Request::InstallSnapshot { msg } => {
                actions.push(Action::Step { msg });
            },
            Request::Start => {},
        }
        actions
    }

    /// Runs the worker from the event that it waited for to the next point
    /// at which it needs the outside world: the actions to perform, in
    /// order, and, in `phase`, what to wait for then.
    pub fn run<S>(&mut self, event: Event<S, B>) -> (actions: Vec<Action<S, B>>)
        requires
            awaits(old(self)@, event),
        ensures
            steps(old(self)@, event, final(self)@, actions@),
    {
        let mut actions: Vec<Action<S, B>> = Vec::new();
        match event {
            Event::Ready(ready) => {
                if ready {
                    self.phase = Phase::Poll;
                    self.burst = 0;
                } else {
                    self.phase = Phase::Wait;
                }
            },
            Event::Tick => {
                actions.push(Action::Tick);
                actions.push(Action::CompactLog);
                self.phase = Phase::Poll;
                self.burst = 0;
                assert(actions@ == seq![Action::<S, B>::Tick, Action::<S, B>::CompactLog]);
            },
            Event::Incoming(request) => {
                let draining = match self.phase {
                    Phase::Wait => false,
                    _ => true,
                };
                let burst = self.burst;
                let ghost pre = self@;
                actions = self.handle_request(request);
                if draining && burst < usize::MAX && burst + 1 < self.max_burst {
                    self.burst = burst + 1;
                    self.phase = Phase::Poll;
                } else if draining {
                    self.burst = 0;
                    self.phase = Phase::Advance;
                } else {
                    self.burst = 0;
                    self.phase = Phase::Poll;
                }
            },
            Event::Closed => {
                self.phase = Phase::Stopped;
            },
            Event::Drained => {
                self.phase = Phase::Advance;
            },
            Event::Advanced { messages, persisted_messages, write_task } => {
                if write_task {
                    actions = self.send_actions(messages);
                    self.pending = persisted_messages;
                    self.phase = Phase::Persist;
                } else {
                    let mut all = messages;
                    let mut rest = persisted_messages;
                    all.append(&mut rest);
                    actions = self.send_actions(all);
                    self.phase = Phase::CheckSnapshot;
                }
            },
            Event::Persisted => {
                let mut pending: Vec<Message<B>> = Vec::new();
                core::mem::swap(&mut self.pending, &mut pending);
                let mut sent = self.send_actions(pending);
                let ghost batches = sent@;
                actions.push(Action::PostAdvance);
                actions.append(&mut sent);
                self.phase = Phase::CheckSnapshot;
                assert(actions@.subrange(1, actions@.len() as int) == batches);
            },
            Event::SnapshotRequested(requested) => {
                if requested && !self.creating_snapshot {
                    self.creating_snapshot = true;
                    actions.push(Action::CreateSnapshot);
                }
                self.phase = Phase::CheckReady;
            },
        }
        actions
    }
}

} // verus!
