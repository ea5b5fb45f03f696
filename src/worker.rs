//! What a worker keeps of the tasks assigned to it, and how it answers the
//! scheduler.
use vstd::prelude::*;

use std::collections::HashMap;

use crate::messages::{
    ComputeTaskMsg, FromWorkerMessage, StealResponse, StealResponseMsg, SubworkerDefinition,
    TaskFailInfo, TaskFailedMsg, TaskFinishedMsg, TaskId, ToWorkerMessage, WorkerId,
};

verus! {

broadcast use vstd::std_specs::hash::group_hash_axioms;

/// Where an assigned task stands on its worker.
#[derive(Clone, Copy, Debug, PartialEq, Eq, Structural)]
pub enum LocalTaskState {
    /// Received and queued; it can still be given back.
    Waiting,
    /// Its execution has begun; it can no longer be given back.
    Running,
}

/// A worker's local bookkeeping.
pub struct WorkerState {
    tasks: HashMap<TaskId, LocalTaskState>,
    data: HashMap<TaskId, u64>,
    peers: HashMap<WorkerId, String>,
    subworkers: Vec<SubworkerDefinition>,
}

/// The abstract state of a worker.
pub struct WorkerView {
    /// The tasks assigned to the worker that have not ended.
    pub tasks: Map<TaskId, LocalTaskState>,
    /// The task outputs that the worker holds, with their sizes in bytes.
    pub data: Map<TaskId, u64>,
    /// The addresses of the peer workers that the worker knows.
    pub peers: Map<WorkerId, String>,
    /// The sandboxes registered with the worker, in order.
    pub subworkers: Seq<SubworkerDefinition>,
}

/// The answer to a steal request for `ids[i]`, given the tasks that the
/// worker had when the request came: a waiting task is withdrawn the first
/// time the request names it, a running one stays, an unknown one is not here.
pub open spec fn steal_answer(tasks: Map<TaskId, LocalTaskState>, ids: Seq<TaskId>, i: int) -> StealResponse {
    if tasks.contains_key(ids[i]) && tasks[ids[i]] == LocalTaskState::Running {
        StealResponse::Running
    } else if tasks.contains_key(ids[i]) && !ids.take(i).contains(ids[i]) {
        StealResponse::Withdrawn
    } else {
        StealResponse::NotHere
    }
}

/// `responses` answers each of `ids` in order.
pub open spec fn steal_answers(
    responses: Seq<(TaskId, StealResponse)>,
    tasks: Map<TaskId, LocalTaskState>,
    ids: Seq<TaskId>,
) -> bool {
    &&& responses.len() == ids.len()
    &&& forall|i: int| 0 <= i < ids.len() ==> #[trigger] responses[i] == (ids[i], steal_answer(tasks, ids, i))
}

impl WorkerView {
    /// After `ComputeTask` for `id`: a task not yet known is queued.
    pub open spec fn after_compute(self, id: TaskId) -> WorkerView {
        if self.tasks.contains_key(id) {
            self
        } else {
            WorkerView { tasks: self.tasks.insert(id, LocalTaskState::Waiting), ..self }
        }
    }

    /// After `DeleteData` for `id`: the output of `id` is released, if held.
    pub open spec fn after_delete(self, id: TaskId) -> WorkerView {
        WorkerView { data: self.data.remove(id), ..self }
    }

    /// After `StealTasks` for `ids`: every waiting task that `ids` names is
    /// withdrawn.
    pub open spec fn after_steal(self, ids: Seq<TaskId>) -> WorkerView {
        WorkerView {
            tasks: Map::new(
                |k: TaskId|
                    self.tasks.contains_key(k) && !(self.tasks[k] == LocalTaskState::Waiting
                        && ids.contains(k)),
                |k: TaskId| self.tasks[k],
            ),
            ..self
        }
    }

    /// The task `id` is assigned and its execution has begun.
    pub open spec fn is_running(self, id: TaskId) -> bool {
        self.tasks.contains_key(id) && self.tasks[id] == LocalTaskState::Running
    }

    /// After the end of the running task `id`, whose output holds `size`
    /// bytes (`None` where it failed).
    pub open spec fn after_end(self, id: TaskId, size: Option<u64>) -> WorkerView {
        WorkerView {
            tasks: self.tasks.remove(id),
            data: match size {
                Some(n) => self.data.insert(id, n),
                None => self.data,
            },
            ..self
        }
    }
}

/// Releasing the output of a task twice leaves the worker as releasing it once.
pub proof fn lemma_delete_data_idempotent(s: WorkerView, id: TaskId)
    ensures
        s.after_delete(id).after_delete(id) == s.after_delete(id),
{
    assert(s.data.remove(id).remove(id) =~= s.data.remove(id));
}

/// Once a steal request has withdrawn a task, the worker can no longer
/// report it as finished or failed: the task is not running there.
pub proof fn lemma_withdrawn_never_reported(s: WorkerView, ids: Seq<TaskId>, i: int)
    requires
        0 <= i < ids.len(),
        steal_answer(s.tasks, ids, i) == StealResponse::Withdrawn,
    ensures
        !s.after_steal(ids).is_running(ids[i]),
        !s.after_steal(ids).tasks.contains_key(ids[i]),
{
    assert(ids.contains(ids[i]));
}

impl View for WorkerState {
    type V = WorkerView;

    closed spec fn view(&self) -> WorkerView {
        WorkerView {
            tasks: self.tasks@,
            data: self.data@,
            peers: self.peers@,
            subworkers: self.subworkers@,
        }
    }
}

impl WorkerState {
    /// A worker with no task, no data, no peer and no sandbox.
    pub fn new() -> (r: WorkerState)
        ensures
            r@.tasks == Map::<TaskId, LocalTaskState>::empty(),
            r@.data == Map::<TaskId, u64>::empty(),
            r@.peers == Map::<WorkerId, String>::empty(),
            r@.subworkers == Seq::<SubworkerDefinition>::empty(),
    {
        WorkerState {
            tasks: HashMap::new(),
            data: HashMap::new(),
            peers: HashMap::new(),
            subworkers: Vec::new(),
        }
    }

    /// Where task `id` stands here, if it is assigned here.
    pub fn task_state(&self, id: TaskId) -> (r: Option<LocalTaskState>)
        ensures
            r == (if self@.tasks.contains_key(id) {
                Some(self@.tasks[id])
            } else {
                None
            }),
    {
        match self.tasks.get(&id) {
            Some(s) => Some(*s),
            None => None,
        }
    }

    /// The size of the output of `id` that this worker holds, if it holds it.
    pub fn held_size(&self, id: TaskId) -> (r: Option<u64>)
        ensures
            r == (if self@.data.contains_key(id) {
                Some(self@.data[id])
            } else {
                None
            }),
    {
        match self.data.get(&id) {
            Some(s) => Some(*s),
            None => None,
        }
    }

    /// Accepts the dispatch of a task: it is queued, unless it is already
    /// assigned here.
    pub fn compute_task(&mut self, msg: &ComputeTaskMsg)
        ensures
            final(self)@ == old(self)@.after_compute(msg.id),
    {
        if !self.tasks.contains_key(&msg.id) {
            self.tasks.insert(msg.id, LocalTaskState::Waiting);
        }
    }

    /// Begins the execution of a queued task. Returns whether `id` was
    /// waiting here; nothing changes where it was not.
    pub fn start_task(&mut self, id: TaskId) -> (r: bool)
        ensures
            r == (old(self)@.tasks.contains_key(id) && old(self)@.tasks[id] == LocalTaskState::Waiting),
            final(self)@ == (if r {
                WorkerView { tasks: old(self)@.tasks.insert(id, LocalTaskState::Running), ..old(self)@ }
            } else {
                old(self)@
            }),
    {
        match self.task_state(id) {
            Some(LocalTaskState::Waiting) => {
                self.tasks.insert(id, LocalTaskState::Running);
                true
            },
            _ => false,
        }
    }

    /// Ends the running task `id` with an output of `size` bytes, which the
    /// worker now holds, and returns the report for the scheduler. A task
    /// that is not running here (withdrawn, unknown, or still waiting) gives
    /// no report and changes nothing.
    pub fn finish_task(&mut self, id: TaskId, size: u64) -> (r: Option<TaskFinishedMsg>)
        ensures
            old(self)@.is_running(id) ==> final(self)@ == old(self)@.after_end(id, Some(size))
                && r == Some(TaskFinishedMsg { id, size }),
            !old(self)@.is_running(id) ==> final(self)@ == old(self)@ && (r is None),
    {
        match self.task_state(id) {
            Some(LocalTaskState::Running) => {
                self.tasks.remove(&id);
                self.data.insert(id, size);
                Some(TaskFinishedMsg { id, size })
            },
            _ => None,
        }
    }

    /// Ends the running task `id` abnormally and returns the report for the
    /// scheduler. A task that is not running here gives no report and
    /// changes nothing.
    pub fn fail_task(&mut self, id: TaskId, info: TaskFailInfo) -> (r: Option<TaskFailedMsg>)
        ensures
            old(self)@.is_running(id) ==> final(self)@ == old(self)@.after_end(id, None)
                && r == Some(TaskFailedMsg { id, info }),
            !old(self)@.is_running(id) ==> final(self)@ == old(self)@ && (r is None),
    {
        match self.task_state(id) {
            Some(LocalTaskState::Running) => {
                self.tasks.remove(&id);
                Some(TaskFailedMsg { id, info })
            },
            _ => None,
        }
    }

    /// Releases the output of `id`; releasing one that is not held is no
    /// error.
    pub fn delete_data(&mut self, id: TaskId)
        ensures
            final(self)@ == old(self)@.after_delete(id),
    {
        self.data.remove(&id);
    }

    /// Answers a steal request: one answer per id, in order. Waiting tasks
    /// are withdrawn, running ones stay, and unknown ones are not here.
    pub fn steal_tasks(&mut self, ids: &Vec<TaskId>) -> (r: StealResponseMsg)
        ensures
            final(self)@ == old(self)@.after_steal(ids@),
            steal_answers(r.responses@, old(self)@.tasks, ids@),
    {
        let ghost start = self@;
        let mut responses: Vec<(TaskId, StealResponse)> = Vec::new();
        let mut i: usize = 0;
        assert(self@.tasks =~= start.after_steal(ids@.take(0)).tasks);
        while i < ids.len()
            invariant
                i <= ids.len(),
                self@ == start.after_steal(ids@.take(i as int)),
                responses@.len() == i,
                forall|j: int| 0 <= j < i ==> #[trigger] responses@[j] == (ids@[j], steal_answer(start.tasks, ids@, j)),
            decreases ids.len() - i,
        {
            let id = ids[i];
            let ghost before = ids@.take(i as int);
            let ghost after = ids@.take(i + 1);
            assert(after =~= before.push(id));
            let answer = match self.task_state(id) {
                Some(LocalTaskState::Running) => StealResponse::Running,
                Some(LocalTaskState::Waiting) => {
                    self.tasks.remove(&id);
                    StealResponse::Withdrawn
                },
                None => StealResponse::NotHere,
            };
            proof {
                if start.tasks.contains_key(id) && before.contains(id) {
                    let j = choose|j: int| 0 <= j < before.len() && before[j] == id;
                    assert(after[j] == id);
                }
                assert forall|k: TaskId| after.contains(k) <==> (before.contains(k) || k == id) by {
                    if after.contains(k) {
                        let j = choose|j: int| 0 <= j < after.len() && after[j] == k;
                        if j < i {
                            assert(before[j] == k);
                        }
                    }
                    if before.contains(k) {
                        let j = choose|j: int| 0 <= j < before.len() && before[j] == k;
                        assert(after[j] == k);
                    }
                    if k == id {
                        assert(after[i as int] == k);
                    }
                }
                assert(self@.tasks =~= start.after_steal(after).tasks);
            }
            responses.push((id, answer));
            i = i + 1;
        }
        assert(ids@.take(i as int) =~= ids@);
        StealResponseMsg { responses }
    }

    /// Learns the address of a peer worker.
    pub fn add_peer(&mut self, worker_id: WorkerId, address: String)
        ensures
            final(self)@ == (WorkerView { peers: old(self)@.peers.insert(worker_id, address), ..old(self)@ }),
    {
        self.peers.insert(worker_id, address);
    }

    /// Registers a local sandbox.
    pub fn register_subworker(&mut self, definition: SubworkerDefinition)
        ensures
            final(self)@ == (WorkerView { subworkers: old(self)@.subworkers.push(definition), ..old(self)@ }),
    {
        self.subworkers.push(definition);
    }

    /// The first of `holders` whose address this worker knows: the peer to
    /// fetch a dependency from. `None` where it knows none of them, and the
    /// data must come by another way.
    pub fn fetch_source(&self, holders: &Vec<WorkerId>) -> (r: Option<WorkerId>)
        ensures
            match r {
                Some(w) => exists|i: int|
                    0 <= i < holders@.len() && holders@[i] == w && self@.peers.contains_key(w)
                        && forall|j: int| 0 <= j < i ==> !self@.peers.contains_key(#[trigger] holders@[j]),
                None => forall|i: int| 0 <= i < holders@.len() ==> !self@.peers.contains_key(#[trigger] holders@[i]),
            },
    {
        let mut i: usize = 0;
        while i < holders.len()
            invariant
                i <= holders.len(),
                forall|j: int| 0 <= j < i ==> !self@.peers.contains_key(#[trigger] holders@[j]),
            decreases holders.len() - i,
        {
            if self.peers.contains_key(&holders[i]) {
                assert(holders@[i as int] == holders[i as int]);
                return Some(holders[i]);
            }
            i = i + 1;
        }
        None
    }

    /// Applies a message from the scheduler, and returns the answer that
    /// goes back, if the message asks for one.
    pub fn handle(&mut self, msg: ToWorkerMessage) -> (r: Option<FromWorkerMessage>)
        ensures
            match msg {
                ToWorkerMessage::ComputeTask(m) => final(self)@ == old(self)@.after_compute(m.id)
                    && (r is None),
                ToWorkerMessage::DeleteData(m) => final(self)@ == old(self)@.after_delete(m.id)
                    && (r is None),
                ToWorkerMessage::StealTasks(m) => final(self)@ == old(self)@.after_steal(m.ids@)
                    && (r matches Some(FromWorkerMessage::StealResponse(a))
                    && steal_answers(a.responses@, old(self)@.tasks, m.ids@)),
                ToWorkerMessage::NewWorker(m) => final(self)@ == (WorkerView {
                    peers: old(self)@.peers.insert(m.worker_id, m.address),
                    ..old(self)@
                }) && (r is None),
                ToWorkerMessage::RegisterSubworker(d) => final(self)@ == (WorkerView {
                    subworkers: old(self)@.subworkers.push(d),
                    ..old(self)@
                }) && (r is None),
            },
    {
        match msg {
            ToWorkerMessage::ComputeTask(m) => {
                self.compute_task(&m);
                None
            },
            ToWorkerMessage::DeleteData(m) => {
                self.delete_data(m.id);
                None
            },
            ToWorkerMessage::StealTasks(m) => {
                let answer = self.steal_tasks(&m.ids);
                Some(FromWorkerMessage::StealResponse(answer))
            },
            ToWorkerMessage::NewWorker(m) => {
                self.add_peer(m.worker_id, m.address);
                None
            },
            ToWorkerMessage::RegisterSubworker(d) => {
                self.register_subworker(d);
                None
            },
        }
    }
}

} // verus!
