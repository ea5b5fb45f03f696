//! The messages that the scheduler and its workers exchange.
use vstd::prelude::*;

use std::collections::HashMap;

verus! {

/// Identifies a task for as long as the task exists.
pub type TaskId = u64;

/// Identifies a worker for as long as its connection lasts.
pub type WorkerId = u64;

/// The category of executable that a task needs.
pub type TaskTypeId = u32;

/// A priority; larger values go first.
pub type PriorityValue = i32;

/// Why a task failed; carried to the scheduler as it is.
#[derive(Clone, Debug, PartialEq, Eq)]
pub struct TaskFailInfo {
    pub data: Vec<u8>,
}

/// A local execution sandbox that a worker can use; routed, never read.
#[derive(Clone, Debug, PartialEq, Eq)]
pub struct SubworkerDefinition {
    pub id: u32,
    pub data: Vec<u8>,
}

/// What the scheduler tells a worker that has just registered.
#[derive(Clone, Debug, PartialEq, Eq)]
pub struct WorkerRegistrationResponse {
    pub worker_id: WorkerId,
    pub worker_addresses: HashMap<WorkerId, String>,
    pub subworker_definitions: Vec<SubworkerDefinition>,
}

/// Dispatch of one task to a worker.
///
/// `dep_info` lists each input of the task: its id, the size of its output in
/// bytes, and the workers that held that output when the task was sent.
#[derive(Clone, Debug, PartialEq, Eq)]
pub struct ComputeTaskMsg {
    pub id: TaskId,
    pub type_id: TaskTypeId,
    pub dep_info: Vec<(TaskId, u64, Vec<WorkerId>)>,
    pub spec: Vec<u8>,
    pub user_priority: PriorityValue,
    pub scheduler_priority: PriorityValue,
}

#[derive(Clone, Debug, PartialEq, Eq)]
pub struct TaskIdsMsg {
    pub ids: Vec<TaskId>,
}

#[derive(Clone, Debug, PartialEq, Eq)]
pub struct NewWorkerMsg {
    pub worker_id: WorkerId,
    pub address: String,
}

#[derive(Clone, Debug, PartialEq, Eq)]
pub struct TaskIdMsg {
    pub id: TaskId,
}

/// A message from the scheduler to a worker.
#[derive(Clone, Debug, PartialEq, Eq)]
pub enum ToWorkerMessage {
    ComputeTask(ComputeTaskMsg),
    DeleteData(TaskIdMsg),
    StealTasks(TaskIdsMsg),
    NewWorker(NewWorkerMsg),
    RegisterSubworker(SubworkerDefinition),
}

#[derive(Clone, Debug, PartialEq, Eq)]
pub struct TaskFinishedMsg {
    pub id: TaskId,
    pub size: u64,
}

#[derive(Clone, Debug, PartialEq, Eq)]
pub struct TaskFailedMsg {
    pub id: TaskId,
    pub info: TaskFailInfo,
}

#[derive(Clone, Debug, PartialEq, Eq)]
pub struct DataDownloadedMsg {
    pub id: TaskId,
}

/// A worker's answer for one task that the scheduler asked back.
#[derive(Clone, Copy, Debug, PartialEq, Eq, Structural)]
pub enum StealResponse {
    /// The task had not started; it is withdrawn and will never be reported
    /// (on the wire this answer is named `Ok`).
    Withdrawn,
    /// The worker has no record of the task.
    NotHere,
    /// The task has started; it stays with the worker.
    Running,
}

#[derive(Clone, Debug, PartialEq, Eq)]
pub struct StealResponseMsg {
    pub responses: Vec<(TaskId, StealResponse)>,
}

/// A message from a worker to the scheduler.
#[derive(Clone, Debug, PartialEq, Eq)]
pub enum FromWorkerMessage {
    TaskFinished(TaskFinishedMsg),
    TaskFailed(TaskFailedMsg),
    DataDownloaded(DataDownloadedMsg),
    StealResponse(StealResponseMsg),
}

/// The index of the first entry of `deps` about task `dep`, if there is one.
pub open spec fn first_dep_index(deps: Seq<(TaskId, u64, Vec<WorkerId>)>, dep: TaskId) -> Option<int> {
    if exists|i: int| 0 <= i < deps.len() && deps[i].0 == dep {
        Some(choose|i: int| 0 <= i < deps.len() && deps[i].0 == dep && forall|j: int| 0 <= j < i ==> deps[j].0 != dep)
    } else {
        None
    }
}

/// A copy of a list of ids.
pub(crate) fn copy_ids(v: &Vec<u64>) -> (r: Vec<u64>)
    ensures
        r@ == v@,
{
    let mut r: Vec<u64> = Vec::new();
    let mut i: usize = 0;
    while i < v.len()
        invariant
            i <= v.len(),
            r@ == v@.take(i as int),
        decreases v.len() - i,
    {
        r.push(v[i]);
        i = i + 1;
        assert(r@ =~= v@.take(i as int));
    }
    assert(v@.take(i as int) =~= v@);
    r
}

impl ComputeTaskMsg {
    /// Where the output of input `dep` can be fetched from: its size in
    /// bytes and the workers that hold it, as the first entry of `dep_info`
    /// about `dep` gives them. `None` where the task has no such input. An
    /// empty list of holders means that no peer can serve the data.
    pub fn dependency(&self, dep: TaskId) -> (r: Option<(u64, Vec<WorkerId>)>)
        ensures
            match first_dep_index(self.dep_info@, dep) {
                None => r is None,
                Some(i) => r matches Some((size, holders)) && size == self.dep_info@[i].1
                    && holders@ == self.dep_info@[i].2@,
            },
    {
        let mut i: usize = 0;
        while i < self.dep_info.len()
            invariant
                i <= self.dep_info.len(),
                forall|j: int| 0 <= j < i ==> self.dep_info@[j].0 != dep,
            decreases self.dep_info.len() - i,
        {
            if self.dep_info[i].0 == dep {
                let ghost deps = self.dep_info@;
                assert(0 <= i < deps.len() && deps[i as int].0 == dep);
                let ghost k = choose|k: int| 0 <= k < deps.len() && deps[k].0 == dep && forall|j: int| 0 <= j < k ==> deps[j].0 != dep;
                assert(k == i) by {
                    if k > i {
                        assert(deps[i as int].0 != dep);
                    }
                }
                return Some((self.dep_info[i].1, copy_ids(&self.dep_info[i].2)));
            }
            i = i + 1;
        }
        None
    }
}

} // verus!
