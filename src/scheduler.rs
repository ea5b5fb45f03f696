//! The scheduler's authoritative record of every task: where it runs, how it
//! ended, and which workers hold its output.
use vstd::prelude::*;

use std::collections::HashMap;

use crate::messages::{
    ComputeTaskMsg, FromWorkerMessage, PriorityValue, StealResponse, StealResponseMsg, TaskId,
    TaskTypeId, WorkerId,
};

verus! {

broadcast use vstd::std_specs::hash::group_hash_axioms;

/// Where a task stands, as the scheduler sees it.
#[derive(Clone, Copy, Debug, PartialEq, Eq, Structural)]
pub enum TaskState {
    /// Sent to the worker, which is taken to run it.
    Dispatched(WorkerId),
    /// Sent to the worker, and asked back; the answer has not come.
    Stealing(WorkerId),
    /// Ended with an output of this many bytes.
    Finished(u64),
    /// Ended abnormally.
    Failed,
    /// Given back by its worker; it can be sent elsewhere.
    Stolen,
}

/// Why the scheduler discarded a report from a worker.
#[derive(Clone, Copy, Debug, PartialEq, Eq, Structural)]
pub enum SchedulerError {
    /// The report does not fit what the scheduler knows of the task: a late
    /// report of a task that was given back, a second report, or a report
    /// from a worker the task is not assigned to.
    ProtocolViolation,
    /// The scheduler has no record of the task.
    UnknownTask,
}

/// The scheduler's bookkeeping of tasks and of the holders of their outputs.
pub struct SchedulerState {
    tasks: HashMap<TaskId, TaskState>,
    holders: HashMap<TaskId, Vec<WorkerId>>,
    /// Every task id ever recorded, so that the tasks can be walked in a
    /// fixed order.
    known: Vec<TaskId>,
}

/// The abstract state of the scheduler.
pub struct SchedulerView {
    /// The state of each known task.
    pub tasks: Map<TaskId, TaskState>,
    /// For a finished task, the workers known to hold its output, each once.
    pub holders: Map<TaskId, Seq<WorkerId>>,
}

/// `s` without any occurrence of `w`, in the order of `s`.
pub open spec fn without(s: Seq<WorkerId>, w: WorkerId) -> Seq<WorkerId>
    decreases s.len(),
{
    if s.len() == 0 {
        s
    } else if s.last() == w {
        without(s.drop_last(), w)
    } else {
        without(s.drop_last(), w).push(s.last())
    }
}

proof fn lemma_without_idempotent(s: Seq<WorkerId>, w: WorkerId)
    ensures
        without(without(s, w), w) == without(s, w),
    decreases s.len(),
{
    if s.len() > 0 {
        lemma_without_idempotent(s.drop_last(), w);
        let r = without(s.drop_last(), w);
        if s.last() != w {
            assert(r.push(s.last()).drop_last() =~= r);
        }
    }
}

impl SchedulerView {
    /// The task `id` is assigned to worker `w`.
    pub open spec fn assigned_to(self, id: TaskId, w: WorkerId) -> bool {
        self.tasks.contains_key(id) && (self.tasks[id] == TaskState::Dispatched(w)
            || self.tasks[id] == TaskState::Stealing(w))
    }

    /// The workers known to hold the output of `id`.
    pub open spec fn holders_of(self, id: TaskId) -> Seq<WorkerId> {
        if self.holders.contains_key(id) {
            self.holders[id]
        } else {
            Seq::empty()
        }
    }

    /// The size of the output of `id`, or 0 where it has not finished.
    pub open spec fn output_size(self, id: TaskId) -> u64 {
        if self.tasks.contains_key(id) {
            match self.tasks[id] {
                TaskState::Finished(n) => n,
                _ => 0,
            }
        } else {
            0
        }
    }

    /// Whether `id` may be sent to a worker: it is new, or was given back.
    pub open spec fn dispatch_verdict(self, id: TaskId) -> Result<(), SchedulerError> {
        if !self.tasks.contains_key(id) || self.tasks[id] == TaskState::Stolen {
            Ok(())
        } else {
            Err(SchedulerError::ProtocolViolation)
        }
    }

    pub open spec fn after_dispatch(self, id: TaskId, w: WorkerId) -> SchedulerView {
        if self.dispatch_verdict(id) is Ok {
            SchedulerView { tasks: self.tasks.insert(id, TaskState::Dispatched(w)), ..self }
        } else {
            self
        }
    }

    /// Whether `w` may report the end of `id`: the task is assigned to it.
    pub open spec fn report_verdict(self, id: TaskId, w: WorkerId) -> Result<(), SchedulerError> {
        if !self.tasks.contains_key(id) {
            Err(SchedulerError::UnknownTask)
        } else if self.assigned_to(id, w) {
            Ok(())
        } else {
            Err(SchedulerError::ProtocolViolation)
        }
    }

    /// After `w` reports that `id` finished with `size` bytes: the task is
    /// finished and `w` is the one holder of its output.
    pub open spec fn after_finished(self, id: TaskId, w: WorkerId, size: u64) -> SchedulerView {
        if self.assigned_to(id, w) {
            SchedulerView {
                tasks: self.tasks.insert(id, TaskState::Finished(size)),
                holders: self.holders.insert(id, seq![w]),
            }
        } else {
            self
        }
    }

    /// After `w` reports that `id` failed.
    pub open spec fn after_failed(self, id: TaskId, w: WorkerId) -> SchedulerView {
        if self.assigned_to(id, w) {
            SchedulerView { tasks: self.tasks.insert(id, TaskState::Failed), ..self }
        } else {
            self
        }
    }

    /// Whether `id` may be asked back: it is dispatched and not being asked
    /// back already.
    pub open spec fn steal_request_verdict(self, id: TaskId) -> Result<WorkerId, SchedulerError> {
        if !self.tasks.contains_key(id) {
            Err(SchedulerError::UnknownTask)
        } else {
            match self.tasks[id] {
                TaskState::Dispatched(w) => Ok(w),
                _ => Err(SchedulerError::ProtocolViolation),
            }
        }
    }

    pub open spec fn after_steal_request(self, id: TaskId) -> SchedulerView {
        match self.steal_request_verdict(id) {
            Ok(w) => SchedulerView { tasks: self.tasks.insert(id, TaskState::Stealing(w)), ..self },
            Err(_) => self,
        }
    }

    /// Whether `w` may answer a steal request for `id`: one is pending there.
    pub open spec fn steal_verdict(self, id: TaskId, w: WorkerId) -> Result<(), SchedulerError> {
        if !self.tasks.contains_key(id) {
            Err(SchedulerError::UnknownTask)
        } else if self.tasks[id] == TaskState::Stealing(w) {
            Ok(())
        } else {
            Err(SchedulerError::ProtocolViolation)
        }
    }

    /// After `w` answers the steal request for `id`: a withdrawn task is
    /// stolen; otherwise it stays assigned to `w`, and the scheduler awaits
    /// its end.
    pub open spec fn after_steal_response(self, id: TaskId, w: WorkerId, answer: StealResponse) -> SchedulerView {
        if self.steal_verdict(id, w) is Ok {
            SchedulerView {
                tasks: self.tasks.insert(
                    id,
                    if answer == StealResponse::Withdrawn {
                        TaskState::Stolen
                    } else {
                        TaskState::Dispatched(w)
                    },
                ),
                ..self
            }
        } else {
            self
        }
    }

    /// After the answers `rs` of `w`, applied in order.
    pub open spec fn after_steal_responses(self, w: WorkerId, rs: Seq<(TaskId, StealResponse)>) -> SchedulerView
        decreases rs.len(),
    {
        if rs.len() == 0 {
            self
        } else {
            self.after_steal_responses(w, rs.drop_last()).after_steal_response(rs.last().0, w, rs.last().1)
        }
    }

    /// Whether `w` may report that it fetched the output of `id`: the task
    /// has finished.
    pub open spec fn download_verdict(self, id: TaskId) -> Result<(), SchedulerError> {
        if !self.tasks.contains_key(id) {
            Err(SchedulerError::UnknownTask)
        } else if self.tasks[id] is Finished {
            Ok(())
        } else {
            Err(SchedulerError::ProtocolViolation)
        }
    }

    /// After `w` fetched the output of `id`: `w` is a holder too.
    pub open spec fn after_download(self, id: TaskId, w: WorkerId) -> SchedulerView {
        if self.download_verdict(id) is Ok {
            SchedulerView {
                holders: self.holders.insert(
                    id,
                    if self.holders_of(id).contains(w) {
                        self.holders_of(id)
                    } else {
                        self.holders_of(id).push(w)
                    },
                ),
                ..self
            }
        } else {
            self
        }
    }

    /// After the connection to `w` is lost: every task assigned to `w` has an
    /// unknown outcome, and is treated as given back.
    pub open spec fn after_worker_lost(self, w: WorkerId) -> SchedulerView {
        SchedulerView {
            tasks: Map::new(
                |k: TaskId| self.tasks.contains_key(k),
                |k: TaskId|
                    if self.assigned_to(k, w) {
                        TaskState::Stolen
                    } else {
                        self.tasks[k]
                    },
            ),
            ..self
        }
    }

    /// After `w` was told to release the output of `id`: it is no longer a
    /// holder.
    pub open spec fn after_release(self, id: TaskId, w: WorkerId) -> SchedulerView {
        if self.holders.contains_key(id) {
            SchedulerView { holders: self.holders.insert(id, without(self.holders[id], w)), ..self }
        } else {
            self
        }
    }
}

/// Telling a worker twice to release an output leaves the scheduler's record
/// as telling it once.
pub proof fn lemma_release_idempotent(s: SchedulerView, id: TaskId, w: WorkerId)
    ensures
        s.after_release(id, w).after_release(id, w) == s.after_release(id, w),
{
    if s.holders.contains_key(id) {
        lemma_without_idempotent(s.holders[id], w);
        assert(s.after_release(id, w).after_release(id, w).holders =~= s.after_release(id, w).holders);
    }
}

/// The steal race: for one task, an accepted withdrawal and an accepted
/// report of its end exclude each other, in either order. Once a worker's
/// withdrawal is accepted, a report of the task's end from any worker is a
/// protocol violation; once a report of its end is accepted, a withdrawal
/// from any worker is one.
pub proof fn lemma_steal_race(s: SchedulerView, id: TaskId, w: WorkerId, w2: WorkerId, size: u64)
    ensures
        s.steal_verdict(id, w) is Ok ==> {
            let t = s.after_steal_response(id, w, StealResponse::Withdrawn);
            &&& t.report_verdict(id, w2) == Err::<(), SchedulerError>(SchedulerError::ProtocolViolation)
            &&& t.after_finished(id, w2, size) == t
            &&& t.after_failed(id, w2) == t
        },
        s.report_verdict(id, w) is Ok ==> {
            let f = s.after_finished(id, w, size);
            let g = s.after_failed(id, w);
            &&& f.steal_verdict(id, w2) == Err::<(), SchedulerError>(SchedulerError::ProtocolViolation)
            &&& f.after_steal_response(id, w2, StealResponse::Withdrawn) == f
            &&& g.steal_verdict(id, w2) == Err::<(), SchedulerError>(SchedulerError::ProtocolViolation)
            &&& g.after_steal_response(id, w2, StealResponse::Withdrawn) == g
        },
{
}

/// A copy of a list of worker ids without any occurrence of `w`.
fn copy_without(v: &Vec<WorkerId>, w: WorkerId) -> (r: Vec<WorkerId>)
    ensures
        r@ == without(v@, w),
{
    let mut r: Vec<WorkerId> = Vec::new();
    let mut i: usize = 0;
    while i < v.len()
        invariant
            i <= v.len(),
            r@ == without(v@.take(i as int), w),
        decreases v.len() - i,
    {
        assert(v@.take(i + 1).drop_last() =~= v@.take(i as int));
        if v[i] != w {
            r.push(v[i]);
        }
        i = i + 1;
    }
    assert(v@.take(i as int) =~= v@);
    r
}

/// Whether `v` holds `w`.
fn holds(v: &Vec<WorkerId>, w: WorkerId) -> (r: bool)
    ensures
        r == v@.contains(w),
{
    let mut i: usize = 0;
    while i < v.len()
        invariant
            i <= v.len(),
            forall|j: int| 0 <= j < i ==> v@[j] != w,
        decreases v.len() - i,
    {
        if v[i] == w {
            assert(v@[i as int] == w);
            return true;
        }
        i = i + 1;
    }
    false
}

impl View for SchedulerState {
    type V = SchedulerView;

    closed spec fn view(&self) -> SchedulerView {
        SchedulerView {
            tasks: self.tasks@,
            holders: Map::new(|k: TaskId| self.holders@.contains_key(k), |k: TaskId| self.holders@[k]@),
        }
    }
}

impl SchedulerState {
    /// Every recorded task can be found by walking the known ids.
    pub closed spec fn wf(&self) -> bool {
        forall|k: TaskId| self.tasks@.contains_key(k) ==> self.known@.contains(k)
    }

    /// A scheduler that knows no task.
    pub fn new() -> (r: SchedulerState)
        ensures
            r.wf(),
            r@.tasks == Map::<TaskId, TaskState>::empty(),
            r@.holders == Map::<TaskId, Seq<WorkerId>>::empty(),
    {
        let r = SchedulerState { tasks: HashMap::new(), holders: HashMap::new(), known: Vec::new() };
        assert(r@.holders =~= Map::<TaskId, Seq<WorkerId>>::empty());
        r
    }

    /// Where task `id` stands, if the scheduler knows it.
    pub fn state_of(&self, id: TaskId) -> (r: Option<TaskState>)
        ensures
            r == (if self@.tasks.contains_key(id) {
                Some(self@.tasks[id])
            } else {
                None
            }),
    {
        match self.tasks.get(&id) {
            Some(t) => Some(*t),
            None => None,
        }
    }

    /// The workers known to hold the output of `id`.
    pub fn holders_of(&self, id: TaskId) -> (r: Vec<WorkerId>)
        ensures
            r@ == self@.holders_of(id),
    {
        match self.holders.get(&id) {
            Some(v) => crate::messages::copy_ids(v),
            None => Vec::new(),
        }
    }

    fn set_holders(&mut self, id: TaskId, v: Vec<WorkerId>)
        requires
            old(self).wf(),
        ensures
            final(self).wf(),
            final(self)@ == (SchedulerView { holders: old(self)@.holders.insert(id, v@), ..old(self)@ }),
    {
        self.holders.insert(id, v);
        assert(self@.holders =~= old(self)@.holders.insert(id, v@));
    }

    /// Records that `id` is sent to worker `w`; refused, with nothing
    /// changed, where the task is already out or has ended.
    pub fn dispatch(&mut self, id: TaskId, w: WorkerId) -> (r: Result<(), SchedulerError>)
        requires
            old(self).wf(),
        ensures
            final(self).wf(),
            r == old(self)@.dispatch_verdict(id),
            final(self)@ == old(self)@.after_dispatch(id, w),
    {
        match self.state_of(id) {
            None => {
                self.known.push(id);
                self.tasks.insert(id, TaskState::Dispatched(w));
                proof {
                    assert(self.known@[self.known@.len() - 1] == id);
                    assert forall|k: TaskId| old(self).known@.contains(k) implies self.known@.contains(k) by {
                        let j = choose|j: int| 0 <= j < old(self).known@.len() && old(self).known@[j] == k;
                        assert(self.known@[j] == k);
                    }
                }
                Ok(())
            },
            Some(TaskState::Stolen) => {
                self.tasks.insert(id, TaskState::Dispatched(w));
                Ok(())
            },
            _ => Err(SchedulerError::ProtocolViolation),
        }
    }

    /// Records that `id` is being asked back, and returns the worker to ask.
    pub fn request_steal(&mut self, id: TaskId) -> (r: Result<WorkerId, SchedulerError>)
        requires
            old(self).wf(),
        ensures
            final(self).wf(),
            r == old(self)@.steal_request_verdict(id),
            final(self)@ == old(self)@.after_steal_request(id),
    {
        match self.state_of(id) {
            None => Err(SchedulerError::UnknownTask),
            Some(TaskState::Dispatched(w)) => {
                self.tasks.insert(id, TaskState::Stealing(w));
                Ok(w)
            },
            _ => Err(SchedulerError::ProtocolViolation),
        }
    }

    /// Handles worker `w`'s report that `id` finished with `size` bytes.
    pub fn on_task_finished(&mut self, w: WorkerId, id: TaskId, size: u64) -> (r: Result<(), SchedulerError>)
        requires
            old(self).wf(),
        ensures
            final(self).wf(),
            r == old(self)@.report_verdict(id, w),
            final(self)@ == old(self)@.after_finished(id, w, size),
    {
        let verdict = self.report_verdict(w, id);
        if verdict.is_ok() {
            self.tasks.insert(id, TaskState::Finished(size));
            let mut v: Vec<WorkerId> = Vec::new();
            v.push(w);
            assert(v@ =~= seq![w]);
            self.set_holders(id, v);
        }
        verdict
    }

    /// Handles worker `w`'s report that `id` failed.
    pub fn on_task_failed(&mut self, w: WorkerId, id: TaskId) -> (r: Result<(), SchedulerError>)
        requires
            old(self).wf(),
        ensures
            final(self).wf(),
            r == old(self)@.report_verdict(id, w),
            final(self)@ == old(self)@.after_failed(id, w),
    {
        let verdict = self.report_verdict(w, id);
        if verdict.is_ok() {
            self.tasks.insert(id, TaskState::Failed);
        }
        verdict
    }

    fn report_verdict(&self, w: WorkerId, id: TaskId) -> (r: Result<(), SchedulerError>)
        ensures
            r == self@.report_verdict(id, w),
    {
        match self.state_of(id) {
            None => Err(SchedulerError::UnknownTask),
            Some(TaskState::Dispatched(v)) | Some(TaskState::Stealing(v)) => if v == w {
                Ok(())
            } else {
                Err(SchedulerError::ProtocolViolation)
            },
            _ => Err(SchedulerError::ProtocolViolation),
        }
    }

    /// Handles worker `w`'s answer to the steal request for `id`.
    pub fn on_steal_response(&mut self, w: WorkerId, id: TaskId, answer: StealResponse) -> (r: Result<(), SchedulerError>)
        requires
            old(self).wf(),
        ensures
            final(self).wf(),
            r == old(self)@.steal_verdict(id, w),
            final(self)@ == old(self)@.after_steal_response(id, w, answer),
    {
        match self.state_of(id) {
            None => Err(SchedulerError::UnknownTask),
            Some(TaskState::Stealing(v)) => if v == w {
                let next = match answer {
                    StealResponse::Withdrawn => TaskState::Stolen,
                    _ => TaskState::Dispatched(w),
                };
                self.tasks.insert(id, next);
                Ok(())
            } else {
                Err(SchedulerError::ProtocolViolation)
            },
            _ => Err(SchedulerError::ProtocolViolation),
        }
    }

    /// Handles all the answers of one steal response of worker `w`, in
    /// order, and returns the verdict on each.
    pub fn on_steal_responses(&mut self, w: WorkerId, msg: &StealResponseMsg) -> (r: Vec<Result<(), SchedulerError>>)
        requires
            old(self).wf(),
        ensures
            final(self).wf(),
            final(self)@ == old(self)@.after_steal_responses(w, msg.responses@),
            r@.len() == msg.responses@.len(),
            forall|i: int| 0 <= i < r@.len() ==> #[trigger] r@[i] == old(self)@.after_steal_responses(
                w,
                msg.responses@.take(i),
            ).steal_verdict(msg.responses@[i].0, w),
    {
        let ghost start = self@;
        let rs = &msg.responses;
        let mut verdicts: Vec<Result<(), SchedulerError>> = Vec::new();
        let mut i: usize = 0;
        assert(rs@.take(0) =~= Seq::<(TaskId, StealResponse)>::empty());
        while i < rs.len()
            invariant
                i <= rs.len(),
                self.wf(),
                self@ == start.after_steal_responses(w, rs@.take(i as int)),
                verdicts@.len() == i,
                forall|j: int| 0 <= j < i ==> #[trigger] verdicts@[j] == start.after_steal_responses(
                    w,
                    rs@.take(j),
                ).steal_verdict(rs@[j].0, w),
            decreases rs.len() - i,
        {
            let (id, answer) = rs[i];
            assert(rs@.take(i + 1).drop_last() =~= rs@.take(i as int));
            let v = self.on_steal_response(w, id, answer);
            verdicts.push(v);
            i = i + 1;
        }
        assert(rs@.take(i as int) =~= rs@);
        verdicts
    }

    /// Handles worker `w`'s report that it fetched the output of `id`.
    pub fn on_data_downloaded(&mut self, w: WorkerId, id: TaskId) -> (r: Result<(), SchedulerError>)
        requires
            old(self).wf(),
        ensures
            final(self).wf(),
            r == old(self)@.download_verdict(id),
            final(self)@ == old(self)@.after_download(id, w),
    {
        match self.state_of(id) {
            None => Err(SchedulerError::UnknownTask),
            Some(TaskState::Finished(_)) => {
                let mut v = self.holders_of(id);
                if !holds(&v, w) {
                    v.push(w);
                }
                self.set_holders(id, v);
                Ok(())
            },
            _ => Err(SchedulerError::ProtocolViolation),
        }
    }

    /// Handles the loss of the connection to worker `w`: each task assigned
    /// to it may be sent elsewhere.
    pub fn on_worker_lost(&mut self, w: WorkerId)
        requires
            old(self).wf(),
        ensures
            final(self).wf(),
            final(self)@ == old(self)@.after_worker_lost(w),
    {
        let ghost start = self@;
        let mut i: usize = 0;
        while i < self.known.len()
            invariant
                i <= self.known.len(),
                self@.holders == start.holders,
                forall|k: TaskId| self@.tasks.contains_key(k) ==> self.known@.contains(k),
                forall|k: TaskId| #[trigger] self@.tasks.contains_key(k) <==> start.tasks.contains_key(k),
                forall|k: TaskId|
                    #![trigger self@.tasks[k]]
                    start.tasks.contains_key(k) ==> self@.tasks[k] == start.tasks[k] || (
                    start.assigned_to(k, w) && self@.tasks[k] == TaskState::Stolen),
                forall|j: int| 0 <= j < i ==> !self@.assigned_to(#[trigger] self.known@[j], w),
            decreases self.known.len() - i,
        {
            let id = self.known[i];
            match self.state_of(id) {
                Some(TaskState::Dispatched(v)) | Some(TaskState::Stealing(v)) => {
                    if v == w {
                        self.tasks.insert(id, TaskState::Stolen);
                    }
                },
                _ => {},
            }
            i = i + 1;
        }
        proof {
            assert forall|k: TaskId| start.tasks.contains_key(k) implies self@.tasks[k] == (if start.assigned_to(k, w) {
                TaskState::Stolen
            } else {
                start.tasks[k]
            }) by {
                assert(self@.tasks.contains_key(k));
                assert(self.known@.contains(k));
                let j = choose|j: int| 0 <= j < self.known@.len() && self.known@[j] == k;
                assert(!self@.assigned_to(self.known@[j], w));
            }
            assert(self@.tasks =~= start.after_worker_lost(w).tasks);
        }
    }

    /// Records that worker `w` was told to release the output of `id`.
    /// Doing so twice is as doing it once.
    pub fn release(&mut self, id: TaskId, w: WorkerId)
        requires
            old(self).wf(),
        ensures
            final(self).wf(),
            final(self)@ == old(self)@.after_release(id, w),
    {
        let kept = match self.holders.get(&id) {
            Some(v) => Some(copy_without(v, w)),
            None => None,
        };
        match kept {
            Some(v) => self.set_holders(id, v),
            None => {},
        }
    }

    /// Handles a message of worker `w`, and returns the verdict on each
    /// report that it carries: one, or one per answer of a steal response.
    pub fn on_message(&mut self, w: WorkerId, msg: &FromWorkerMessage) -> (r: Vec<Result<(), SchedulerError>>)
        requires
            old(self).wf(),
        ensures
            final(self).wf(),
            match msg {
                FromWorkerMessage::TaskFinished(m) => final(self)@ == old(self)@.after_finished(m.id, w, m.size)
                    && r@ == seq![old(self)@.report_verdict(m.id, w)],
                FromWorkerMessage::TaskFailed(m) => final(self)@ == old(self)@.after_failed(m.id, w)
                    && r@ == seq![old(self)@.report_verdict(m.id, w)],
                FromWorkerMessage::DataDownloaded(m) => final(self)@ == old(self)@.after_download(m.id, w)
                    && r@ == seq![old(self)@.download_verdict(m.id)],
                FromWorkerMessage::StealResponse(m) => final(self)@ == old(self)@.after_steal_responses(w, m.responses@)
                    && r@.len() == m.responses@.len()
                    && forall|i: int| 0 <= i < r@.len() ==> #[trigger] r@[i] == old(self)@.after_steal_responses(
                        w,
                        m.responses@.take(i),
                    ).steal_verdict(m.responses@[i].0, w),
            },
    {
        let mut r: Vec<Result<(), SchedulerError>> = Vec::new();
        match msg {
            FromWorkerMessage::TaskFinished(m) => {
                let v = self.on_task_finished(w, m.id, m.size);
                r.push(v);
            },
            FromWorkerMessage::TaskFailed(m) => {
                let v = self.on_task_failed(w, m.id);
                r.push(v);
            },
            FromWorkerMessage::DataDownloaded(m) => {
                let v = self.on_data_downloaded(w, m.id);
                r.push(v);
            },
            FromWorkerMessage::StealResponse(m) => {
                r = self.on_steal_responses(w, m);
            },
        }
        proof {
            if !(msg is StealResponse) {
                assert(r@ =~= seq![r@[0]]);
            }
        }
        r
    }

    /// The dispatch message for task `id` with inputs `deps`: each input
    /// comes with the size of its output and the workers that hold it now.
    pub fn compute_task_msg(
        &self,
        id: TaskId,
        type_id: TaskTypeId,
        deps: &Vec<TaskId>,
        spec: Vec<u8>,
        user_priority: PriorityValue,
        scheduler_priority: PriorityValue,
    ) -> (r: ComputeTaskMsg)
        ensures
            r.id == id,
            r.type_id == type_id,
            r.spec == spec,
            r.user_priority == user_priority,
            r.scheduler_priority == scheduler_priority,
            r.dep_info@.len() == deps@.len(),
            forall|i: int| 0 <= i < deps@.len() ==> {
                &&& (#[trigger] r.dep_info@[i]).0 == deps@[i]
                &&& r.dep_info@[i].1 == self@.output_size(deps@[i])
                &&& r.dep_info@[i].2@ == self@.holders_of(deps@[i])
            },
    {
        let mut dep_info: Vec<(TaskId, u64, Vec<WorkerId>)> = Vec::new();
        let mut i: usize = 0;
        while i < deps.len()
            invariant
                i <= deps.len(),
                dep_info@.len() == i,
                forall|j: int| 0 <= j < i ==> {
                    &&& (#[trigger] dep_info@[j]).0 == deps@[j]
                    &&& dep_info@[j].1 == self@.output_size(deps@[j])
                    &&& dep_info@[j].2@ == self@.holders_of(deps@[j])
                },
            decreases deps.len() - i,
        {
            let d = deps[i];
            let size = match self.state_of(d) {
                Some(TaskState::Finished(n)) => n,
                _ => 0,
            };
            dep_info.push((d, size, self.holders_of(d)));
            i = i + 1;
        }
        ComputeTaskMsg { id, type_id, dep_info, spec, user_priority, scheduler_priority }
    }
}

} // verus!
