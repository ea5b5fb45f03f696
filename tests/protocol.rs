use tako::messages::{
    ComputeTaskMsg, DataDownloadedMsg, FromWorkerMessage, NewWorkerMsg, StealResponse,
    StealResponseMsg, SubworkerDefinition, TaskFailInfo, TaskFinishedMsg, TaskIdMsg, TaskIdsMsg,
    ToWorkerMessage,
};
use tako::scheduler::{SchedulerError, SchedulerState, TaskState};
use tako::worker::{LocalTaskState, WorkerState};

fn compute(id: u64, dep_info: Vec<(u64, u64, Vec<u64>)>) -> ComputeTaskMsg {
    ComputeTaskMsg {
        id,
        type_id: 1,
        dep_info,
        spec: vec![1, 2, 3],
        user_priority: 0,
        scheduler_priority: 0,
    }
}

#[test]
fn dependency_holder_is_known_before_fetch() {
    // T1 needs T0's 1024 bytes, which W2 holds.
    let msg = compute(1, vec![(0, 1024, vec![2])]);
    assert_eq!(msg.dependency(0), Some((1024, vec![2])));
    assert_eq!(msg.dependency(7), None);

    let mut w1 = WorkerState::new();
    w1.add_peer(2, "10.0.0.2:1234".to_string());
    w1.compute_task(&msg);
    let (size, holders) = msg.dependency(0).unwrap();
    assert_eq!(size, 1024);
    assert_eq!(w1.fetch_source(&holders), Some(2));
}

#[test]
fn fetch_source_picks_first_known_peer() {
    let mut w = WorkerState::new();
    w.add_peer(5, "a".to_string());
    w.add_peer(9, "b".to_string());
    assert_eq!(w.fetch_source(&vec![3, 9, 5]), Some(9));
    assert_eq!(w.fetch_source(&vec![3, 4]), None);
    assert_eq!(w.fetch_source(&vec![]), None);
}

#[test]
fn dependency_takes_first_entry() {
    let msg = compute(1, vec![(4, 10, vec![]), (0, 1, vec![3]), (0, 2, vec![8])]);
    assert_eq!(msg.dependency(0), Some((1, vec![3])));
    assert_eq!(msg.dependency(4), Some((10, vec![])));
}

#[test]
fn steal_of_started_task_is_running_and_stays() {
    // the scheduler asks W1 for T5, which W1 has already started
    let mut sched = SchedulerState::new();
    assert_eq!(sched.dispatch(5, 1), Ok(()));
    let mut w1 = WorkerState::new();
    w1.compute_task(&compute(5, vec![]));
    assert!(w1.start_task(5));
    assert_eq!(sched.request_steal(5), Ok(1));

    let answer = w1.handle(ToWorkerMessage::StealTasks(TaskIdsMsg { ids: vec![5] }));
    let expected = StealResponseMsg { responses: vec![(5, StealResponse::Running)] };
    assert_eq!(answer, Some(FromWorkerMessage::StealResponse(expected)));
    assert_eq!(w1.task_state(5), Some(LocalTaskState::Running));

    let verdicts = sched.on_message(1, &answer.unwrap());
    assert_eq!(verdicts, vec![Ok(())]);
    assert_eq!(sched.state_of(5), Some(TaskState::Dispatched(1)));

    // the task ends on W1 and the report is accepted
    let done = w1.finish_task(5, 64).unwrap();
    assert_eq!(done, TaskFinishedMsg { id: 5, size: 64 });
    assert_eq!(sched.on_task_finished(1, 5, 64), Ok(()));
    assert_eq!(sched.state_of(5), Some(TaskState::Finished(64)));
    assert_eq!(sched.holders_of(5), vec![1]);
}

#[test]
fn steal_answers_each_id() {
    let mut w = WorkerState::new();
    w.compute_task(&compute(1, vec![]));
    w.compute_task(&compute(2, vec![]));
    assert!(w.start_task(2));
    let r = w.steal_tasks(&vec![1, 2, 3, 1]);
    assert_eq!(
        r.responses,
        vec![
            (1, StealResponse::Withdrawn),
            (2, StealResponse::Running),
            (3, StealResponse::NotHere),
            (1, StealResponse::NotHere),
        ]
    );
    assert_eq!(w.task_state(1), None);
    assert_eq!(w.task_state(2), Some(LocalTaskState::Running));
    // a withdrawn task can neither start nor be reported
    assert!(!w.start_task(1));
    assert_eq!(w.finish_task(1, 3), None);
    assert_eq!(w.fail_task(1, TaskFailInfo { data: vec![] }), None);
}

#[test]
fn late_finish_after_withdrawal_is_a_violation() {
    let mut sched = SchedulerState::new();
    sched.dispatch(7, 1).unwrap();
    assert_eq!(sched.request_steal(7), Ok(1));
    assert_eq!(sched.on_steal_response(1, 7, StealResponse::Withdrawn), Ok(()));
    assert_eq!(sched.state_of(7), Some(TaskState::Stolen));
    assert_eq!(
        sched.on_task_finished(1, 7, 100),
        Err(SchedulerError::ProtocolViolation)
    );
    assert_eq!(sched.on_task_failed(1, 7), Err(SchedulerError::ProtocolViolation));
    assert_eq!(sched.state_of(7), Some(TaskState::Stolen));
    assert_eq!(sched.holders_of(7), Vec::<u64>::new());
    // the stolen task can go elsewhere
    assert_eq!(sched.dispatch(7, 2), Ok(()));
    assert_eq!(sched.state_of(7), Some(TaskState::Dispatched(2)));
}

#[test]
fn withdrawal_after_finish_is_a_violation() {
    let mut sched = SchedulerState::new();
    sched.dispatch(8, 1).unwrap();
    assert_eq!(sched.request_steal(8), Ok(1));
    assert_eq!(sched.on_task_finished(1, 8, 5), Ok(()));
    assert_eq!(
        sched.on_steal_response(1, 8, StealResponse::Withdrawn),
        Err(SchedulerError::ProtocolViolation)
    );
    assert_eq!(sched.state_of(8), Some(TaskState::Finished(5)));
}

#[test]
fn not_here_keeps_the_assignment() {
    let mut sched = SchedulerState::new();
    sched.dispatch(3, 4).unwrap();
    sched.request_steal(3).unwrap();
    assert_eq!(sched.on_steal_response(4, 3, StealResponse::NotHere), Ok(()));
    assert_eq!(sched.state_of(3), Some(TaskState::Dispatched(4)));
}

#[test]
fn scheduler_errors() {
    let mut sched = SchedulerState::new();
    assert_eq!(sched.on_task_finished(1, 9, 1), Err(SchedulerError::UnknownTask));
    assert_eq!(sched.request_steal(9), Err(SchedulerError::UnknownTask));
    assert_eq!(sched.on_data_downloaded(1, 9), Err(SchedulerError::UnknownTask));
    assert_eq!(
        sched.on_steal_response(1, 9, StealResponse::Running),
        Err(SchedulerError::UnknownTask)
    );
    sched.dispatch(9, 1).unwrap();
    assert_eq!(sched.dispatch(9, 2), Err(SchedulerError::ProtocolViolation));
    assert_eq!(sched.on_task_finished(2, 9, 1), Err(SchedulerError::ProtocolViolation));
    assert_eq!(
        sched.on_steal_response(1, 9, StealResponse::Withdrawn),
        Err(SchedulerError::ProtocolViolation)
    );
    assert_eq!(sched.on_data_downloaded(1, 9), Err(SchedulerError::ProtocolViolation));
    sched.request_steal(9).unwrap();
    assert_eq!(sched.request_steal(9), Err(SchedulerError::ProtocolViolation));
    assert_eq!(sched.state_of(9), Some(TaskState::Stealing(1)));
}

#[test]
fn failure_is_terminal() {
    let mut w = WorkerState::new();
    w.compute_task(&compute(6, vec![]));
    assert!(w.start_task(6));
    let info = TaskFailInfo { data: vec![0xff, 0] };
    let report = w.fail_task(6, info.clone()).unwrap();
    assert_eq!(report.id, 6);
    assert_eq!(report.info, info);
    assert_eq!(w.task_state(6), None);
    assert_eq!(w.held_size(6), None);

    let mut sched = SchedulerState::new();
    sched.dispatch(6, 1).unwrap();
    let verdicts = sched.on_message(1, &FromWorkerMessage::TaskFailed(report));
    assert_eq!(verdicts, vec![Ok(())]);
    assert_eq!(sched.state_of(6), Some(TaskState::Failed));
    assert_eq!(sched.dispatch(6, 2), Err(SchedulerError::ProtocolViolation));
}

#[test]
fn delete_data_twice_is_delete_once() {
    let mut w = WorkerState::new();
    w.compute_task(&compute(1, vec![]));
    w.start_task(1);
    w.finish_task(1, 10).unwrap();
    w.compute_task(&compute(2, vec![]));
    w.start_task(2);
    w.finish_task(2, 20).unwrap();
    assert_eq!(w.held_size(1), Some(10));
    assert!(w.handle(ToWorkerMessage::DeleteData(TaskIdMsg { id: 1 })).is_none());
    assert_eq!(w.held_size(1), None);
    assert!(w.handle(ToWorkerMessage::DeleteData(TaskIdMsg { id: 1 })).is_none());
    assert_eq!(w.held_size(1), None);
    assert_eq!(w.held_size(2), Some(20));
    // a worker that never held the data
    let mut fresh = WorkerState::new();
    fresh.delete_data(3);
    assert_eq!(fresh.held_size(3), None);
}

#[test]
fn release_twice_is_release_once() {
    let mut sched = SchedulerState::new();
    sched.dispatch(1, 1).unwrap();
    sched.on_task_finished(1, 1, 10).unwrap();
    assert_eq!(
        sched.on_message(2, &FromWorkerMessage::DataDownloaded(DataDownloadedMsg { id: 1 })),
        vec![Ok(())]
    );
    sched.on_data_downloaded(3, 1).unwrap();
    sched.on_data_downloaded(2, 1).unwrap();
    assert_eq!(sched.holders_of(1), vec![1, 2, 3]);
    sched.release(1, 2);
    assert_eq!(sched.holders_of(1), vec![1, 3]);
    sched.release(1, 2);
    assert_eq!(sched.holders_of(1), vec![1, 3]);
    sched.release(5, 2);
    assert_eq!(sched.holders_of(5), Vec::<u64>::new());
}

#[test]
fn compute_task_msg_lists_dependency_holders() {
    let mut sched = SchedulerState::new();
    sched.dispatch(0, 2).unwrap();
    sched.on_task_finished(2, 0, 1024).unwrap();
    sched.dispatch(4, 3).unwrap();
    let msg = sched.compute_task_msg(1, 7, &vec![0, 4], vec![9], 3, -1);
    assert_eq!(msg.id, 1);
    assert_eq!(msg.type_id, 7);
    assert_eq!(msg.dep_info, vec![(0, 1024, vec![2]), (4, 0, vec![])]);
    assert_eq!(msg.spec, vec![9]);
    assert_eq!(msg.user_priority, 3);
    assert_eq!(msg.scheduler_priority, -1);
}

#[test]
fn steal_responses_are_applied_in_order() {
    let mut sched = SchedulerState::new();
    sched.dispatch(1, 1).unwrap();
    sched.dispatch(2, 1).unwrap();
    sched.request_steal(1).unwrap();
    sched.request_steal(2).unwrap();
    let msg = StealResponseMsg {
        responses: vec![
            (1, StealResponse::Withdrawn),
            (2, StealResponse::Running),
            (1, StealResponse::Withdrawn),
            (9, StealResponse::NotHere),
        ],
    };
    let verdicts = sched.on_steal_responses(1, &msg);
    assert_eq!(
        verdicts,
        vec![
            Ok(()),
            Ok(()),
            Err(SchedulerError::ProtocolViolation),
            Err(SchedulerError::UnknownTask),
        ]
    );
    assert_eq!(sched.state_of(1), Some(TaskState::Stolen));
    assert_eq!(sched.state_of(2), Some(TaskState::Dispatched(1)));
}

#[test]
fn worker_handles_each_message_kind() {
    let mut w = WorkerState::new();
    assert!(w.handle(ToWorkerMessage::ComputeTask(compute(1, vec![]))).is_none());
    assert_eq!(w.task_state(1), Some(LocalTaskState::Waiting));
    // a second dispatch of a known task changes nothing
    w.start_task(1);
    assert!(w.handle(ToWorkerMessage::ComputeTask(compute(1, vec![]))).is_none());
    assert_eq!(w.task_state(1), Some(LocalTaskState::Running));
    assert!(w
        .handle(ToWorkerMessage::NewWorker(NewWorkerMsg { worker_id: 4, address: "h:1".to_string() }))
        .is_none());
    assert_eq!(w.fetch_source(&vec![4]), Some(4));
    let def = SubworkerDefinition { id: 2, data: vec![1] };
    assert!(w.handle(ToWorkerMessage::RegisterSubworker(def)).is_none());
}

#[test]
fn worker_loss_frees_its_tasks() {
    let mut sched = SchedulerState::new();
    sched.dispatch(1, 1).unwrap();
    sched.dispatch(2, 1).unwrap();
    sched.dispatch(3, 2).unwrap();
    sched.dispatch(4, 1).unwrap();
    sched.request_steal(2).unwrap();
    sched.on_task_finished(1, 4, 8).unwrap();
    sched.on_worker_lost(1);
    assert_eq!(sched.state_of(1), Some(TaskState::Stolen));
    assert_eq!(sched.state_of(2), Some(TaskState::Stolen));
    assert_eq!(sched.state_of(3), Some(TaskState::Dispatched(2)));
    assert_eq!(sched.state_of(4), Some(TaskState::Finished(8)));
    assert_eq!(sched.on_task_finished(1, 1, 8), Err(SchedulerError::ProtocolViolation));
    assert_eq!(sched.dispatch(1, 2), Ok(()));
}
