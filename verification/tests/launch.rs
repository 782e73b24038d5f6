use rte::error::{Error, EBUSY, EINVAL};
use rte::launch::{state_from_raw, trampoline_exit, Launcher, State, WorkerExit};
use rte::lcore::{Id, Lcores};
use rte::memory::SocketId;

fn two_worker_launcher() -> Launcher<String> {
    let workers = vec![Id::new(1), Id::new(2)];
    Launcher::new(Id::new(0), &workers)
}

#[test]
fn launch_failure_returns_the_context() {
    let mut launcher = two_worker_launcher();

    // unknown core: synchronous failure, the context comes straight back
    let (err, task) = launcher.launch(Id::new(7), "work".to_string()).unwrap_err();
    assert_eq!(err, Error(EINVAL));
    assert_eq!(task, "work");

    // the coordinating core can never be a launch target
    let (err, task) = launcher.launch(Id::new(0), task).unwrap_err();
    assert_eq!(err, Error(EINVAL));
    assert_eq!(task, "work");

    // nothing was dispatched; both workers are still idle
    assert_eq!(launcher.state(Id::new(1)), State::Wait);
    assert_eq!(launcher.state(Id::new(2)), State::Wait);
}

#[test]
fn launch_lifecycle_runs_exactly_once() {
    let mut launcher = two_worker_launcher();
    launcher.launch(Id::new(1), "payload".to_string()).unwrap();
    assert_eq!(launcher.state(Id::new(1)), State::Running);
    assert_eq!(launcher.state(Id::new(2)), State::Wait);

    // a busy core rejects a second dispatch and hands the context back
    let (err, task) = launcher.launch(Id::new(1), "second".to_string()).unwrap_err();
    assert_eq!(err, Error(EBUSY));
    assert_eq!(task, "second");

    // the trampoline takes the context exactly once
    let task = launcher.take_task(Id::new(1));
    assert_eq!(task, "payload");
    assert_eq!(launcher.state(Id::new(1)), State::Running);

    launcher.finish_worker(Id::new(1));
    assert_eq!(launcher.state(Id::new(1)), State::Finished);

    launcher.join_all();
    assert_eq!(launcher.state(Id::new(1)), State::Wait);
    assert_eq!(launcher.state(Id::new(2)), State::Wait);

    // the idle core accepts work again
    launcher.launch(Id::new(1), "again".to_string()).unwrap();
    assert_eq!(launcher.take_task(Id::new(1)), "again");
}

#[test]
fn trampoline_decision() {
    // a worker that completes hands its status back; a worker that
    // panics must bring the process down, never unwind further
    assert_eq!(trampoline_exit(Ok(0)), WorkerExit::Status(0));
    assert_eq!(trampoline_exit(Ok(-3)), WorkerExit::Status(-3));
    assert_eq!(trampoline_exit(Err(())), WorkerExit::Abort);
}

#[test]
fn state_decoding() {
    assert_eq!(state_from_raw(0), Some(State::Wait));
    assert_eq!(state_from_raw(1), Some(State::Running));
    assert_eq!(state_from_raw(2), Some(State::Finished));
    assert_eq!(state_from_raw(3), None);
}

#[test]
fn lcore_layout_queries() {
    let lcores = Lcores::new(Id::new(0), vec![0, 1, 2, 3]);
    assert_eq!(lcores.count(), 4);
    assert_eq!(lcores.main().get(), 0);

    assert!(Id::new(0).is_main(&lcores));
    assert!(!Id::new(1).is_main(&lcores));
    assert!(Id::new(3).is_enabled(&lcores));
    assert!(!Id::new(9).is_enabled(&lcores));

    let workers = lcores.iter_enabled(true);
    let raw: Vec<u32> = workers.iter().map(|id| id.get()).collect();
    assert_eq!(raw, vec![1, 2, 3]);

    let all = lcores.iter_enabled(false);
    let raw: Vec<u32> = all.iter().map(|id| id.get()).collect();
    assert_eq!(raw, vec![0, 1, 2, 3]);
}

#[test]
fn enabled_cores_enumerate_ascending() {
    // a sparse layout: the enumeration yields ascending core numbers
    let lcores = Lcores::new(Id::new(2), vec![2, 5, 9, 31]);
    let workers: Vec<u32> = lcores.iter_enabled(true).iter().map(|id| id.get()).collect();
    assert_eq!(workers, vec![5, 9, 31]);
    let all: Vec<u32> = lcores.iter_enabled(false).iter().map(|id| id.get()).collect();
    assert_eq!(all, vec![2, 5, 9, 31]);
}

#[test]
fn lcore_ids_format_in_decimal() {
    assert_eq!(Id::new(0).to_string(), "0");
    assert_eq!(Id::new(7).to_string(), "7");
    assert_eq!(Id::new(1234567890).to_string(), "1234567890");
    assert_eq!(Id::new(u32::MAX).to_string(), "any lcore");
}

#[test]
fn socket_ids_reject_the_any_marker() {
    assert!(SocketId::new(u32::MAX).is_none());
    let socket = SocketId::new(3).unwrap();
    assert_eq!(socket.get(), 3);
    let zero = SocketId::new(0).unwrap();
    assert_eq!(zero.get(), 0);
}
