use web_server::message::Message;
use web_server::worker::{Action, Worker};

#[test]
fn new_worker_runs_and_holds_its_thread() {
    let worker: Worker<&str> = Worker::new(4, "handle");
    assert_eq!(worker.id(), 4);
    assert!(worker.is_running());
    assert!(worker.has_thread());
}

#[test]
fn a_job_is_handed_over_and_the_worker_stays() {
    let mut worker: Worker<u8> = Worker::new(0, 9);
    let action = worker.on_message(Message::NewJob(41u32));
    assert!(matches!(action, Action::Run(41)));
    assert!(worker.is_running());
    let action = worker.on_message(Message::NewJob(42u32));
    assert!(matches!(action, Action::Run(42)));
    assert!(worker.is_running());
    assert_eq!(worker.id(), 0);
    assert!(worker.has_thread());
}

#[test]
fn the_stop_signal_ends_the_loop() {
    let mut worker: Worker<u8> = Worker::new(2, 9);
    let action: Action<u32> = worker.on_message(Message::Terminate);
    assert!(matches!(action, Action::Stop));
    assert!(!worker.is_running());
    assert_eq!(worker.id(), 2);
    assert!(worker.has_thread());
}

#[test]
fn the_thread_is_taken_exactly_once() {
    let mut worker: Worker<u8> = Worker::new(1, 77);
    assert_eq!(worker.take_thread(), Some(77));
    assert!(!worker.has_thread());
    assert_eq!(worker.take_thread(), None);
    assert_eq!(worker.take_thread(), None);
    assert!(worker.is_running());
    assert_eq!(worker.id(), 1);
}
