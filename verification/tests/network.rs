use nice_trader::network::{log_task_aborted, log_task_started, log_task_stopped};

#[test]
fn test_task_messages() {
    assert_eq!(log_task_started("reader"), "Started task 'reader'");
    assert_eq!(log_task_stopped("writer"), "Stopped task 'writer'");
    assert_eq!(log_task_aborted("heartbeat"), "Aborted task 'heartbeat'");
}
