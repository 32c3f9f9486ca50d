use mpsc_chat::task::{Payload, Priority, TaskResult};

#[test]
fn priorities_have_names() {
    assert_eq!(Priority::Low.to_string(), "Low");
    assert_eq!(Priority::Medium.to_string(), "Medium");
    assert_eq!(Priority::High.to_string(), "High");
}

#[test]
fn results_are_reported_in_one_line() {
    let payload = Payload {
        url: "https://api.example.com/task/abc".to_string(),
        task_id: 4_000_000_007,
        priority: Priority::High,
    };
    let done = TaskResult::of(&payload, false);
    assert_eq!(done.to_string(), "Task 4000000007 - Priority: High | Status: done");
    let late = TaskResult::of(&payload, true);
    assert_eq!(late.status, "timeout");
    assert_eq!(late.line_with("seven"), "Task seven - Priority: High | Status: timeout");
}
