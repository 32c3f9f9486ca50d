//! Tasks sent to a remote service: what is asked, how urgent it is, and how
//! it ended.

use crate::text::{decimal, decimal_text};
use vstd::prelude::*;
use vstd::string::*;

verus! {

/// How urgent a task is.
#[derive(Debug, Clone, Copy, PartialEq, Eq, Structural)]
pub enum Priority {
    High,
    Medium,
    Low,
}

pub open spec fn priority_name(p: Priority) -> Seq<char> {
    match p {
        Priority::Low => "Low"@,
        Priority::Medium => "Medium"@,
        Priority::High => "High"@,
    }
}

impl Priority {
    /// The name of the priority.
    pub fn to_string(&self) -> (text: String)
        ensures
            text@ == priority_name(*self),
    {
        match self {
            Priority::Low => "Low".to_owned(),
            Priority::Medium => "Medium".to_owned(),
            Priority::High => "High".to_owned(),
        }
    }
}

/// What a task asks for.
pub struct Payload {
    pub url: String,
    pub task_id: u32,
    pub priority: Priority,
}

/// How a task ended.
#[derive(Debug, Clone)]
pub struct TaskResult {
    pub task_id: u32,
    pub priority: Priority,
    pub status: String,
}

/// The line that reports a result whose number is written as `id`.
pub open spec fn result_line(id: Seq<char>, priority: Priority, status: Seq<char>) -> Seq<char> {
    "Task "@ + id + " - Priority: "@ + priority_name(priority) + " | Status: "@ + status
}

impl TaskResult {
    /// The result of the task that `payload` asked for: `timeout` where the
    /// service did not answer in time, `done` where it did.
    pub fn of(payload: &Payload, timed_out: bool) -> (result: TaskResult)
        ensures
            result.task_id == payload.task_id,
            result.priority == payload.priority,
            result.status@ == if timed_out { "timeout"@ } else { "done"@ },
    {
        let status = if timed_out { "timeout".to_owned() } else { "done".to_owned() };
        TaskResult { task_id: payload.task_id, priority: payload.priority, status }
    }

    /// The line that reports the result around an already written number.
    pub fn line_with(&self, id: &str) -> (text: String)
        ensures
            text@ == result_line(id@, self.priority, self.status@),
    {
        let mut text = "Task ".to_owned();
        text.append(id);
        text.append(" - Priority: ");
        let name = self.priority.to_string();
        text.append(name.as_str());
        text.append(" | Status: ");
        text.append(self.status.as_str());
        text
    }

    /// The line that reports the result.
    pub fn to_string(&self) -> (text: String)
        ensures
            text@ == result_line(decimal_text(self.task_id), self.priority, self.status@),
    {
        let id = decimal(self.task_id);
        self.line_with(id.as_str())
    }
}

} // verus!
