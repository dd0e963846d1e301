//! The messages logged about the life of network tasks.

use vstd::prelude::*;

use crate::text::{push_char, push_str};

verus! {

/// `prefix` followed by the task's name in single quotes.
pub open spec fn task_message(prefix: Seq<char>, task_name: Seq<char>) -> Seq<char> {
    prefix + seq!['\''] + task_name + seq!['\'']
}

fn task_message_text(prefix: &str, task_name: &str) -> (r: String)
    ensures
        r@ == task_message(prefix@, task_name@),
{
    let mut s = String::new();
    push_str(&mut s, prefix);
    push_char(&mut s, '\'');
    push_str(&mut s, task_name);
    push_char(&mut s, '\'');
    assert(s@ =~= task_message(prefix@, task_name@));
    s
}

/// The debug message that a task has started: "Started task '<name>'".
pub fn log_task_started(task_name: &str) -> (r: String)
    ensures
        r@ == task_message("Started task "@, task_name@),
{
    task_message_text("Started task ", task_name)
}

/// The debug message that a task has stopped: "Stopped task '<name>'".
pub fn log_task_stopped(task_name: &str) -> (r: String)
    ensures
        r@ == task_message("Stopped task "@, task_name@),
{
    task_message_text("Stopped task ", task_name)
}

/// The debug message that a task was aborted: "Aborted task '<name>'".
pub fn log_task_aborted(task_name: &str) -> (r: String)
    ensures
        r@ == task_message("Aborted task "@, task_name@),
{
    task_message_text("Aborted task ", task_name)
}

} // verus!
