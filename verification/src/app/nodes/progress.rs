//! Progress reporting: the reporter and task interfaces that transfers drive,
//! the common ways of starting them, and a reporter that shows nothing.

use std::time::Duration;
use vstd::prelude::*;
use crate::text::{append_str, dec, string_of, u64_to_string};

verus! {

/// One progress display (a bar or a spinner).
pub trait ProgressTask {
    fn set_length(&self, length: u64);

    fn set_message(&self, message: &str);

    fn inc(&self, delta: u64);

    fn finish_with_message(&self, message: &str);

    fn finish_and_clear(&self);

    fn enable_steady_tick(&self, interval: Duration);
}

/// A source of progress displays.
pub trait ProgressReporter {
    /// The displays this reporter hands out.
    type Task: ProgressTask;

    /// Whether `task` is a bar of this reporter for `length` units. A
    /// reporter that says nothing more admits every task; proofs over any
    /// reporter never see this default.
    open spec fn is_bar(&self, length: u64, task: Self::Task) -> bool {
        true
    }

    /// Whether `task` is a spinner of this reporter showing `message`. A
    /// reporter that says nothing more admits every task; proofs over any
    /// reporter never see this default.
    open spec fn is_spinner(&self, message: Seq<char>, task: Self::Task) -> bool {
        true
    }

    /// A bar for `length` units (bytes).
    fn bar(&self, length: u64) -> (t: Self::Task)
        ensures
            self.is_bar(length, t),
    ;

    /// A bar for `length` items; by default the ordinary bar.
    fn item_bar(&self, length: u64) -> (t: Self::Task)
        ensures
            self.is_bar(length, t),
    {
        self.bar(length)
    }

    /// A spinner showing `message`.
    fn spinner(&self, message: &str) -> (t: Self::Task)
        ensures
            self.is_spinner(message@, t),
    ;
}

/// `Duration::from_millis`.
#[verifier::external_body]
fn duration_from_millis(millis: u64) -> Duration {
    Duration::from_millis(millis)
}

/// The tick interval of spinners, in milliseconds.
pub const DEFAULT_SPINNER_TICK_MILLIS: u64 = 100;

/// Starts a bar of the given length, with an optional message: the bar is
/// the one the reporter hands out for that length.
pub fn start_progress_bar<R: ProgressReporter>(
    progress: &R,
    length: u64,
    message: Option<&str>,
) -> (t: R::Task)
    ensures
        progress.is_bar(length, t),
{
    let bar = progress.bar(length);
    bar.set_length(length);
    if let Some(message) = message {
        bar.set_message(message);
    }
    bar
}

/// Starts an item-counting bar of the given length, with an optional
/// message: the bar is the item bar the reporter hands out for that length.
pub fn start_item_progress_bar<R: ProgressReporter>(
    progress: &R,
    length: u64,
    message: Option<&str>,
) -> (t: R::Task)
    ensures
        progress.is_bar(length, t),
{
    let bar = progress.item_bar(length);
    bar.set_length(length);
    if let Some(message) = message {
        bar.set_message(message);
    }
    bar
}

/// Starts a spinner with the given message, ticking at the default interval:
/// the spinner is the one the reporter hands out for that message.
pub fn start_spinner<R: ProgressReporter>(progress: &R, message: &str) -> (t: R::Task)
    ensures
        progress.is_spinner(message@, t),
{
    let spinner = progress.spinner(message);
    spinner.enable_steady_tick(duration_from_millis(DEFAULT_SPINNER_TICK_MILLIS));
    spinner
}

/// The message `"{action} {remaining} files"`.
pub fn remaining_files_message(action: &str, remaining: u64) -> (r: String)
    ensures
        r@ == action@ + seq![' '] + dec(remaining as nat) + " files"@,
{
    let mut v: Vec<char> = Vec::new();
    append_str(&mut v, action);
    v.push(' ');
    append_str(&mut v, u64_to_string(remaining).as_str());
    append_str(&mut v, " files");
    string_of(v.as_slice())
}

/// Shows how many files are left on a task.
pub fn update_remaining_files_message<T: ProgressTask>(task: &T, action: &str, remaining: u64) {
    let message = remaining_files_message(action, remaining);
    task.set_message(message.as_str());
}

/// A reporter that displays nothing.
#[derive(Default)]
pub struct NoopProgressReporter;

/// A task that displays nothing.
#[derive(Default)]
pub struct NoopProgressTask;

impl ProgressTask for NoopProgressTask {
    fn set_length(&self, length: u64) {
    }

    fn set_message(&self, message: &str) {
    }

    fn inc(&self, delta: u64) {
    }

    fn finish_with_message(&self, message: &str) {
    }

    fn finish_and_clear(&self) {
    }

    fn enable_steady_tick(&self, interval: Duration) {
    }
}

impl ProgressReporter for NoopProgressReporter {
    type Task = NoopProgressTask;

    fn bar(&self, length: u64) -> NoopProgressTask {
        NoopProgressTask
    }

    fn spinner(&self, message: &str) -> NoopProgressTask {
        NoopProgressTask
    }
}

} // verus!
