//! Transfers of a file from one DRACOON to another: the settings of the
//! upload side, the messages, and the error reported when one of the two
//! transfer tasks does not finish.

use tokio::task::JoinError;
use vstd::prelude::*;
use crate::api::nodes::models::ResolutionStrategy;
use crate::app::nodes::command::CmdTransferOptions;
use crate::app::nodes::progress::ProgressReporter;
use crate::errors::DcCmdError;
use crate::text::{append_str, string_of};

verus! {

/// The task handle error of tokio.
#[verifier::external_type_specification]
#[verifier::external_body]
pub struct ExJoinError(JoinError);

/// `JoinError::is_cancelled` of tokio; nothing is claimed of the result.
#[verifier::external_body]
fn join_error_is_cancelled(err: &JoinError) -> bool {
    err.is_cancelled()
}

/// `JoinError::is_panic` of tokio; nothing is claimed of the result.
#[verifier::external_body]
fn join_error_is_panic(err: &JoinError) -> bool {
    err.is_panic()
}

/// The text of a tokio `JoinError` (its `Display`); nothing is claimed of it.
#[verifier::external_body]
fn join_error_text(err: &JoinError) -> String {
    err.to_string()
}

/// Why a transfer task did not finish.
#[derive(Debug, Clone, PartialEq, Eq)]
pub enum JoinFailure {
    Cancelled,
    Panicked,
    Other(String),
}

/// The reason text of a join failure.
pub open spec fn join_failure_reason(f: JoinFailure) -> Seq<char> {
    match f {
        JoinFailure::Cancelled => "was cancelled"@,
        JoinFailure::Panicked => "panicked"@,
        JoinFailure::Other(t) => "failed to join: "@ + t@,
    }
}

/// The message for a task that did not finish: `Transfer {task} task
/// {reason}.`
pub open spec fn join_error_message(task_name: Seq<char>, f: JoinFailure) -> Seq<char> {
    "Transfer "@ + task_name + " task "@ + join_failure_reason(f) + "."@
}

/// The error for a transfer task that did not finish (see
/// `join_error_message`).
pub fn transfer_join_error(task_name: &str, failure: JoinFailure) -> (r: DcCmdError)
    ensures
        r matches DcCmdError::InvalidArgument(m) && m@ == join_error_message(task_name@, failure),
{
    let mut v: Vec<char> = Vec::new();
    append_str(&mut v, "Transfer ");
    append_str(&mut v, task_name);
    append_str(&mut v, " task ");
    match failure {
        JoinFailure::Cancelled => append_str(&mut v, "was cancelled"),
        JoinFailure::Panicked => append_str(&mut v, "panicked"),
        JoinFailure::Other(t) => {
            append_str(&mut v, "failed to join: ");
            append_str(&mut v, t.as_str());
        },
    }
    append_str(&mut v, ".");
    DcCmdError::InvalidArgument(string_of(v.as_slice()))
}

/// Why a task did not finish, from tokio's answers: cancellation comes
/// first, then a panic, else another failure with the error's text.
pub open spec fn join_failure_spec(cancelled: bool, panicked: bool, text: String) -> JoinFailure {
    if cancelled {
        JoinFailure::Cancelled
    } else if panicked {
        JoinFailure::Panicked
    } else {
        JoinFailure::Other(text)
    }
}

/// Why a task did not finish (see `join_failure_spec`).
pub fn join_failure_of(cancelled: bool, panicked: bool, text: String) -> (f: JoinFailure)
    ensures
        f == join_failure_spec(cancelled, panicked, text),
{
    if cancelled {
        JoinFailure::Cancelled
    } else if panicked {
        JoinFailure::Panicked
    } else {
        JoinFailure::Other(text)
    }
}

/// The error for a transfer task that did not finish: the message of the
/// failure that `join_failure_of` finds in tokio's answers for the error
/// (whether it was cancelled, whether it panicked, its text).
pub fn map_transfer_join_error(task_name: &str, err: JoinError) -> (r: DcCmdError)
    ensures
        exists|cancelled: bool, panicked: bool, text: String|
            r matches DcCmdError::InvalidArgument(m) && m@ == join_error_message(
                task_name@,
                #[trigger] join_failure_spec(cancelled, panicked, text),
            ),
{
    let cancelled = join_error_is_cancelled(&err);
    let panicked = join_error_is_panic(&err);
    let text = join_error_text(&err);
    let ghost text_g = text;
    let failure = join_failure_of(cancelled, panicked, text);
    let r = transfer_join_error(task_name, failure);
    assert(join_failure_spec(cancelled, panicked, text_g) == failure);
    assert(r matches DcCmdError::InvalidArgument(m) && m@ == join_error_message(task_name@, failure));
    r
}

/// The settings of the upload side of a transfer: overwrite or auto-rename,
/// share links kept as asked, classification as given or 1 (public).
pub fn transfer_upload_settings(opts: &CmdTransferOptions) -> (r: (ResolutionStrategy, bool, u8))
    ensures
        r.0 == if opts.overwrite {
            ResolutionStrategy::Overwrite
        } else {
            ResolutionStrategy::AutoRename
        },
        r.1 == opts.keep_share_links,
        r.2 == match opts.classification {
            Some(c) => c,
            None => 1u8,
        },
{
    let strategy = if opts.overwrite {
        ResolutionStrategy::Overwrite
    } else {
        ResolutionStrategy::AutoRename
    };
    let classification = match opts.classification {
        Some(c) => c,
        None => 1,
    };
    (strategy, opts.keep_share_links, classification)
}

/// Which side of a transfer needs its encryption unlocked first: the target
/// when the parent node is encrypted, the source when the source node is.
pub fn transfer_unlocks(source_encrypted: Option<bool>, parent_encrypted: Option<bool>) -> (r: (bool, bool))
    ensures
        r.0 == (parent_encrypted == Some(true)),
        r.1 == (source_encrypted == Some(true)),
{
    let target = match parent_encrypted {
        Some(b) => b,
        None => false,
    };
    let source = match source_encrypted {
        Some(b) => b,
        None => false,
    };
    (target, source)
}

/// A transfer into an encrypted parent cannot share the new file.
pub fn check_transfer_share(parent_encrypted: Option<bool>, share: bool) -> (r: Result<(), DcCmdError>)
    ensures
        (parent_encrypted == Some(true) && share) ==> (r matches Err(DcCmdError::InvalidArgument(m)) && m@
            == "Sharing encrypted files currently not supported (remove --share flag)."@),
        !(parent_encrypted == Some(true) && share) ==> r is Ok,
{
    let encrypted = match parent_encrypted {
        Some(b) => b,
        None => false,
    };
    if encrypted && share {
        Err(
            DcCmdError::InvalidArgument(
                "Sharing encrypted files currently not supported (remove --share flag).".to_owned(),
            ),
        )
    } else {
        Ok(())
    }
}

/// The message shown when a transfer finished.
pub fn transfer_complete_message(node_name: &str, source: &str, target: &str) -> (r: String)
    ensures
        r@ == "Node "@ + node_name@ + " uploaded from "@ + source@ + " to "@ + target@ + "."@,
{
    let mut v: Vec<char> = Vec::new();
    append_str(&mut v, "Node ");
    append_str(&mut v, node_name);
    append_str(&mut v, " uploaded from ");
    append_str(&mut v, source);
    append_str(&mut v, " to ");
    append_str(&mut v, target);
    append_str(&mut v, ".");
    string_of(v.as_slice())
}

/// Transfers files between DRACOON instances, reporting progress.
pub struct NodesTransferService<P: ProgressReporter> {
    progress: P,
}

impl<P: ProgressReporter> NodesTransferService<P> {
    pub closed spec fn progress_view(&self) -> P {
        self.progress
    }

    /// A service that reports progress to `progress`.
    pub fn with_progress(progress: P) -> (s: Self)
        ensures
            s.progress_view() == progress,
    {
        NodesTransferService { progress }
    }

    /// The progress reporter.
    pub fn progress(&self) -> (p: &P)
        ensures
            *p == self.progress_view(),
    {
        &self.progress
    }
}

} // verus!
