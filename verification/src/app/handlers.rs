//! What the transfer commands report: their status and messages, from the
//! outcome of a download or an upload; and which config requests need a
//! confirmation first.

use vstd::prelude::*;
use crate::app::nodes::download::{DownloadFailure, DownloadOutcome};
use crate::app::nodes::upload::{failure_message_spec, UploadOutcome};
use crate::app::outcome::{message_view, CommandOutcome, OutcomeMessageKind};
use crate::app::requests::config::{ConfigAuthRequest, ConfigRequest};
use crate::app::results::{app_result_from_status, AppPayload, AppResult, AppStatus};
use crate::text::{append_str, dec, string_of, u64_to_string};

verus! {

/// How many failed items a download report lists by name.
pub const DOWNLOAD_FAILURE_PREVIEW_LIMIT: usize = 3;

/// The status of a transfer: success when nothing failed, a partial failure
/// when something arrived, else a failure.
pub open spec fn transfer_status_spec(failed: u64, succeeded: u64) -> AppStatus {
    if failed == 0 {
        AppStatus::Success
    } else if succeeded > 0 {
        AppStatus::PartialFailure
    } else {
        AppStatus::Failure
    }
}

/// The status of a transfer (see `transfer_status_spec`).
pub fn transfer_status(failed: u64, succeeded: u64) -> (s: AppStatus)
    ensures
        s == transfer_status_spec(failed, succeeded),
{
    if failed == 0 {
        AppStatus::Success
    } else if succeeded > 0 {
        AppStatus::PartialFailure
    } else {
        AppStatus::Failure
    }
}

/// The line that names one failed download.
pub open spec fn download_failure_line(f: DownloadFailure) -> (OutcomeMessageKind, Seq<char>) {
    (OutcomeMessageKind::Info, "Failed "@ + f.node_name@ + " -> "@ + f.target@ + " ("@ + f.reason@ + ")"@)
}

/// The messages of a download report: one success line when nothing failed;
/// else a summary (a warning when something arrived, an error otherwise), the
/// first failed items and how many more failed.
pub open spec fn download_report_spec(o: DownloadOutcome) -> Seq<(OutcomeMessageKind, Seq<char>)> {
    if o.failed == 0 {
        seq![
            (
                OutcomeMessageKind::Success,
                "Downloaded "@ + dec(o.succeeded as nat) + " item(s) to "@ + o.target_root@ + "."@,
            ),
        ]
    } else {
        let summary = "Downloaded "@ + dec(o.succeeded as nat) + "/"@ + dec(o.requested_total as nat)
            + " item(s) to "@ + o.target_root@ + "; "@ + dec(o.failed as nat) + " failed."@;
        let kind = if o.succeeded > 0 {
            OutcomeMessageKind::Warning
        } else {
            OutcomeMessageKind::Error
        };
        let n = o.failures@.len();
        let shown = if n > DOWNLOAD_FAILURE_PREVIEW_LIMIT {
            o.failures@.subrange(0, DOWNLOAD_FAILURE_PREVIEW_LIMIT as int)
        } else {
            o.failures@
        };
        let more = if n > DOWNLOAD_FAILURE_PREVIEW_LIMIT {
            seq![
                (
                    OutcomeMessageKind::Info,
                    "... and "@ + dec((n - DOWNLOAD_FAILURE_PREVIEW_LIMIT) as nat) + " more failed item(s)."@,
                ),
            ]
        } else {
            Seq::empty()
        };
        seq![(kind, summary)] + shown.map_values(|f: DownloadFailure| download_failure_line(f)) + more
    }
}

/// The report of a download: its status, its messages (see
/// `download_report_spec`) and the outcome itself.
pub fn download_report(o: DownloadOutcome) -> (r: AppResult)
    ensures
        r.status_view() == transfer_status_spec(o.failed, o.succeeded),
        r.outcome_view().messages@.map_values(|m| message_view(m)) == download_report_spec(o),
        r.payload_view() == Some(AppPayload::Download(o)),
{
    let ghost spec = download_report_spec(o);
    let status = transfer_status(o.failed, o.succeeded);
    let mut outcome = CommandOutcome::new();
    if o.failed == 0 {
        let mut v: Vec<char> = Vec::new();
        append_str(&mut v, "Downloaded ");
        append_str(&mut v, u64_to_string(o.succeeded).as_str());
        append_str(&mut v, " item(s) to ");
        append_str(&mut v, o.target_root.as_str());
        append_str(&mut v, ".");
        outcome.push(OutcomeMessageKind::Success, string_of(v.as_slice()).as_str());
        assert(outcome.messages@.map_values(|m| message_view(m)) =~= spec);
    } else {
        let mut v: Vec<char> = Vec::new();
        append_str(&mut v, "Downloaded ");
        append_str(&mut v, u64_to_string(o.succeeded).as_str());
        append_str(&mut v, "/");
        append_str(&mut v, u64_to_string(o.requested_total).as_str());
        append_str(&mut v, " item(s) to ");
        append_str(&mut v, o.target_root.as_str());
        append_str(&mut v, "; ");
        append_str(&mut v, u64_to_string(o.failed).as_str());
        append_str(&mut v, " failed.");
        let kind = if o.succeeded > 0 {
            OutcomeMessageKind::Warning
        } else {
            OutcomeMessageKind::Error
        };
        outcome.push(kind, string_of(v.as_slice()).as_str());
        let ghost head = outcome.messages@.map_values(|m| message_view(m));
        let n = o.failures.len();
        let shown = if n > DOWNLOAD_FAILURE_PREVIEW_LIMIT {
            DOWNLOAD_FAILURE_PREVIEW_LIMIT
        } else {
            n
        };
        let mut i: usize = 0;
        while i < shown
            invariant
                shown <= n == o.failures@.len(),
                i <= shown,
                outcome.messages@.map_values(|m| message_view(m)) == head + o.failures@.subrange(
                    0,
                    i as int,
                ).map_values(|f: DownloadFailure| download_failure_line(f)),
            decreases shown - i,
        {
            let f = &o.failures[i];
            let mut w: Vec<char> = Vec::new();
            append_str(&mut w, "Failed ");
            append_str(&mut w, f.node_name.as_str());
            append_str(&mut w, " -> ");
            append_str(&mut w, f.target.as_str());
            append_str(&mut w, " (");
            append_str(&mut w, f.reason.as_str());
            append_str(&mut w, ")");
            let ghost before = outcome.messages@;
            outcome.push(OutcomeMessageKind::Info, string_of(w.as_slice()).as_str());
            assert(outcome.messages@ =~= before.push(outcome.messages@.last()));
            assert(outcome.messages@.map_values(|m| message_view(m)) =~= before.map_values(
                |m| message_view(m),
            ).push(download_failure_line(o.failures@[i as int])));
            assert(o.failures@.subrange(0, i + 1).map_values(|f: DownloadFailure| download_failure_line(f))
                =~= o.failures@.subrange(0, i as int).map_values(
                |f: DownloadFailure| download_failure_line(f),
            ).push(download_failure_line(o.failures@[i as int])));
            i = i + 1;
        }
        if n > DOWNLOAD_FAILURE_PREVIEW_LIMIT {
            let mut w: Vec<char> = Vec::new();
            append_str(&mut w, "... and ");
            append_str(&mut w, u64_to_string((n - DOWNLOAD_FAILURE_PREVIEW_LIMIT) as u64).as_str());
            append_str(&mut w, " more failed item(s).");
            let ghost before = outcome.messages@;
            let more_text = string_of(w.as_slice());
            assert(more_text@ == "... and "@ + dec((n - DOWNLOAD_FAILURE_PREVIEW_LIMIT) as nat)
                + " more failed item(s)."@);
            outcome.push(OutcomeMessageKind::Info, more_text.as_str());
            assert(outcome.messages@ =~= before.push(outcome.messages@.last()));
            let ghost lines = o.failures@.subrange(0, DOWNLOAD_FAILURE_PREVIEW_LIMIT as int).map_values(
                |f: DownloadFailure| download_failure_line(f),
            );
            assert(before.map_values(|m| message_view(m)) == head + lines);
            assert(outcome.messages@.map_values(|m| message_view(m)) =~= (head + lines).push(
                (OutcomeMessageKind::Info, more_text@),
            ));
            assert(outcome.messages@.map_values(|m| message_view(m)) =~= spec);
        } else {
            assert(o.failures@.subrange(0, n as int) =~= o.failures@);
            assert(outcome.messages@.map_values(|m| message_view(m)) =~= spec);
        }
    }
    app_result_from_status(status, outcome).with_payload(AppPayload::Download(o))
}

/// The messages of an upload report: the share message as a success, then
/// the failure summary as a warning (something arrived) or an error.
pub open spec fn upload_report_spec(o: UploadOutcome) -> Seq<(OutcomeMessageKind, Seq<char>)> {
    let share = match o.share_message {
        Some(m) => seq![(OutcomeMessageKind::Success, m@)],
        None => Seq::empty(),
    };
    let failure = match failure_message_spec(o) {
        Some(m) => if transfer_status_spec(o.failed, o.succeeded) == AppStatus::PartialFailure {
            seq![(OutcomeMessageKind::Warning, m)]
        } else if transfer_status_spec(o.failed, o.succeeded) == AppStatus::Failure {
            seq![(OutcomeMessageKind::Error, m)]
        } else {
            Seq::empty()
        },
        None => Seq::empty(),
    };
    share + failure
}

/// The report of an upload: its status, its messages (see
/// `upload_report_spec`) and the outcome itself.
pub fn upload_report(o: UploadOutcome) -> (r: AppResult)
    ensures
        r.status_view() == transfer_status_spec(o.failed, o.succeeded),
        r.outcome_view().messages@.map_values(|m| message_view(m)) == upload_report_spec(o),
        r.payload_view() == Some(AppPayload::Upload(o)),
{
    let status = transfer_status(o.failed, o.succeeded);
    let mut outcome = CommandOutcome::new();
    if let Some(m) = &o.share_message {
        outcome.push(OutcomeMessageKind::Success, m.as_str());
    }
    let ghost head = outcome.messages@;
    if let Some(m) = o.failure_message() {
        match status {
            AppStatus::Success => {},
            AppStatus::PartialFailure => outcome.push(OutcomeMessageKind::Warning, m.as_str()),
            AppStatus::Failure => outcome.push(OutcomeMessageKind::Error, m.as_str()),
        }
    }
    assert(outcome.messages@.map_values(|m| message_view(m)) =~= upload_report_spec(o));
    app_result_from_status(status, outcome).with_payload(AppPayload::Upload(o))
}

/// Removing a stored token is confirmed first; nothing else is.
pub fn config_needs_confirmation(cmd: &ConfigRequest) -> (r: bool)
    ensures
        r == (*cmd matches ConfigRequest::Auth { cmd: ConfigAuthRequest::Rm { .. } }),
{
    match cmd {
        ConfigRequest::Auth { cmd: ConfigAuthRequest::Rm { .. } } => true,
        _ => false,
    }
}

/// Where a config command ends before it does anything: a token removal the
/// user declined ends at once, successfully and with nothing reported; every
/// other command (and a confirmed removal) goes on.
pub fn config_declined(cmd: &ConfigRequest, confirmed: bool) -> (r: Option<AppResult>)
    ensures
        r is Some <==> ((*cmd matches ConfigRequest::Auth { cmd: ConfigAuthRequest::Rm { .. } }) && !confirmed),
        r matches Some(x) ==> x.status_view() == AppStatus::Success && x.outcome_view().messages@.len() == 0
            && x.payload_view() is None,
{
    if config_needs_confirmation(cmd) && !confirmed {
        Some(AppResult::success(CommandOutcome::new()))
    } else {
        None
    }
}

} // verus!
