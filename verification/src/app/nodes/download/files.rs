//! Downloads of single files and lists of files: which files still have to be
//! fetched and where they go, the access key of a public share, and how the
//! results of the single transfers add up to an outcome.

use std::collections::{HashMap, HashSet};
use vstd::prelude::*;
use crate::api::nodes::models::Node;
use crate::app::nodes::download::{
    DownloadFailure, DownloadOutcome, NodesDownloadService, TransferStateStore, string_map_view,
};
use crate::app::nodes::filesystem::Filesystem;
use crate::app::nodes::progress::ProgressReporter;
use crate::app::nodes::upload::files::{effective_velocity, effective_velocity_spec};
use crate::errors::DcCmdError;
use crate::text::{
    append_str, chars_of, dec, lemma_split_nonempty, lemma_split_pieces_free, split, split_chars,
    string_of, u64_to_string,
};

verus! {

/// The access key of a public download share: the last segment of its url.
/// An empty last segment is an error.
pub open spec fn access_key_spec(source: Seq<char>) -> Option<Seq<char>> {
    let key = split(source, '/').last();
    if key.len() == 0 {
        None
    } else {
        Some(key)
    }
}

/// The reason recorded for a failed download: the message of a path,
/// argument or url error, else the error's description.
pub open spec fn download_error_reason_spec(e: DcCmdError) -> Seq<char> {
    match e {
        DcCmdError::InvalidArgument(m) => m@,
        DcCmdError::InvalidPath(m) => m@,
        DcCmdError::InvalidUrl(m) => m@,
        _ => crate::errors::error_description(e),
    }
}

/// An access key is never empty and never holds a slash.
pub proof fn lemma_access_key_is_segment(source: Seq<char>)
    ensures
        access_key_spec(source) matches Some(k) ==> k.len() > 0 && !k.contains('/'),
{
    lemma_split_nonempty(source, '/');
    lemma_split_pieces_free(source, '/');
    let parts = split(source, '/');
    assert(parts[parts.len() - 1] == parts.last());
}

impl<F: Filesystem, S: TransferStateStore, P: ProgressReporter> NodesDownloadService<F, S, P> {
    /// The access key of a public download share url (see `access_key_spec`).
    pub fn parse_public_download_access_key(source: &str) -> (r: Result<String, DcCmdError>)
        ensures
            match access_key_spec(source@) {
                Some(k) => r matches Ok(key) && key@ == k,
                None => r matches Err(DcCmdError::InvalidPath(p)) && p@ == source@,
            },
    {
        let c = chars_of(source);
        let mut parts = split_chars(c.as_slice(), '/');
        proof {
            lemma_split_nonempty(source@, '/');
        }
        let ghost all = crate::text::views(parts@);
        let last = parts.pop().unwrap();
        assert(last@ == all.last());
        if last.len() == 0 {
            return Err(DcCmdError::InvalidPath(source.to_owned()));
        }
        Ok(string_of(last.as_slice()))
    }

    /// The velocity in effect for a download.
    pub fn effective_velocity(velocity: Option<u8>) -> (r: u8)
        ensures
            r == effective_velocity_spec(velocity),
    {
        effective_velocity(velocity)
    }

    /// The reason recorded for a failed download (see
    /// `download_error_reason_spec`).
    pub fn download_error_reason(error: &DcCmdError) -> (r: String)
        ensures
            r@ == download_error_reason_spec(*error),
    {
        match error {
            DcCmdError::InvalidArgument(m) => m.clone(),
            DcCmdError::InvalidPath(m) => m.clone(),
            DcCmdError::InvalidUrl(m) => m.clone(),
            _ => error.describe(),
        }
    }
}

/// One file to fetch and where it goes.
#[derive(Debug, Clone, PartialEq, Eq)]
pub struct DownloadTask {
    pub node_id: u64,
    pub node_name: String,
    pub size: u64,
    pub target: String,
}

/// What a task stands for: node id, name, size and target.
pub open spec fn task_view(t: DownloadTask) -> (u64, Seq<char>, u64, Seq<char>) {
    (t.node_id, t.node_name@, t.size, t.target@)
}

pub open spec fn target_not_found_message(id: u64) -> Seq<char> {
    "Target not found for node "@ + dec(id as nat)
}

/// The files still to fetch, in order, with their targets: files already
/// completed are skipped; a remaining file without a target is an error.
pub open spec fn download_tasks_spec(
    files: Seq<Node>,
    targets: Map<u64, Seq<char>>,
    completed: Set<u64>,
) -> Result<Seq<(u64, Seq<char>, u64, Seq<char>)>, Seq<char>>
    decreases files.len(),
{
    if files.len() == 0 {
        Ok(Seq::empty())
    } else {
        match download_tasks_spec(files.drop_last(), targets, completed) {
            Err(m) => Err(m),
            Ok(tasks) => {
                let f = files.last();
                if completed.contains(f.id) {
                    Ok(tasks)
                } else if !targets.contains_key(f.id) {
                    Err(target_not_found_message(f.id))
                } else {
                    Ok(tasks.push((f.id, f.name@, match f.size { Some(s) => s, None => 0 }, targets[f.id])))
                }
            },
        }
    }
}

/// Once a prefix of the files fails, the whole list fails the same way.
pub proof fn lemma_download_tasks_err_prefix(
    files: Seq<Node>,
    targets: Map<u64, Seq<char>>,
    completed: Set<u64>,
    k: int,
)
    requires
        0 <= k <= files.len(),
        download_tasks_spec(files.subrange(0, k), targets, completed) is Err,
    ensures
        download_tasks_spec(files, targets, completed) == download_tasks_spec(
            files.subrange(0, k),
            targets,
            completed,
        ),
    decreases files.len() - k,
{
    if k < files.len() {
        assert(files.subrange(0, k + 1).drop_last() =~= files.subrange(0, k));
        lemma_download_tasks_err_prefix(files, targets, completed, k + 1);
    } else {
        assert(files.subrange(0, k) =~= files);
    }
}

/// The files still to fetch and their targets (see `download_tasks_spec`).
pub fn plan_download_tasks(
    files: &[Node],
    file_targets: &HashMap<u64, String>,
    completed_file_ids: &HashSet<u64>,
) -> (r: Result<Vec<DownloadTask>, DcCmdError>)
    ensures
        match download_tasks_spec(files@, string_map_view(file_targets@), completed_file_ids@) {
            Ok(tasks) => r matches Ok(v) && v@.map_values(|t: DownloadTask| task_view(t)) == tasks,
            Err(m) => r matches Err(DcCmdError::InvalidPath(x)) && x@ == m,
        },
{
    let ghost targets = string_map_view(file_targets@);
    let mut tasks: Vec<DownloadTask> = Vec::new();
    let mut i: usize = 0;
    while i < files.len()
        invariant
            i <= files.len(),
            targets == string_map_view(file_targets@),
            download_tasks_spec(files@.subrange(0, i as int), targets, completed_file_ids@) matches Ok(
                t,
            ) && tasks@.map_values(|t: DownloadTask| task_view(t)) == t,
        decreases files.len() - i,
    {
        assert(files@.subrange(0, i + 1).drop_last() =~= files@.subrange(0, i as int));
        assert(files@.subrange(0, i + 1).last() == files@[i as int]);
        let id = files[i].id;
        if completed_file_ids.contains(&id) {
            i = i + 1;
            continue;
        }
        match file_targets.get(&id) {
            None => {
                let mut v: Vec<char> = Vec::new();
                append_str(&mut v, "Target not found for node ");
                append_str(&mut v, u64_to_string(id).as_str());
                proof {
                    lemma_download_tasks_err_prefix(files@, targets, completed_file_ids@, i + 1);
                }
                return Err(DcCmdError::InvalidPath(string_of(v.as_slice())));
            },
            Some(target) => {
                let size = match files[i].size {
                    Some(s) => s,
                    None => 0,
                };
                let ghost before = tasks@;
                tasks.push(DownloadTask {
                    node_id: id,
                    node_name: files[i].name.clone(),
                    size,
                    target: target.clone(),
                });
                assert(tasks@.map_values(|t: DownloadTask| task_view(t)) =~= before.map_values(
                    |t: DownloadTask| task_view(t),
                ).push(task_view(tasks@[tasks@.len() - 1])));
            },
        }
        i = i + 1;
    }
    assert(files@.subrange(0, files@.len() as int) =~= files@);
    Ok(tasks)
}

/// The sum of the sizes of the tasks.
pub open spec fn total_size_spec(tasks: Seq<DownloadTask>) -> int
    decreases tasks.len(),
{
    if tasks.len() == 0 {
        0
    } else {
        total_size_spec(tasks.drop_last()) + tasks.last().size
    }
}

/// The number of bytes all tasks fetch together.
pub fn total_task_size(tasks: &[DownloadTask]) -> (r: u64)
    requires
        total_size_spec(tasks@) <= u64::MAX,
    ensures
        r == total_size_spec(tasks@),
{
    let mut total: u64 = 0;
    let mut i: usize = 0;
    while i < tasks.len()
        invariant
            i <= tasks.len(),
            total == total_size_spec(tasks@.subrange(0, i as int)),
            total_size_spec(tasks@) <= u64::MAX,
        decreases tasks.len() - i,
    {
        assert(tasks@.subrange(0, i + 1).drop_last() =~= tasks@.subrange(0, i as int));
        proof {
            lemma_total_size_prefix(tasks@, i as int + 1);
        }
        total = total + tasks[i].size;
        i = i + 1;
    }
    assert(tasks@.subrange(0, tasks@.len() as int) =~= tasks@);
    total
}

/// The sizes of a prefix add up to no more than the sizes of all tasks.
pub proof fn lemma_total_size_prefix(tasks: Seq<DownloadTask>, k: int)
    requires
        0 <= k <= tasks.len(),
    ensures
        total_size_spec(tasks.subrange(0, k)) <= total_size_spec(tasks),
    decreases tasks.len() - k,
{
    if k < tasks.len() {
        assert(tasks.subrange(0, k + 1).drop_last() =~= tasks.subrange(0, k));
        lemma_total_size_prefix(tasks, k + 1);
    } else {
        assert(tasks.subrange(0, k) =~= tasks);
    }
}

/// What became of one download task.
#[derive(Debug, Clone)]
pub enum DownloadEvent {
    /// The file arrived and was recorded as complete.
    Downloaded,
    /// The transfer failed; the reason.
    DownloadFailed(String),
    /// The file arrived but recording it failed; the error's text.
    CheckpointFailed(String),
}

/// The reason recorded when a finished file could not be recorded.
pub open spec fn checkpoint_reason(err: Seq<char>) -> Seq<char> {
    "checkpoint error: "@ + err
}

/// The failure recorded for a task, if any.
pub open spec fn event_failure(task: DownloadTask, event: DownloadEvent) -> Option<
    (Option<u64>, Seq<char>, Seq<char>, Seq<char>),
> {
    match event {
        DownloadEvent::Downloaded => None,
        DownloadEvent::DownloadFailed(r) => Some((Some(task.node_id), task.node_name@, task.target@, r@)),
        DownloadEvent::CheckpointFailed(e) => Some(
            (Some(task.node_id), task.node_name@, task.target@, checkpoint_reason(e@)),
        ),
    }
}

/// What a failure stands for: node id, name, target and reason.
pub open spec fn failure_view(f: DownloadFailure) -> (Option<u64>, Seq<char>, Seq<char>, Seq<char>) {
    (f.node_id, f.node_name@, f.target@, f.reason@)
}

/// The results of a download so far: how many files arrived and which failed.
#[derive(Debug, Clone)]
pub struct DownloadTally {
    pub succeeded: u64,
    pub failures: Vec<DownloadFailure>,
}

impl DownloadTally {
    /// Nothing finished yet.
    pub fn new() -> (t: Self)
        ensures
            t.succeeded == 0,
            t.failures@.len() == 0,
    {
        DownloadTally { succeeded: 0, failures: Vec::new() }
    }

    /// Records what became of one task: an arrived file counts as a success,
    /// anything else is kept as a failure.
    pub fn record(&mut self, task: &DownloadTask, event: DownloadEvent)
        requires
            old(self).succeeded < u64::MAX,
        ensures
            final(self).succeeded + final(self).failures@.len() == old(self).succeeded + old(self).failures@.len() + 1,
            match event_failure(*task, event) {
                None => final(self).succeeded == old(self).succeeded + 1 && final(self).failures@
                    == old(self).failures@,
                Some(f) => final(self).succeeded == old(self).succeeded && final(self).failures@.map_values(
                    |x: DownloadFailure| failure_view(x),
                ) == old(self).failures@.map_values(|x: DownloadFailure| failure_view(x)).push(f),
            },
    {
        let ghost before = self.failures@;
        match event {
            DownloadEvent::Downloaded => {
                self.succeeded = self.succeeded + 1;
            },
            DownloadEvent::DownloadFailed(reason) => {
                self.failures.push(DownloadFailure {
                    node_id: Some(task.node_id),
                    node_name: task.node_name.clone(),
                    target: task.target.clone(),
                    reason,
                });
                assert(self.failures@.map_values(|x: DownloadFailure| failure_view(x)) =~= before.map_values(
                    |x: DownloadFailure| failure_view(x),
                ).push(failure_view(self.failures@.last())));
            },
            DownloadEvent::CheckpointFailed(err) => {
                let mut v: Vec<char> = Vec::new();
                append_str(&mut v, "checkpoint error: ");
                append_str(&mut v, err.as_str());
                self.failures.push(DownloadFailure {
                    node_id: Some(task.node_id),
                    node_name: task.node_name.clone(),
                    target: task.target.clone(),
                    reason: string_of(v.as_slice()),
                });
                assert(self.failures@.map_values(|x: DownloadFailure| failure_view(x)) =~= before.map_values(
                    |x: DownloadFailure| failure_view(x),
                ).push(failure_view(self.failures@.last())));
            },
        }
    }

    /// The outcome of a download of `requested_total` files into
    /// `target_display`.
    pub fn into_outcome(self, target_display: &str, requested_total: u64) -> (o: DownloadOutcome)
        ensures
            o.requested_total == requested_total,
            o.succeeded == self.succeeded,
            o.failed == self.failures@.len(),
            o.failures@ == self.failures@,
            o.target_root@ == target_display@,
            o.partial == (self.failures@.len() > 0 && self.succeeded > 0),
    {
        DownloadOutcome::from_failures(target_display, requested_total, self.succeeded, self.failures)
    }
}

/// How many of the events are failures (anything but `Downloaded`).
pub open spec fn failed_count(events: Seq<DownloadEvent>) -> nat
    decreases events.len(),
{
    if events.len() == 0 {
        0
    } else {
        failed_count(events.drop_last()) + if events.last() is Downloaded {
            0nat
        } else {
            1nat
        }
    }
}

/// The failures of a download, in task order: one for each task whose event
/// is not `Downloaded` (`events[i]` for `tasks[i]`).
pub open spec fn download_failures_spec(tasks: Seq<DownloadTask>, events: Seq<DownloadEvent>) -> Seq<
    (Option<u64>, Seq<char>, Seq<char>, Seq<char>),
>
    decreases tasks.len(),
{
    if tasks.len() == 0 || events.len() == 0 {
        Seq::empty()
    } else {
        let before = download_failures_spec(tasks.drop_last(), events.drop_last());
        match event_failure(tasks.last(), events.last()) {
            Some(f) => before.push(f),
            None => before,
        }
    }
}

/// The outcome of a download of the given tasks, with what became of each
/// (`events[i]` for `tasks[i]`): every task is requested and counted once,
/// as a success or as a failure, so nothing is lost or counted twice; the
/// failures are those of the failed tasks, in task order.
pub fn tally_download(tasks: &[DownloadTask], events: Vec<DownloadEvent>, target_display: &str) -> (o: DownloadOutcome)
    requires
        events@.len() == tasks@.len(),
        tasks@.len() < u64::MAX,
    ensures
        o.requested_total == tasks@.len(),
        o.failed == failed_count(events@),
        o.succeeded == tasks@.len() - failed_count(events@),
        o.failures@.map_values(|x: DownloadFailure| failure_view(x)) == download_failures_spec(tasks@, events@),
        o.target_root@ == target_display@,
        o.partial == (o.failed > 0 && o.succeeded > 0),
        o.failed == 0 <==> (forall|i: int| 0 <= i < tasks@.len() ==> #[trigger] events@[i] is Downloaded),
{
    let mut tally = DownloadTally::new();
    let mut rest = events;
    let ghost all = rest@;
    let mut i: usize = 0;
    assert(tally.failures@.map_values(|x: DownloadFailure| failure_view(x)) =~= download_failures_spec(
        tasks@.subrange(0, 0),
        all.subrange(0, 0),
    ));
    while i < tasks.len()
        invariant
            i <= tasks@.len(),
            tasks@.len() < u64::MAX,
            all.len() == tasks@.len(),
            rest@ == all.subrange(i as int, all.len() as int),
            tally.succeeded + tally.failures@.len() == i,
            tally.failures@.len() == failed_count(all.subrange(0, i as int)),
            tally.failures@.map_values(|x: DownloadFailure| failure_view(x)) == download_failures_spec(
                tasks@.subrange(0, i as int),
                all.subrange(0, i as int),
            ),
            tally.failures@.len() == 0 <==> (forall|j: int| 0 <= j < i ==> #[trigger] all[j] is Downloaded),
        decreases tasks.len() - i,
    {
        let event = rest.remove(0);
        assert(event == all[i as int]);
        assert(rest@ =~= all.subrange(i + 1, all.len() as int));
        let ghost failed_before = tally.failures@.len();
        let ghost views_before = tally.failures@.map_values(|x: DownloadFailure| failure_view(x));
        tally.record(&tasks[i], event);
        proof {
            let ts = tasks@.subrange(0, i + 1);
            let es = all.subrange(0, i + 1);
            assert(ts.drop_last() =~= tasks@.subrange(0, i as int));
            assert(es.drop_last() =~= all.subrange(0, i as int));
            assert(ts.last() == tasks@[i as int]);
            assert(es.last() == all[i as int]);
            if all[i as int] is Downloaded {
                assert(tally.failures@.len() == failed_before);
            } else {
                assert(tally.failures@.len() == failed_before + 1);
            }
            assert forall|j: int| 0 <= j < i + 1 && tally.failures@.len() == 0 implies #[trigger] all[j] is Downloaded by {
                if j < i {
                    assert(failed_before == 0);
                }
            }
        }
        i = i + 1;
    }
    assert(tasks@.subrange(0, i as int) =~= tasks@);
    assert(all.subrange(0, i as int) =~= all);
    let requested = tasks.len() as u64;
    tally.into_outcome(target_display, requested)
}

} // verus!
