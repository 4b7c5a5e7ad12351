//! Uploads: their outcome, the summary of failed files, and which kind of
//! upload a source calls for.

pub mod files;
pub mod folders;
pub mod tree;
pub mod walk;

use vstd::prelude::*;
use crate::app::nodes::progress::ProgressReporter;
use crate::errors::DcCmdError;
use crate::text::{
    append_str, chars_of, dec, lemma_split_nonempty, split, split_chars, string_of, u64_to_string, views,
};

verus! {

/// How many failed files the failure summary lists by name.
pub const UPLOAD_FAILURE_PREVIEW_LIMIT: usize = 5;

/// One file that could not be uploaded.
#[derive(Debug, Clone, PartialEq, Eq)]
pub struct UploadFailure {
    pub file: String,
    pub reason: String,
}

/// The result of an upload command.
#[derive(Debug, Clone, PartialEq, Eq)]
pub struct UploadOutcome {
    pub requested_total: u64,
    pub succeeded: u64,
    pub failed: u64,
    pub failures: Vec<UploadFailure>,
    pub target_root: String,
    pub partial: bool,
    pub share_message: Option<String>,
}

/// The line that names one failed file.
pub open spec fn failure_line(f: UploadFailure) -> Seq<char> {
    "\nFailed "@ + f.file@ + " ("@ + f.reason@ + ")"@
}

/// The lines of the given failures, in order.
pub open spec fn failure_lines(fs: Seq<UploadFailure>) -> Seq<char>
    decreases fs.len(),
{
    if fs.len() == 0 {
        Seq::empty()
    } else {
        failure_lines(fs.drop_last()) + failure_line(fs.last())
    }
}

/// The failure summary of an outcome: `None` when nothing failed, else the
/// counts, the first failed files (up to the preview limit) and how many
/// more failed.
pub open spec fn failure_message_spec(o: UploadOutcome) -> Option<Seq<char>> {
    if o.failed == 0 {
        None
    } else {
        let head = "Uploaded "@ + dec(o.succeeded as nat) + "/"@ + dec(o.requested_total as nat)
            + " file(s) to "@ + o.target_root@ + "; "@ + dec(o.failed as nat) + " failed."@;
        let n = o.failures@.len();
        let shown = if n > UPLOAD_FAILURE_PREVIEW_LIMIT {
            o.failures@.subrange(0, UPLOAD_FAILURE_PREVIEW_LIMIT as int)
        } else {
            o.failures@
        };
        let tail = if n > UPLOAD_FAILURE_PREVIEW_LIMIT {
            "\n... and "@ + dec((n - UPLOAD_FAILURE_PREVIEW_LIMIT) as nat) + " more failed file(s)."@
        } else {
            Seq::<char>::empty()
        };
        Some(head + failure_lines(shown) + tail)
    }
}

impl UploadOutcome {
    /// Every one of `count` requested files arrived.
    pub fn success(target_root: &str, count: u64) -> (o: Self)
        ensures
            o.requested_total == count,
            o.succeeded == count,
            o.failed == 0,
            o.failures@.len() == 0,
            o.target_root@ == target_root@,
            !o.partial,
            o.share_message is None,
    {
        UploadOutcome {
            requested_total: count,
            succeeded: count,
            failed: 0,
            failures: Vec::new(),
            target_root: target_root.to_owned(),
            partial: false,
            share_message: None,
        }
    }

    /// An outcome with the given failures; it is partial when some files
    /// failed and some arrived.
    pub fn from_failures(
        target_root: &str,
        requested_total: u64,
        succeeded: u64,
        failures: Vec<UploadFailure>,
    ) -> (o: Self)
        ensures
            o.requested_total == requested_total,
            o.succeeded == succeeded,
            o.failed == failures@.len(),
            o.failures@ == failures@,
            o.target_root@ == target_root@,
            o.partial == (failures@.len() > 0 && succeeded > 0),
            o.share_message is None,
    {
        let failed = failures.len() as u64;
        UploadOutcome {
            requested_total,
            succeeded,
            failed,
            failures,
            target_root: target_root.to_owned(),
            partial: failed > 0 && succeeded > 0,
            share_message: None,
        }
    }

    /// The same outcome with the given share message.
    pub fn with_share_message(self, share_message: Option<String>) -> (o: Self)
        ensures
            o == (UploadOutcome { share_message, ..self }),
    {
        let mut s = self;
        s.share_message = share_message;
        s
    }

    /// The failure summary (see `failure_message_spec`).
    pub fn failure_message(&self) -> (r: Option<String>)
        ensures
            match failure_message_spec(*self) {
                None => r is None,
                Some(m) => r matches Some(x) && x@ == m,
            },
    {
        if self.failed == 0 {
            return None;
        }
        let mut v: Vec<char> = Vec::new();
        append_str(&mut v, "Uploaded ");
        append_str(&mut v, u64_to_string(self.succeeded).as_str());
        append_str(&mut v, "/");
        append_str(&mut v, u64_to_string(self.requested_total).as_str());
        append_str(&mut v, " file(s) to ");
        append_str(&mut v, self.target_root.as_str());
        append_str(&mut v, "; ");
        append_str(&mut v, u64_to_string(self.failed).as_str());
        append_str(&mut v, " failed.");
        let ghost head = v@;
        let n = self.failures.len();
        let shown = if n > UPLOAD_FAILURE_PREVIEW_LIMIT {
            UPLOAD_FAILURE_PREVIEW_LIMIT
        } else {
            n
        };
        let mut i: usize = 0;
        while i < shown
            invariant
                shown <= n == self.failures@.len(),
                i <= shown,
                v@ == head + failure_lines(self.failures@.subrange(0, i as int)),
            decreases shown - i,
        {
            assert(self.failures@.subrange(0, i + 1).drop_last() =~= self.failures@.subrange(0, i as int));
            assert(self.failures@.subrange(0, i + 1).last() == self.failures@[i as int]);
            let ghost before = v@;
            append_str(&mut v, "\nFailed ");
            append_str(&mut v, self.failures[i].file.as_str());
            append_str(&mut v, " (");
            append_str(&mut v, self.failures[i].reason.as_str());
            append_str(&mut v, ")");
            assert(v@ =~= before + failure_line(self.failures@[i as int]));
            i = i + 1;
        }
        if n > UPLOAD_FAILURE_PREVIEW_LIMIT {
            append_str(&mut v, "\n... and ");
            append_str(&mut v, u64_to_string((n - UPLOAD_FAILURE_PREVIEW_LIMIT) as u64).as_str());
            append_str(&mut v, " more failed file(s).");
        } else {
            assert(self.failures@.subrange(0, n as int) =~= self.failures@);
        }
        Some(string_of(v.as_slice()))
    }
}

/// How an upload proceeds for its source.
#[derive(Debug, Clone, Copy, PartialEq, Eq, Structural)]
pub enum UploadKind {
    /// A single file.
    File,
    /// A directory with everything below it.
    Container,
}

/// Decides how an upload proceeds: sharing into an encrypted parent is
/// refused; a file is uploaded alone; a directory only recursively; anything
/// else is not a valid source.
pub fn choose_upload_kind(
    parent_is_encrypted: Option<bool>,
    share: bool,
    is_file: bool,
    is_dir: bool,
    recursive: bool,
    source: &str,
) -> (r: Result<UploadKind, DcCmdError>)
    ensures
        parent_is_encrypted == Some(true) && share ==> (r matches Err(
            DcCmdError::InvalidArgument(m),
        ) && m@ == "Sharing encrypted files currently not supported (remove --share flag)."@),
        !(parent_is_encrypted == Some(true) && share) ==> {
            if is_file {
                r == Ok::<UploadKind, DcCmdError>(UploadKind::File)
            } else if is_dir && recursive {
                r == Ok::<UploadKind, DcCmdError>(UploadKind::Container)
            } else if is_dir {
                r matches Err(DcCmdError::InvalidArgument(m)) && m@
                    == "Container upload requires recursive flag"@
            } else {
                r matches Err(DcCmdError::InvalidPath(m)) && m@ == source@
            }
        },
{
    let encrypted = match parent_is_encrypted {
        Some(b) => b,
        None => false,
    };
    if encrypted && share {
        return Err(DcCmdError::InvalidArgument(
            "Sharing encrypted files currently not supported (remove --share flag).".to_owned(),
        ));
    }
    if is_file {
        Ok(UploadKind::File)
    } else if is_dir && recursive {
        Ok(UploadKind::Container)
    } else if is_dir {
        Err(DcCmdError::InvalidArgument("Container upload requires recursive flag".to_owned()))
    } else {
        Err(DcCmdError::InvalidPath(source.to_owned()))
    }
}

/// Public upload shares take single files only: anything else is refused with
/// the source path.
pub fn check_public_upload(is_file: bool, source: &str) -> (r: Result<(), DcCmdError>)
    ensures
        is_file ==> r is Ok,
        !is_file ==> (r matches Err(DcCmdError::InvalidPath(m)) && m@ == source@),
{
    if is_file {
        Ok(())
    } else {
        Err(DcCmdError::InvalidPath(source.to_owned()))
    }
}

/// The access key of a public upload share: the last segment of its url
/// (empty when the url ends with a slash).
pub fn public_upload_access_key(target: &str) -> (r: String)
    ensures
        r@ == split(target@, '/').last(),
{
    let c = chars_of(target);
    let mut parts = split_chars(c.as_slice(), '/');
    proof {
        lemma_split_nonempty(target@, '/');
    }
    let ghost all = views(parts@);
    let last = parts.pop().unwrap();
    assert(last@ == all.last());
    string_of(last.as_slice())
}

/// Uploads files and directories, reporting progress.
pub struct NodesUploadService<P: ProgressReporter> {
    progress: P,
}

impl<P: ProgressReporter> NodesUploadService<P> {
    pub closed spec fn progress_view(&self) -> P {
        self.progress
    }

    /// A service that reports progress to `progress`.
    pub fn with_progress(progress: P) -> (s: Self)
        ensures
            s.progress_view() == progress,
    {
        NodesUploadService { progress }
    }

    /// The progress reporter.
    pub fn progress(&self) -> (p: &P)
        ensures
            *p == self.progress_view(),
    {
        &self.progress
    }
}

} // verus!
