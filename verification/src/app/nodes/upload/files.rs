//! Uploads of single files and lists of files: read buffer sizes, how many
//! uploads run at once, how conflicts are resolved, the share message and
//! what the results of the upload tasks add up to.

use vstd::prelude::*;
use crate::api::nodes::models::ResolutionStrategy;
use crate::constants::{DEFAULT_CONCURRENT_MULTIPLIER, MAX_VELOCITY, MIN_VELOCITY};
use crate::errors::DcCmdError;
use crate::text::{append_str, string_of};

verus! {

/// Bytes in a mebibyte.
pub const MEGABYTE: u64 = 1048576;

/// The read buffer for a file of the given size: 16 KiB up to 1 MiB, 64 KiB
/// up to 10 MiB, 128 KiB up to 100 MiB and 256 KiB above.
pub open spec fn buffer_size_spec(file_size: u64) -> usize {
    if file_size <= MEGABYTE {
        16384
    } else if file_size <= 10 * MEGABYTE {
        65536
    } else if file_size <= 100 * MEGABYTE {
        131072
    } else {
        262144
    }
}

/// The read buffer size for a file (see `buffer_size_spec`).
pub fn calculate_buffer_size(file_size: u64) -> (r: usize)
    ensures
        r == buffer_size_spec(file_size),
{
    if file_size <= MEGABYTE {
        16384
    } else if file_size <= 10 * MEGABYTE {
        65536
    } else if file_size <= 100 * MEGABYTE {
        131072
    } else {
        262144
    }
}

/// The velocity in effect: the lowest when none is given, else the given one
/// clamped to the allowed range.
pub open spec fn effective_velocity_spec(velocity: Option<u8>) -> u8 {
    let v = match velocity {
        Some(v) => v,
        None => MIN_VELOCITY,
    };
    if v < MIN_VELOCITY {
        MIN_VELOCITY
    } else if v > MAX_VELOCITY {
        MAX_VELOCITY
    } else {
        v
    }
}

/// The velocity in effect (see `effective_velocity_spec`).
pub fn effective_velocity(velocity: Option<u8>) -> (r: u8)
    ensures
        r == effective_velocity_spec(velocity),
        MIN_VELOCITY <= r <= MAX_VELOCITY,
{
    let v = match velocity {
        Some(v) => v,
        None => MIN_VELOCITY,
    };
    if v < MIN_VELOCITY {
        MIN_VELOCITY
    } else if v > MAX_VELOCITY {
        MAX_VELOCITY
    } else {
        v
    }
}

/// How many transfers run at once: the velocity in effect times the
/// concurrency multiplier.
pub fn concurrent_requests_for_velocity(velocity: Option<u8>) -> (r: usize)
    ensures
        r == effective_velocity_spec(velocity) * DEFAULT_CONCURRENT_MULTIPLIER,
{
    let v = effective_velocity(velocity) as usize;
    v * (DEFAULT_CONCURRENT_MULTIPLIER as usize)
}

/// The classification of uploaded files: the given one, else 2 (internal).
pub fn upload_classification(classification: Option<u8>) -> (r: u8)
    ensures
        r == match classification {
            Some(c) => c,
            None => 2u8,
        },
{
    match classification {
        Some(c) => c,
        None => 2,
    }
}

/// How an upload meets an existing node of the same name: overwriting keeps
/// share links when asked to, auto-renaming never keeps them.
pub fn upload_conflict_options(overwrite: bool, keep_share_links: bool) -> (r: (ResolutionStrategy, bool))
    ensures
        r == if overwrite {
            (ResolutionStrategy::Overwrite, keep_share_links)
        } else {
            (ResolutionStrategy::AutoRename, false)
        },
{
    if overwrite {
        (ResolutionStrategy::Overwrite, keep_share_links)
    } else {
        (ResolutionStrategy::AutoRename, false)
    }
}

/// Whether an uploaded file gets a share link: sharing was asked for and the
/// file is not encrypted.
pub fn should_share_upload(share_enabled: bool, is_encrypted: Option<bool>) -> (r: bool)
    ensures
        r == (share_enabled && !(is_encrypted == Some(true))),
{
    let encrypted = match is_encrypted {
        Some(b) => b,
        None => false,
    };
    share_enabled && !encrypted
}

/// The message shown for a shared upload: `Shared {file}.` and the link on
/// the next line.
pub open spec fn share_message_spec(file_name: Seq<char>, link: Seq<char>) -> Seq<char> {
    "Shared "@ + file_name + ".\n▶︎▶︎ "@ + link
}

/// The message shown for a shared upload (see `share_message_spec`).
pub fn share_message(file_name: &str, link: &str) -> (r: String)
    ensures
        r@ == share_message_spec(file_name@, link@),
{
    let mut v: Vec<char> = Vec::new();
    append_str(&mut v, "Shared ");
    append_str(&mut v, file_name);
    append_str(&mut v, ".\n▶︎▶︎ ");
    append_str(&mut v, link);
    string_of(v.as_slice())
}

/// The first error among the results of the upload tasks, in task order.
pub open spec fn first_upload_error(results: Seq<Result<(), DcCmdError>>) -> Option<DcCmdError>
    decreases results.len(),
{
    if results.len() == 0 {
        None
    } else if results[0] is Err {
        Some(results[0]->Err_0)
    } else {
        first_upload_error(results.drop_first())
    }
}

/// What the results of the upload tasks add up to: the error of the first
/// task that failed (in task order), or, when none failed, the number of
/// uploaded files, which is every file.
pub fn upload_results(results: Vec<Result<(), DcCmdError>>) -> (r: Result<u64, DcCmdError>)
    requires
        results@.len() < u64::MAX,
    ensures
        match first_upload_error(results@) {
            Some(e) => r == Err::<u64, DcCmdError>(e),
            None => r == Ok::<u64, DcCmdError>(results@.len() as u64),
        },
{
    let ghost all = results@;
    let mut rest = results;
    let mut uploaded: u64 = 0;
    let mut failure: Option<DcCmdError> = None;
    assert(all.subrange(0, all.len() as int) =~= all);
    while rest.len() > 0
        invariant_except_break
            failure is None,
            uploaded as int + rest@.len() == all.len(),
            rest@ == all.subrange(uploaded as int, all.len() as int),
            first_upload_error(rest@) == first_upload_error(all),
        invariant
            all.len() < u64::MAX,
        ensures
            failure matches Some(e) ==> first_upload_error(all) == Some(e),
            failure is None ==> uploaded == all.len() && first_upload_error(all) is None,
        decreases rest@.len(),
    {
        let ghost before = rest@;
        let next = rest.remove(0);
        assert(next == before[0]);
        assert(rest@ =~= before.drop_first());
        assert(rest@ =~= all.subrange(uploaded + 1, all.len() as int));
        match next {
            Ok(()) => {
                uploaded = uploaded + 1;
            },
            Err(e) => {
                assert(first_upload_error(before) == Some(e));
                failure = Some(e);
                break;
            },
        }
    }
    match failure {
        Some(e) => Err(e),
        None => Ok(uploaded),
    }
}

} // verus!
