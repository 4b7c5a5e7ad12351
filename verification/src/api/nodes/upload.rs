//! Uploads to S3: how many presigned urls a file needs, and what to do
//! after each poll of the state of an upload.

use vstd::prelude::*;
use crate::api::auth::models::DracoonErrorResponse;
use crate::api::nodes::models::{Node, S3FileUploadStatus, S3UploadStatus};

verus! {

/// The size of one uploaded chunk (32 MiB).
pub const CHUNK_SIZE: u64 = 33554432;

/// The number of chunks of `chunk_size` a file of `total_size` bytes takes
/// (the last one may be short), and the size of the last chunk: a full chunk
/// when the chunks divide a non-empty file evenly, 0 for an empty file.
pub open spec fn s3_url_count_spec(total_size: u64, chunk_size: u64) -> (int, int) {
    let urls: int = if total_size % chunk_size != 0 {
        total_size / chunk_size + 1
    } else {
        (total_size / chunk_size) as int
    };
    let last: int = if total_size > 0 && total_size % chunk_size == 0 {
        chunk_size as int
    } else {
        (total_size % chunk_size) as int
    };
    (urls, last)
}

/// The chunks cover the file exactly: there are just enough of them to hold
/// every byte (the count is the ceiling of size over chunk size, so a
/// non-empty file gets at least one), every chunk but the last is full, and
/// the last holds the rest, at least one byte and at most a full chunk. An
/// empty file takes no chunk.
pub proof fn lemma_s3_url_count_covers(total_size: u64, chunk_size: u64)
    requires
        chunk_size > 0,
    ensures
        total_size == 0 ==> s3_url_count_spec(total_size, chunk_size).0 == 0,
        total_size > 0 ==> {
            let (urls, last) = s3_url_count_spec(total_size, chunk_size);
            &&& urls >= 1
            &&& urls * chunk_size >= total_size
            &&& (urls - 1) * chunk_size < total_size
            &&& 0 < last <= chunk_size
            &&& (urls - 1) * chunk_size + last == total_size
        },
{
    let t = total_size as int;
    let c = chunk_size as int;
    let q = t / c;
    let m = t % c;
    assert(t == c * q + m && 0 <= m < c) by (nonlinear_arith)
        requires
            c > 0,
            q == t / c,
            m == t % c,
    ;
    assert(q >= 0) by (nonlinear_arith)
        requires
            c > 0,
            t >= 0,
            q == t / c,
    ;
    if total_size > 0 {
        if m != 0 {
            assert((q + 1) * c >= t && q * c < t) by (nonlinear_arith)
                requires
                    t == c * q + m,
                    0 < m < c,
            ;
        } else {
            assert(q >= 1) by (nonlinear_arith)
                requires
                    t == c * q,
                    t > 0,
                    c > 0,
            ;
            assert(q * c >= t && (q - 1) * c < t && (q - 1) * c + c == t) by (nonlinear_arith)
                requires
                    t == c * q,
                    c > 0,
            ;
        }
    } else {
        assert(q == 0 && m == 0) by (nonlinear_arith)
            requires
                t == 0,
                c > 0,
                q == t / c,
                m == t % c,
        ;
    }
}

/// The number of presigned urls and the size of the last chunk (see
/// `s3_url_count_spec`): just enough chunks for every byte, the last one
/// holding the rest. The number of urls must fit in a `u32`.
pub fn calculate_s3_url_count(total_size: u64, chunk_size: u64) -> (r: (u32, u64))
    requires
        chunk_size > 0,
        s3_url_count_spec(total_size, chunk_size).0 <= u32::MAX,
    ensures
        r.0 == s3_url_count_spec(total_size, chunk_size).0,
        r.1 == s3_url_count_spec(total_size, chunk_size).1,
        total_size == 0 ==> r.0 == 0,
        total_size > 0 ==> r.0 >= 1 && r.0 * chunk_size >= total_size && (r.0 - 1) * chunk_size < total_size
            && 0 < r.1 <= chunk_size && (r.0 - 1) * chunk_size + r.1 == total_size,
{
    proof {
        lemma_s3_url_count_covers(total_size, chunk_size);
    }
    let mut urls = total_size / chunk_size;
    if total_size % chunk_size != 0 {
        urls = urls + 1;
    }
    let last = if total_size > 0 && total_size % chunk_size == 0 {
        chunk_size
    } else {
        total_size % chunk_size
    };
    (urls as u32, last)
}

/// The delay before the first poll of the state of an upload, in
/// milliseconds; each further poll waits twice as long as the one before.
pub const POLLING_START_DELAY: u64 = 300;

/// What follows a poll of the state of an S3 upload.
#[derive(Debug, Clone)]
pub enum UploadPollStep {
    /// The upload is done and made this node.
    Done(Node),
    /// The upload failed with this error.
    Failed(DracoonErrorResponse),
    /// The upload is still running: sleep `sleep_ms` milliseconds, then poll
    /// again with `next_delay`.
    Wait { sleep_ms: u64, next_delay: u64 },
}

/// What follows a poll that waited `delay` milliseconds before it: the node
/// once the upload is done, its error once it failed, otherwise a sleep of
/// `delay` and twice the delay for the next poll. A finished state comes with
/// its node and a failed one with its error.
pub fn upload_poll_step(delay: u64, status: S3FileUploadStatus) -> (r: UploadPollStep)
    requires
        status.status == S3UploadStatus::Done ==> status.node is Some,
        status.status == S3UploadStatus::Error ==> status.error_details is Some,
        status.status == S3UploadStatus::Transfer || status.status == S3UploadStatus::Finishing
            ==> delay <= u64::MAX / 2,
    ensures
        match status.status {
            S3UploadStatus::Done => r == UploadPollStep::Done(status.node->Some_0),
            S3UploadStatus::Error => r == UploadPollStep::Failed(status.error_details->Some_0),
            _ => r == (UploadPollStep::Wait { sleep_ms: delay, next_delay: (2 * delay) as u64 }),
        },
{
    match status.status {
        S3UploadStatus::Done => UploadPollStep::Done(status.node.unwrap()),
        S3UploadStatus::Error => UploadPollStep::Failed(status.error_details.unwrap()),
        _ => UploadPollStep::Wait { sleep_ms: delay, next_delay: delay * 2 },
    }
}

} // verus!
