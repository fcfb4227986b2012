//! Transfer tasks and the decisions a transfer run makes: which direction
//! a task goes, where a resumed transfer starts, what progress is reported,
//! when resume state is saved, and what a finished run records.

use vstd::prelude::*;
use vstd::string::*;
use crate::text::{chars_of, same_chars};

verus! {

/// The direction of a transfer.
#[derive(PartialEq, Eq, Structural, Debug, Clone, Copy)]
pub enum TransferDirection {
    Upload,
    Download,
}

pub open spec fn upload_text() -> Seq<char> {
    seq!['u', 'p', 'l', 'o', 'a', 'd']
}

pub open spec fn download_text() -> Seq<char> {
    seq!['d', 'o', 'w', 'n', 'l', 'o', 'a', 'd']
}

/// The direction a stored text names, if any.
pub open spec fn direction_from_text(s: Seq<char>) -> Option<TransferDirection> {
    if s == upload_text() {
        Some(TransferDirection::Upload)
    } else if s == download_text() {
        Some(TransferDirection::Download)
    } else {
        None
    }
}

/// A stored direction reads back as the direction that was stored.
pub proof fn direction_reads_back(d: TransferDirection)
    ensures
        direction_from_text(direction_text(d)) == Some(d),
{
    assert(upload_text() != download_text()) by {
        assert(upload_text().len() != download_text().len());
    }
}

pub open spec fn direction_text(d: TransferDirection) -> Seq<char> {
    match d {
        TransferDirection::Upload => upload_text(),
        TransferDirection::Download => download_text(),
    }
}

fn is_upload_text(s: &str) -> (r: bool)
    ensures
        r == (s@ == upload_text()),
{
    let lit: [char; 6] = ['u', 'p', 'l', 'o', 'a', 'd'];
    assert(lit@ =~= upload_text());
    same_chars(&chars_of(s), &lit)
}

fn is_download_text(s: &str) -> (r: bool)
    ensures
        r == (s@ == download_text()),
{
    let lit: [char; 8] = ['d', 'o', 'w', 'n', 'l', 'o', 'a', 'd'];
    assert(lit@ =~= download_text());
    same_chars(&chars_of(s), &lit)
}

impl TransferDirection {
    /// `"upload"` or `"download"`, as stored.
    pub fn as_string(&self) -> (r: String)
        ensures
            r@ == direction_text(*self),
    {
        match self {
            TransferDirection::Upload => {
                let lit: [char; 6] = ['u', 'p', 'l', 'o', 'a', 'd'];
                assert(lit@ =~= upload_text());
                crate::text::string_of(&lit)
            },
            TransferDirection::Download => {
                let lit: [char; 8] = ['d', 'o', 'w', 'n', 'l', 'o', 'a', 'd'];
                assert(lit@ =~= download_text());
                crate::text::string_of(&lit)
            },
        }
    }

    /// Reads a stored direction; anything but the two names is refused.
    pub fn from_str(s: &str) -> (r: Option<TransferDirection>)
        ensures
            r == direction_from_text(s@),
    {
        if is_upload_text(s) {
            Some(TransferDirection::Upload)
        } else if is_download_text(s) {
            Some(TransferDirection::Download)
        } else {
            None
        }
    }
}

/// The direction a task names: `"upload"` uploads, anything else downloads.
pub fn direction_of_task(direction: &str) -> (d: TransferDirection)
    ensures
        d == (if direction@ == upload_text() {
            TransferDirection::Upload
        } else {
            TransferDirection::Download
        }),
{
    if is_upload_text(direction) {
        TransferDirection::Upload
    } else {
        TransferDirection::Download
    }
}

/// The states a transfer history entry passes through.
#[derive(PartialEq, Eq, Structural, Debug, Clone, Copy)]
pub enum TransferStatus {
    Pending,
    Transferring,
    Success,
    Failed,
    Cancelled,
}

/// A random identifier for a new task: `uuid::Uuid::new_v4()` in its
/// hyphenated text form, which the uuid crate documents as 36 characters.
#[verifier::external_body]
fn new_task_id() -> (r: String)
    ensures
        r@.len() == 36,
{
    uuid::Uuid::new_v4().to_string()
}

/// One file to transfer.
#[derive(Debug, Clone)]
pub struct TransferTask {
    pub id: String,
    pub host_id: i64,
    pub filename: String,
    pub local_path: String,
    pub remote_path: String,
    pub direction: String,
    pub file_size: u64,
}

impl TransferTask {
    /// A task with a fresh random id.
    pub fn new(
        host_id: i64,
        filename: String,
        local_path: String,
        remote_path: String,
        direction: String,
        file_size: u64,
    ) -> (t: Self)
        ensures
            t.id@.len() == 36,
            t.host_id == host_id,
            t.filename == filename,
            t.local_path == local_path,
            t.remote_path == remote_path,
            t.direction == direction,
            t.file_size == file_size,
    {
        TransferTask {
            id: new_task_id(),
            host_id,
            filename,
            local_path,
            remote_path,
            direction,
            file_size,
        }
    }
}

/// Saved progress of an interrupted transfer.
#[derive(Debug, Clone)]
pub struct ResumeRecord {
    pub id: Option<i64>,
    pub transfer_id: String,
    pub host_id: i64,
    pub remote_path: String,
    pub local_path: String,
    pub direction: TransferDirection,
    pub file_size: u64,
    pub transferred_bytes: u64,
    pub checksum: Option<String>,
    pub created_at: Option<String>,
}

impl ResumeRecord {
    /// A record of a transfer that has not moved any byte yet.
    pub fn new(
        transfer_id: String,
        host_id: i64,
        remote_path: String,
        local_path: String,
        direction: TransferDirection,
        file_size: u64,
    ) -> (r: Self)
        ensures
            r.id is None,
            r.transfer_id == transfer_id,
            r.host_id == host_id,
            r.remote_path == remote_path,
            r.local_path == local_path,
            r.direction == direction,
            r.file_size == file_size,
            r.transferred_bytes == 0,
            r.checksum is None,
            r.created_at is None,
    {
        ResumeRecord {
            id: None,
            transfer_id,
            host_id,
            remote_path,
            local_path,
            direction,
            file_size,
            transferred_bytes: 0,
            checksum: None,
            created_at: None,
        }
    }
}

/// Where a transfer starts: at the saved position when a resume record was
/// found, otherwise (none found, or the lookup failed) at zero.
pub fn resume_offset(lookup: Result<Option<u64>, String>) -> (r: u64)
    ensures
        r == (match lookup {
            Ok(Some(n)) => n,
            _ => 0,
        }),
{
    match lookup {
        Ok(Some(n)) => n,
        _ => 0,
    }
}

/// The byte counts a progress report carries.
#[derive(Debug, Clone, Copy)]
pub struct ProgressCounts {
    /// Position reached in the file, capped at its size.
    pub effective_transferred: u64,
    /// Bytes moved since this run started (the resume offset excluded).
    pub session_bytes: u64,
    /// Bytes still to move.
    pub remaining_bytes: u64,
}

/// Counts for a progress report at absolute position `transferred` of a
/// `total`-byte file, in a run that resumed at `resume_offset`.
pub fn progress_counts(transferred: u64, total: u64, resume_offset: u64) -> (c: ProgressCounts)
    ensures
        c.effective_transferred == (if transferred < total {
            transferred
        } else {
            total
        }),
        c.session_bytes == (if c.effective_transferred > resume_offset {
            c.effective_transferred - resume_offset
        } else {
            0
        }),
        c.remaining_bytes == total - c.effective_transferred,
        c.effective_transferred <= total,
{
    let effective = if transferred < total {
        transferred
    } else {
        total
    };
    let session = if effective > resume_offset {
        effective - resume_offset
    } else {
        0
    };
    ProgressCounts {
        effective_transferred: effective,
        session_bytes: session,
        remaining_bytes: total - effective,
    }
}

/// Seconds between two saves of resume state during a transfer.
pub const RESUME_SAVE_INTERVAL_SECS: u64 = 3;

/// Whether resume state is due to be saved, `secs_since_last_save` seconds
/// after the last save.
pub fn resume_save_due(secs_since_last_save: u64) -> (r: bool)
    ensures
        r == (secs_since_last_save >= RESUME_SAVE_INTERVAL_SECS),
{
    secs_since_last_save >= RESUME_SAVE_INTERVAL_SECS
}

/// What a finished transfer run records.
#[derive(Debug, Clone)]
pub enum TaskOutcome {
    /// Cancelled: recorded with zero bytes.
    Cancelled,
    /// Succeeded: the file's total bytes, the resume offset included.
    Completed { transferred: u64 },
    /// Failed with the client's error.
    Failed { error: String },
}

/// `a + b`, or `u64::MAX` where the sum does not fit.
pub open spec fn sat_add(a: u64, b: u64) -> u64 {
    if a + b <= u64::MAX {
        (a + b) as u64
    } else {
        u64::MAX
    }
}

/// What a run records: a cancellation wins over whatever the client
/// returned; otherwise success records the offset plus the bytes moved,
/// and failure the client's error.
pub open spec fn task_outcome_spec(cancelled: bool, result: Result<u64, String>, resume_offset: u64) -> TaskOutcome {
    if cancelled {
        TaskOutcome::Cancelled
    } else {
        match result {
            Ok(n) => TaskOutcome::Completed { transferred: sat_add(resume_offset, n) },
            Err(e) => TaskOutcome::Failed { error: e },
        }
    }
}

/// The outcome of a run. The byte count saturates at `u64::MAX`, which no
/// file reaches.
pub fn task_outcome(cancelled: bool, result: Result<u64, String>, resume_offset: u64) -> (o: TaskOutcome)
    ensures
        o == task_outcome_spec(cancelled, result, resume_offset),
{
    if cancelled {
        return TaskOutcome::Cancelled;
    }
    match result {
        Ok(bytes) => TaskOutcome::Completed { transferred: resume_offset.saturating_add(bytes) },
        Err(e) => TaskOutcome::Failed { error: e },
    }
}

/// The resume record a failed run leaves, so that a retry can start over
/// for the same file: the task's id, host, paths, direction and size, with
/// nothing transferred.
pub fn failure_resume_record(task: &TransferTask) -> (r: ResumeRecord)
    ensures
        r.transfer_id == task.id,
        r.host_id == task.host_id,
        r.remote_path == task.remote_path,
        r.local_path == task.local_path,
        r.direction == (if task.direction@ == upload_text() {
            TransferDirection::Upload
        } else {
            TransferDirection::Download
        }),
        r.file_size == task.file_size,
        r.transferred_bytes == 0,
{
    ResumeRecord::new(
        task.id.clone(),
        task.host_id,
        task.remote_path.clone(),
        task.local_path.clone(),
        direction_of_task(task.direction.as_str()),
        task.file_size,
    )
}

} // verus!
