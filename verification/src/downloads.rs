//! Download planning: the description of one file to fetch, and the
//! decisions the download manager takes around each transfer (skip when
//! already correct, where to resume, when to retry, how a batch ends).
use vstd::prelude::*;

use crate::ext::{sha1_digest, sha1_of};
use crate::text::{concat2, concat3, decimal, decimal_string, eq_ignore_ascii_case, eq_ignore_case_exec, hex_encode, hex_lower_of, owned};

verus! {

/// A single file to fetch. `label` is only shown to the user; everything
/// that affects correctness is one of the other fields.
#[derive(Debug)]
pub struct DownloadTask {
    pub url: String,
    pub destination: String,
    /// Expected hex SHA-1, when the source provides one.
    pub sha1: Option<String>,
    /// Expected size in bytes, when known.
    pub expected_size: Option<u64>,
    pub label: String,
}

/// The characters of an optional string.
pub open spec fn opt_view(o: Option<String>) -> Option<Seq<char>> {
    match o {
        Some(s) => Some(s@),
        None => None,
    }
}

/// A download task as plain values.
pub struct TaskView {
    pub url: Seq<char>,
    pub destination: Seq<char>,
    pub sha1: Option<Seq<char>>,
    pub expected_size: Option<u64>,
    pub label: Seq<char>,
}

impl View for DownloadTask {
    type V = TaskView;

    open spec fn view(&self) -> TaskView {
        TaskView {
            url: self.url@,
            destination: self.destination@,
            sha1: opt_view(self.sha1),
            expected_size: self.expected_size,
            label: self.label@,
        }
    }
}

/// The views of a sequence of tasks.
pub open spec fn task_views(v: Seq<DownloadTask>) -> Seq<TaskView> {
    v.map_values(|t: DownloadTask| t@)
}

impl Clone for DownloadTask {
    fn clone(&self) -> (r: Self)
        ensures
            r == *self,
    {
        DownloadTask {
            url: self.url.clone(),
            destination: self.destination.clone(),
            sha1: match &self.sha1 {
                Some(s) => Some(s.clone()),
                None => None,
            },
            expected_size: self.expected_size,
            label: self.label.clone(),
        }
    }
}

impl DownloadTask {
    /// A task with no checksum and no expected size.
    pub fn new(url: &str, destination: &str, label: &str) -> (t: DownloadTask)
        ensures
            t@ == (TaskView {
                url: url@,
                destination: destination@,
                sha1: None,
                expected_size: None,
                label: label@,
            }),
    {
        DownloadTask {
            url: owned(url),
            destination: owned(destination),
            sha1: None,
            expected_size: None,
            label: owned(label),
        }
    }

    /// The same task, expecting the given SHA-1.
    pub fn with_sha1(self, sha1: &str) -> (t: DownloadTask)
        ensures
            t@ == (TaskView { sha1: Some(sha1@), ..self@ }),
    {
        DownloadTask { sha1: Some(owned(sha1)), ..self }
    }

    /// The same task, expecting the given size.
    pub fn with_size(self, size: u64) -> (t: DownloadTask)
        ensures
            t@ == (TaskView { expected_size: Some(size), ..self@ }),
    {
        DownloadTask { expected_size: Some(size), ..self }
    }
}

/// Where an in-progress download of `destination` is written before it is
/// moved into place: the same path with `.part` appended.
pub fn part_path_for(destination: &str) -> (r: String)
    ensures
        r@ == destination@ + ".part"@,
{
    concat2(destination, ".part")
}

/// The lower-case hex SHA-1 of `bytes`.
pub fn sha1_of_bytes(bytes: &[u8]) -> (r: String)
    ensures
        r@ == hex_lower_of(sha1_of(bytes@)),
{
    let digest = sha1_digest(bytes);
    hex_encode(digest.as_slice())
}

// ─── Errors ──────────────────────────────────────────────────────────────────

/// Why a download, or a batch of them, failed. Network and filesystem
/// failures carry the underlying error's text.
#[derive(Debug, Clone, PartialEq, Eq)]
pub enum DownloadError {
    Cancelled,
    Request { url: String, cause: String },
    HttpStatus { url: String, status: u16 },
    ChecksumMismatch { label: String, expected: String, actual: String },
    Io { label: String, cause: String },
    RetriesExhausted { label: String, attempts: u32, last_error: String },
    PartialFailure { failed_count: usize, total_count: usize, first_message: String },
}

/// The message shown for a download error.
pub open spec fn download_error_message(e: DownloadError) -> Seq<char> {
    match e {
        DownloadError::Cancelled => "download was cancelled"@,
        DownloadError::Request { url, .. } => "network request failed for "@ + url@,
        DownloadError::HttpStatus { url, status } => "server returned HTTP "@ + decimal(
            status as nat,
        ) + " for "@ + url@,
        DownloadError::ChecksumMismatch { label, expected, actual } => "checksum mismatch for "@
            + label@ + ": expected "@ + expected@ + ", got "@ + actual@,
        DownloadError::Io { label, .. } => "filesystem error while downloading "@ + label@,
        DownloadError::RetriesExhausted { label, attempts, last_error } => label@
            + " failed after "@ + decimal(attempts as nat) + " attempts: "@ + last_error@,
        DownloadError::PartialFailure { failed_count, total_count, first_message } => decimal(
            failed_count as nat,
        ) + " of "@ + decimal(total_count as nat) + " downloads failed; first error: "@
            + first_message@,
    }
}

impl DownloadError {
    /// The message shown for this error.
    pub fn message(&self) -> (r: String)
        ensures
            r@ == download_error_message(*self),
    {
        match self {
            DownloadError::Cancelled => owned("download was cancelled"),
            DownloadError::Request { url, .. } => concat2("network request failed for ", url.as_str()),
            DownloadError::HttpStatus { url, status } => {
                let mut r = concat2("server returned HTTP ", decimal_string(*status as u64).as_str());
                r.append(" for ");
                r.append(url.as_str());
                r
            },
            DownloadError::ChecksumMismatch { label, expected, actual } => {
                let mut r = concat3("checksum mismatch for ", label.as_str(), ": expected ");
                r.append(expected.as_str());
                r.append(", got ");
                r.append(actual.as_str());
                r
            },
            DownloadError::Io { label, .. } => concat2(
                "filesystem error while downloading ",
                label.as_str(),
            ),
            DownloadError::RetriesExhausted { label, attempts, last_error } => {
                let mut r = concat3(
                    label.as_str(),
                    " failed after ",
                    decimal_string(*attempts as u64).as_str(),
                );
                r.append(" attempts: ");
                r.append(last_error.as_str());
                r
            },
            DownloadError::PartialFailure { failed_count, total_count, first_message } => {
                let mut r = concat3(
                    decimal_string(*failed_count as u64).as_str(),
                    " of ",
                    decimal_string(*total_count as u64).as_str(),
                );
                r.append(" downloads failed; first error: ");
                r.append(first_message.as_str());
                r
            },
        }
    }
}

// ─── One transfer ────────────────────────────────────────────────────────────

/// How many times one file is attempted.
pub const MAX_ATTEMPTS: u32 = 4;

/// How many new bytes make a progress report worth sending.
pub const PROGRESS_EMIT_THRESHOLD_BYTES: u64 = 64 * 1024;

/// Whether a file on disk already is what a task would fetch: it exists,
/// and its SHA-1 matches (any letter case) when the task has one, else its
/// size matches when the task has one; with neither, its presence is
/// trusted. `actual_sha1` / `actual_len` are what reading the file gave,
/// `None` when it could not be read.
pub open spec fn up_to_date(
    task: TaskView,
    exists: bool,
    actual_sha1: Option<Seq<char>>,
    actual_len: Option<u64>,
) -> bool {
    if !exists {
        false
    } else {
        match task.sha1 {
            Some(expected) => actual_sha1 matches Some(a) && eq_ignore_ascii_case(a, expected),
            None => match task.expected_size {
                Some(n) => actual_len == Some(n),
                None => true,
            },
        }
    }
}

/// Decides whether a task can be skipped (see [`up_to_date`]).
pub fn already_up_to_date(
    task: &DownloadTask,
    exists: bool,
    actual_sha1: Option<&str>,
    actual_len: Option<u64>,
) -> (r: bool)
    ensures
        r == up_to_date(
            task@,
            exists,
            match actual_sha1 {
                Some(a) => Some(a@),
                None => None,
            },
            actual_len,
        ),
{
    if !exists {
        return false;
    }
    match &task.sha1 {
        Some(expected) => match actual_sha1 {
            Some(a) => eq_ignore_case_exec(a, expected.as_str()),
            None => false,
        },
        None => match task.expected_size {
            Some(n) => match actual_len {
                Some(l) => l == n,
                None => false,
            },
            None => true,
        },
    }
}

/// Where a transfer starts: the length of the leftover `.part` file, unless
/// it already reaches the expected size — a stale partial that would make
/// the server answer 416 on every retry — in which case it is discarded
/// and the transfer starts over.
#[derive(Debug, Clone, Copy, PartialEq, Eq, Structural)]
pub struct ResumePlan {
    pub resume_from: u64,
    pub discard_part: bool,
}

/// The resume plan given the `.part` file's length (`None`: no such file)
/// and the expected size.
pub fn resume_plan(part_len: Option<u64>, expected_size: Option<u64>) -> (r: ResumePlan)
    ensures
        r.discard_part == (part_len matches Some(p) && expected_size matches Some(n) && p >= n),
        r.resume_from == (if r.discard_part {
            0
        } else {
            match part_len {
                Some(p) => p,
                None => 0,
            }
        }),
        expected_size matches Some(n) ==> r.resume_from == 0 || r.resume_from < n,
{
    let from = match part_len {
        Some(p) => p,
        None => 0,
    };
    match (part_len, expected_size) {
        (Some(p), Some(n)) => if p >= n {
            ResumePlan { resume_from: 0, discard_part: true }
        } else {
            ResumePlan { resume_from: from, discard_part: false }
        },
        _ => ResumePlan { resume_from: from, discard_part: false },
    }
}

/// The `Range` header value asking for the rest of a file from byte
/// `resume_from`, when there is something to resume.
pub fn range_header_value(resume_from: u64) -> (r: Option<String>)
    ensures
        resume_from == 0 ==> r is None,
        resume_from > 0 ==> (r matches Some(h) && h@ == "bytes="@ + decimal(resume_from as nat)
            + "-"@),
{
    if resume_from > 0 {
        Some(concat3("bytes=", decimal_string(resume_from).as_str(), "-"))
    } else {
        None
    }
}

/// What to do with a response.
#[derive(Debug, Clone, PartialEq, Eq)]
pub enum ResponseVerdict {
    /// Write the body: appended to the partial file when resuming, else
    /// from scratch; `starting_offset` bytes are already on disk.
    Accept { resuming: bool, starting_offset: u64 },
    /// Fail this attempt, discarding the partial file when it is stale.
    Reject { error: DownloadError, discard_part: bool },
}

/// The verdict on a response with HTTP `status` to a request that resumed
/// from `resume_from`: 416 means the partial file is stale (discard it and
/// fail, so the next attempt starts clean); another non-2xx status fails;
/// a success resumes only when the server honoured the range (206).
pub fn response_verdict(status: u16, resume_from: u64, url: &str) -> (r: ResponseVerdict)
    ensures
        status == 416 ==> (r matches ResponseVerdict::Reject {
            error: DownloadError::HttpStatus { url: u, status: s },
            discard_part: true,
        } && u@ == url@ && s == status),
        status != 416 && !(200 <= status < 300) ==> (r matches ResponseVerdict::Reject {
            error: DownloadError::HttpStatus { url: u, status: s },
            discard_part: false,
        } && u@ == url@ && s == status),
        200 <= status < 300 ==> r == (ResponseVerdict::Accept {
            resuming: resume_from > 0 && status == 206,
            starting_offset: if resume_from > 0 && status == 206 {
                resume_from
            } else {
                0
            },
        }),
{
    if status == 416 {
        ResponseVerdict::Reject {
            error: DownloadError::HttpStatus { url: owned(url), status },
            discard_part: true,
        }
    } else if !(200 <= status && status < 300) {
        ResponseVerdict::Reject {
            error: DownloadError::HttpStatus { url: owned(url), status },
            discard_part: false,
        }
    } else {
        let resuming = resume_from > 0 && status == 206;
        ResponseVerdict::Accept {
            resuming,
            starting_offset: if resuming {
                resume_from
            } else {
                0
            },
        }
    }
}

/// Whether enough bytes arrived since the last progress report to send
/// another.
pub fn should_emit_progress(downloaded: u64, last_emitted: u64) -> (r: bool)
    ensures
        r == (downloaded > last_emitted && downloaded - last_emitted >= PROGRESS_EMIT_THRESHOLD_BYTES),
{
    downloaded.saturating_sub(last_emitted) >= PROGRESS_EMIT_THRESHOLD_BYTES
}

/// The verdict on a finished transfer with an expected SHA-1: accepted
/// when the actual digest matches in any letter case, else a checksum
/// mismatch naming both.
pub fn checksum_verdict(label: &str, expected: &str, actual: &str) -> (r: Result<(), DownloadError>)
    ensures
        eq_ignore_ascii_case(actual@, expected@) ==> r is Ok,
        !eq_ignore_ascii_case(actual@, expected@) ==> (r matches Err(
            DownloadError::ChecksumMismatch { label: l, expected: e, actual: a },
        ) && l@ == label@ && e@ == expected@ && a@ == actual@),
{
    if eq_ignore_case_exec(actual, expected) {
        Ok(())
    } else {
        Err(
            DownloadError::ChecksumMismatch {
                label: owned(label),
                expected: owned(expected),
                actual: owned(actual),
            },
        )
    }
}

// ─── Retries ─────────────────────────────────────────────────────────────────

/// The pause before attempt `attempt + 1`: 500 ms doubling with each
/// attempt, capped at 8 s.
pub open spec fn backoff_of(attempt: nat) -> nat
    decreases attempt,
{
    if attempt <= 1 {
        500
    } else {
        let prev = backoff_of((attempt - 1) as nat);
        if prev * 2 >= 8000 {
            8000
        } else {
            prev * 2
        }
    }
}

/// The pause after failed attempt `attempt` (counted from 1).
pub fn backoff_ms(attempt: u32) -> (r: u64)
    requires
        attempt >= 1,
    ensures
        r == backoff_of(attempt as nat),
{
    let mut ms: u64 = 500;
    let mut k: u32 = 1;
    while k < attempt
        invariant
            1 <= k <= attempt,
            ms == backoff_of(k as nat),
            ms <= 8000,
        decreases attempt - k,
    {
        ms = if ms * 2 >= 8000 {
            8000
        } else {
            ms * 2
        };
        k = k + 1;
    }
    ms
}

/// Backoff never shrinks from one attempt to the next and never exceeds
/// 8 s.
pub proof fn lemma_backoff_monotone(a: nat, b: nat)
    requires
        a <= b,
    ensures
        backoff_of(a) <= backoff_of(b),
        500 <= backoff_of(b) <= 8000,
    decreases b,
{
    if b > 1 {
        if a < b {
            lemma_backoff_monotone(a, (b - 1) as nat);
        }
        lemma_backoff_monotone((b - 1) as nat, (b - 1) as nat);
    }
}

/// How one attempt ended.
#[derive(Debug, Clone, PartialEq, Eq)]
pub enum AttemptOutcome {
    Succeeded,
    Cancelled,
    Failed(DownloadError),
}

/// What follows an attempt.
#[derive(Debug, Clone, PartialEq, Eq)]
pub enum RetryStep {
    /// The file is in place.
    Done,
    /// The batch was cancelled: stop without retrying.
    Stop,
    /// Report the failure (`message`), wait `delay_ms`, try again.
    Retry { message: String, delay_ms: u64 },
    /// Report the failure (`message`) and give up with `error`.
    GiveUp { message: String, error: DownloadError },
}

/// The step after attempt `attempt` (from 1) of the task labelled `label`.
pub fn after_attempt(label: &str, attempt: u32, outcome: AttemptOutcome) -> (r: RetryStep)
    requires
        1 <= attempt <= MAX_ATTEMPTS,
    ensures
        outcome == AttemptOutcome::Succeeded ==> r == RetryStep::Done,
        outcome == AttemptOutcome::Cancelled ==> r == RetryStep::Stop,
        outcome matches AttemptOutcome::Failed(e) ==> (attempt < MAX_ATTEMPTS ==> (r matches RetryStep::Retry {
            message: m,
            delay_ms: d,
        } && m@ == download_error_message(e) && d == backoff_of(attempt as nat))),
        outcome matches AttemptOutcome::Failed(e) ==> (attempt == MAX_ATTEMPTS ==> (r matches RetryStep::GiveUp {
            message: m,
            error: DownloadError::RetriesExhausted { label: l, attempts: n, last_error: le },
        } && m@ == download_error_message(e) && l@ == label@ && n == MAX_ATTEMPTS && le@
            == download_error_message(e))),
        r matches RetryStep::Retry { .. } ==> attempt < MAX_ATTEMPTS,
{
    match outcome {
        AttemptOutcome::Succeeded => RetryStep::Done,
        AttemptOutcome::Cancelled => RetryStep::Stop,
        AttemptOutcome::Failed(e) => {
            let message = e.message();
            if attempt < MAX_ATTEMPTS {
                RetryStep::Retry { message, delay_ms: backoff_ms(attempt) }
            } else {
                let last_error = e.message();
                RetryStep::GiveUp {
                    message,
                    error: DownloadError::RetriesExhausted {
                        label: owned(label),
                        attempts: MAX_ATTEMPTS,
                        last_error,
                    },
                }
            }
        },
    }
}

// ─── Batches ─────────────────────────────────────────────────────────────────

/// The sum of the expected sizes given.
pub open spec fn expected_bytes(tasks: Seq<DownloadTask>) -> int
    decreases tasks.len(),
{
    if tasks.len() == 0 {
        0
    } else {
        expected_bytes(tasks.drop_last()) + match tasks.last().expected_size {
            Some(n) => n as int,
            None => 0,
        }
    }
}

/// Prefix sums of expected sizes never exceed the whole.
proof fn lemma_expected_bytes_prefix(tasks: Seq<DownloadTask>, k: int)
    requires
        0 <= k <= tasks.len(),
    ensures
        0 <= expected_bytes(tasks.take(k)) <= expected_bytes(tasks),
    decreases tasks.len(),
{
    if k == tasks.len() {
        assert(tasks.take(k) =~= tasks);
        if tasks.len() > 0 {
            lemma_expected_bytes_prefix(tasks.drop_last(), tasks.len() - 1);
            assert(tasks.drop_last().take(tasks.len() - 1) =~= tasks.drop_last());
        }
    } else {
        lemma_expected_bytes_prefix(tasks.drop_last(), k);
        lemma_expected_bytes_prefix(tasks.drop_last(), tasks.len() - 1);
        assert(tasks.drop_last().take(k) =~= tasks.take(k));
        assert(tasks.drop_last().take(tasks.len() - 1) =~= tasks.drop_last());
    }
}

/// The total bytes a batch is expected to move (tasks of unknown size add
/// nothing).
pub fn total_expected_bytes(tasks: &[DownloadTask]) -> (r: u64)
    requires
        expected_bytes(tasks@) <= u64::MAX,
    ensures
        r == expected_bytes(tasks@),
{
    let mut total: u64 = 0;
    let mut i: usize = 0;
    assert(tasks@.take(0) =~= Seq::<DownloadTask>::empty());
    while i < tasks.len()
        invariant
            0 <= i <= tasks.len(),
            expected_bytes(tasks@) <= u64::MAX,
            total == expected_bytes(tasks@.take(i as int)),
        decreases tasks.len() - i,
    {
        proof {
            assert(tasks@.take(i + 1).drop_last() =~= tasks@.take(i as int));
            lemma_expected_bytes_prefix(tasks@, i + 1);
        }
        match tasks[i].expected_size {
            Some(n) => {
                total = total + n;
            },
            None => {},
        }
        i = i + 1;
    }
    assert(tasks@.take(tasks.len() as int) =~= tasks@);
    total
}

/// How a batch ends once every task settled: success when nothing failed;
/// otherwise `Cancelled` when the batch was cancelled, else a partial
/// failure counting the failures and quoting the first.
pub fn batch_result(failures: &[String], cancelled: bool, total_tasks: usize) -> (r: Result<
    (),
    DownloadError,
>)
    ensures
        failures@.len() == 0 ==> r is Ok,
        failures@.len() > 0 && cancelled ==> r == Err::<(), DownloadError>(DownloadError::Cancelled),
        failures@.len() > 0 && !cancelled ==> (r matches Err(
            DownloadError::PartialFailure { failed_count: f, total_count: t, first_message: m },
        ) && f == failures@.len() && t == total_tasks && m@ == failures@[0]@),
{
    if failures.len() == 0 {
        Ok(())
    } else if cancelled {
        Err(DownloadError::Cancelled)
    } else {
        Err(
            DownloadError::PartialFailure {
                failed_count: failures.len(),
                total_count: total_tasks,
                first_message: failures[0].clone(),
            },
        )
    }
}

/// The number of transfers run at once: as asked, but at least one.
pub fn effective_concurrency(max_concurrency: usize) -> (r: usize)
    ensures
        r == if max_concurrency == 0 {
            1
        } else {
            max_concurrency
        },
{
    if max_concurrency == 0 {
        1
    } else {
        max_concurrency
    }
}

} // verus!
