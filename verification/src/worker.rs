//! The single-stream download worker: a model of the streaming loop with its
//! invariants, and the decision logic — control signals, retry ladders,
//! back-off and progress throttling — that the I/O driver executes.

use vstd::prelude::*;

use crate::task::{progress_percent, spec_percent, task_wf, DownloadStatus, DownloadTask};

verus! {

// ---------------------------------------------------------------------------
// The stream model: what the worker does to the file on disk.
// ---------------------------------------------------------------------------
/// A model of one single-stream download: the remote resource, the bytes on
/// disk, the task status the worker last wrote, and the last downloaded size
/// it reported.
pub struct StreamModel {
    /// The bytes the server holds for the URL.
    pub resource: Seq<u8>,
    /// The bytes at `file_path`; `None` when no file exists.
    pub file: Option<Seq<u8>>,
    /// The status the worker has driven the task to.
    pub status: DownloadStatus,
    /// The `downloaded_size` last written back to the registry.
    pub reported: int,
}

/// The worker's invariant over the disk.
///
/// While the worker runs, the partial file is a prefix of the resource; a
/// completed download holds the whole resource; a cancelled one has no file;
/// a paused one has exactly the reported bytes on disk.
pub open spec fn stream_wf(m: StreamModel) -> bool {
    &&& match m.file {
        Some(f) => f == m.resource.take(f.len() as int),
        None => m.status is Cancelled,
    }
    &&& (m.status is Completed ==> match m.file {
        Some(f) => f.len() == m.resource.len(),
        None => false,
    })
    &&& (m.status is Cancelled ==> m.file is None)
    &&& (m.status is Paused ==> match m.file {
        Some(f) => f.len() == m.reported,
        None => false,
    })
}

/// One observable step of the streaming loop.
pub enum StreamEvent {
    /// The next `n` bytes of the resource arrived and were written.
    Chunk(int),
    /// A pause signal was observed at the control poll.
    Pause,
    /// A cancel signal was observed at the control poll.
    Cancel,
    /// The body ended with every byte written.
    Complete,
    /// The retry budget was exhausted.
    Fail,
}

/// When a step may fire: the worker streams only while the task downloads,
/// a chunk carries the bytes that follow the current prefix, and the stream
/// ends only once the whole resource is on disk.
pub open spec fn step_enabled(m: StreamModel, ev: StreamEvent) -> bool {
    &&& m.status is Downloading
    &&& match ev {
        StreamEvent::Chunk(n) => 0 <= n && match m.file {
            Some(f) => f.len() + n <= m.resource.len(),
            None => false,
        },
        StreamEvent::Complete => match m.file {
            Some(f) => f.len() == m.resource.len(),
            None => false,
        },
        _ => true,
    }
}

/// What a step does: chunks extend the prefix; a pause records the size and
/// stops; a cancel unlinks the file; completion and failure stop the worker.
pub open spec fn stream_step(m: StreamModel, ev: StreamEvent) -> StreamModel {
    match ev {
        StreamEvent::Chunk(n) => StreamModel {
            file: match m.file {
                Some(f) => Some(m.resource.take(f.len() + n)),
                None => None,
            },
            ..m
        },
        StreamEvent::Pause => StreamModel {
            status: DownloadStatus::Paused,
            reported: match m.file {
                Some(f) => f.len() as int,
                None => m.reported,
            },
            ..m
        },
        StreamEvent::Cancel => StreamModel { status: DownloadStatus::Cancelled, file: None, ..m },
        StreamEvent::Complete => StreamModel {
            status: DownloadStatus::Completed,
            reported: m.resource.len() as int,
            ..m
        },
        StreamEvent::Fail => StreamModel { status: DownloadStatus::Failed, ..m },
    }
}

/// A fresh download: the file created empty, the task downloading.
pub open spec fn fresh_stream(resource: Seq<u8>) -> StreamModel {
    StreamModel {
        resource,
        file: Some(Seq::empty()),
        status: DownloadStatus::Downloading,
        reported: 0,
    }
}

/// A resumed download: the worker reads the `k` bytes already on disk and
/// asks the server for the range that follows them.
pub open spec fn resumed_stream(resource: Seq<u8>, k: int) -> StreamModel {
    StreamModel {
        resource,
        file: Some(resource.take(k)),
        status: DownloadStatus::Downloading,
        reported: k,
    }
}

/// A fresh download starts well formed.
pub proof fn lemma_fresh_wf(resource: Seq<u8>)
    ensures
        stream_wf(fresh_stream(resource)),
{
    assert(Seq::<u8>::empty() =~= resource.take(0));
}

/// A resumed download starts well formed: resuming against the on-disk
/// prefix is correct even if the paused metadata was lost.
pub proof fn lemma_resumed_wf(resource: Seq<u8>, k: int)
    requires
        0 <= k <= resource.len(),
    ensures
        stream_wf(resumed_stream(resource, k)),
{
    assert(resource.take(k).len() == k);
    assert(resource.take(k) =~= resource.take(k).take(k));
}

/// Every enabled step preserves the invariant: the partial file is always a
/// prefix of the resource, a cancelled task has no file, a paused task has
/// exactly the reported bytes on disk, and a completed task has them all.
pub proof fn lemma_step_wf(m: StreamModel, ev: StreamEvent)
    requires
        stream_wf(m),
        step_enabled(m, ev),
    ensures
        stream_wf(stream_step(m, ev)),
{
    match ev {
        StreamEvent::Chunk(n) => {
            let f = m.file->0;
            let f2 = m.resource.take(f.len() + n);
            assert(f2.len() == f.len() + n);
            assert(f2 =~= m.resource.take(f2.len() as int));
        },
        _ => {},
    }
}

/// Progress only grows: a chunk extends the on-disk prefix, so the progress
/// reports of one task carry monotonically increasing byte counts, and the
/// final report of a completed download carries them all.
pub proof fn lemma_progress_monotone(m: StreamModel, n: int)
    requires
        stream_wf(m),
        step_enabled(m, StreamEvent::Chunk(n)),
    ensures
        ({
            let m2 = stream_step(m, StreamEvent::Chunk(n));
            match (m.file, m2.file) {
                (Some(f), Some(f2)) => f2.len() == f.len() + n,
                _ => false,
            }
        }),
{
    let f = m.file->0;
    assert(m.resource.take(f.len() + n).len() == f.len() + n);
}

/// A completed download holds exactly the bytes of the resource.
pub proof fn lemma_completed_is_resource(m: StreamModel)
    requires
        stream_wf(m),
        m.status is Completed,
    ensures
        m.file == Some(m.resource),
{
    let f = m.file->0;
    assert(f == m.resource.take(f.len() as int));
    assert(m.resource.take(m.resource.len() as int) =~= m.resource);
}

/// Pause-then-resume round trip: a download paused half way and resumed from
/// the on-disk prefix completes with a file byte-identical to that of an
/// uninterrupted download of the same resource.
pub proof fn lemma_pause_resume_byte_identical(m1: StreamModel, m2: StreamModel)
    requires
        stream_wf(m1),
        stream_wf(m2),
        m1.status is Completed,
        m2.status is Completed,
        m1.resource == m2.resource,
    ensures
        m1.file == m2.file,
{
    lemma_completed_is_resource(m1);
    lemma_completed_is_resource(m2);
}

// ---------------------------------------------------------------------------
// Control signals.
// ---------------------------------------------------------------------------
/// A control signal addressed to the task named inside it.
#[derive(Clone, Debug)]
pub enum TaskControl {
    Pause(String),
    Cancel(String),
    Resume(String),
}

/// What the worker does with a polled signal.
#[derive(Clone, Copy, Debug, PartialEq, Eq, Structural)]
pub enum ControlAction {
    /// Persist the progress, mark paused, stop.
    StopPaused,
    /// Mark cancelled, delete the partial file, stop.
    StopCancelled,
    /// Mark downloading again and go on reading.
    ContinueResumed,
    /// A signal for another task: ignore it.
    Ignore,
}

/// Interprets a control signal for the worker of `my_id`: signals carrying
/// another task's identifier are ignored.
pub fn control_action(ctrl: &TaskControl, my_id: &str) -> (r: ControlAction)
    ensures
        r == match ctrl {
            TaskControl::Pause(id) => if id@ == my_id@ {
                ControlAction::StopPaused
            } else {
                ControlAction::Ignore
            },
            TaskControl::Cancel(id) => if id@ == my_id@ {
                ControlAction::StopCancelled
            } else {
                ControlAction::Ignore
            },
            TaskControl::Resume(id) => if id@ == my_id@ {
                ControlAction::ContinueResumed
            } else {
                ControlAction::Ignore
            },
        },
{
    match ctrl {
        TaskControl::Pause(id) => {
            if crate::strutil::str_eq(id.as_str(), my_id) {
                ControlAction::StopPaused
            } else {
                ControlAction::Ignore
            }
        },
        TaskControl::Cancel(id) => {
            if crate::strutil::str_eq(id.as_str(), my_id) {
                ControlAction::StopCancelled
            } else {
                ControlAction::Ignore
            }
        },
        TaskControl::Resume(id) => {
            if crate::strutil::str_eq(id.as_str(), my_id) {
                ControlAction::ContinueResumed
            } else {
                ControlAction::Ignore
            }
        },
    }
}

// ---------------------------------------------------------------------------
// Retry ladders and back-off.
// ---------------------------------------------------------------------------
/// The classes of transport errors the ladders distinguish.
#[derive(Clone, Copy, Debug, PartialEq, Eq, Structural)]
pub enum NetErrorKind {
    Timeout,
    Connect,
    Other,
}

/// Whether an HTTP status is terminal: no retry, the task fails at once.
pub fn is_terminal_http(code: u16) -> (r: bool)
    ensures
        r == (code == 404 || code == 403 || code == 401),
{
    code == 404 || code == 403 || code == 401
}

/// Whether a response status lets the download proceed (2xx, which includes
/// 206 Partial Content for range requests).
pub fn is_acceptable_status(code: u16) -> (r: bool)
    ensures
        r == (200 <= code < 300),
{
    200 <= code && code < 300
}

/// Seconds to wait after a HEAD attempt got an error status, growing as
/// attempts run out.
pub fn head_status_wait(retries_left: u32) -> (r: u64)
    requires
        1 <= retries_left <= 4,
    ensures
        r == 4 - retries_left,
{
    (4 - retries_left) as u64
}

/// Seconds to wait after a HEAD attempt failed on the network: timeouts wait
/// longest, connection errors less, anything else least.
pub fn head_error_wait(kind: NetErrorKind) -> (r: u64)
    ensures
        r == match kind {
            NetErrorKind::Timeout => 5int,
            NetErrorKind::Connect => 3int,
            NetErrorKind::Other => 2int,
        },
{
    match kind {
        NetErrorKind::Timeout => 5,
        NetErrorKind::Connect => 3,
        NetErrorKind::Other => 2,
    }
}

/// Seconds to wait after a GET attempt got a retryable error status.
pub fn get_status_wait(retries_left: u32) -> (r: u64)
    requires
        1 <= retries_left <= 5,
    ensures
        r == 6 - retries_left,
{
    (6 - retries_left) as u64
}

/// Seconds to wait after a GET attempt failed on the network.
pub fn get_error_wait(kind: NetErrorKind) -> (r: u64)
    ensures
        r == match kind {
            NetErrorKind::Timeout => 8int,
            NetErrorKind::Connect => 5int,
            NetErrorKind::Other => 3int,
        },
{
    match kind {
        NetErrorKind::Timeout => 8,
        NetErrorKind::Connect => 5,
        NetErrorKind::Other => 3,
    }
}

/// Seconds before the next reconnect attempt: exponential back-off from one
/// second, capped at thirty.
pub fn reconnect_wait(attempts_left: u32) -> (r: u64)
    requires
        1 <= attempts_left <= 5,
    ensures
        attempts_left == 5 ==> r == 1,
        attempts_left == 4 ==> r == 2,
        attempts_left == 3 ==> r == 4,
        attempts_left == 2 ==> r == 8,
        attempts_left == 1 ==> r == 16,
        r <= 30,
{
    match attempts_left {
        5 => 1,
        4 => 2,
        3 => 4,
        2 => 8,
        _ => 16,
    }
}

// ---------------------------------------------------------------------------
// Progress throttling and accounting.
// ---------------------------------------------------------------------------
/// How often progress reaches the bus: at most every 50 ms or every 128 KiB,
/// whichever comes first.
pub fn should_emit_progress(elapsed_ms: u64, bytes_since_last: u64) -> (r: bool)
    ensures
        r == (elapsed_ms >= 50 || bytes_since_last >= 131072),
{
    elapsed_ms >= 50 || bytes_since_last >= 131072
}

/// What the worker does after a failed body read.
#[derive(Clone, Copy, Debug, PartialEq, Eq, Structural)]
pub enum ChunkErrorAction {
    /// Ten errors in all: give the download up.
    Fail,
    /// Three in a row: reconnect with a fresh range request.
    Reconnect,
    /// Wait this many seconds and read again.
    Wait(u64),
}

/// The byte and error accounting of one running stream.
pub struct StreamProgress {
    /// Bytes the server advertised, 0 while unknown.
    pub total_size: u64,
    /// Bytes on disk, the resumed prefix included.
    pub downloaded: u64,
    /// Body-read errors since the last good chunk.
    pub consecutive_errors: u32,
    /// Body-read errors over the whole stream.
    pub total_errors: u32,
}

impl StreamProgress {
    /// Starts accounting at the bytes already on disk.
    pub fn new(existing: u64, total_size: u64) -> (s: Self)
        requires
            total_size > 0 ==> existing <= total_size,
        ensures
            s == (StreamProgress {
                total_size,
                downloaded: existing,
                consecutive_errors: 0,
                total_errors: 0,
            }),
    {
        StreamProgress { total_size, downloaded: existing, consecutive_errors: 0, total_errors: 0 }
    }

    /// Records a learned total once the GET response reveals it.
    pub fn set_total(&mut self, total_size: u64)
        requires
            total_size > 0 ==> old(self).downloaded <= total_size,
        ensures
            *final(self) == (StreamProgress { total_size, ..*old(self) }),
    {
        self.total_size = total_size;
    }

    /// Accounts for one chunk written to disk; a good chunk clears the run of
    /// consecutive errors.
    pub fn on_chunk(&mut self, len: u64)
        requires
            old(self).downloaded + len <= 0xffff_ffff_ffff_ffffu64,
            old(self).total_size > 0 ==> old(self).downloaded + len <= old(self).total_size,
        ensures
            *final(self) == (StreamProgress {
                downloaded: (old(self).downloaded + len) as u64,
                consecutive_errors: 0,
                ..*old(self)
            }),
    {
        self.downloaded = self.downloaded + len;
        self.consecutive_errors = 0;
    }

    /// Accounts for a failed body read and says what to do next: fail after
    /// ten errors in all, reconnect after three in a row, else wait briefly
    /// (the run of errors, capped at ten seconds) and retry.
    pub fn on_read_error(&mut self) -> (a: ChunkErrorAction)
        requires
            old(self).total_errors < 0xffff_ffffu32,
            old(self).consecutive_errors < 0xffff_ffffu32,
        ensures
            final(self).total_size == old(self).total_size,
            final(self).downloaded == old(self).downloaded,
            final(self).total_errors == old(self).total_errors + 1,
            final(self).consecutive_errors == old(self).consecutive_errors + 1,
            a == if old(self).total_errors + 1 >= 10 {
                ChunkErrorAction::Fail
            } else if old(self).consecutive_errors + 1 >= 3 {
                ChunkErrorAction::Reconnect
            } else if old(self).consecutive_errors + 1 <= 10 {
                ChunkErrorAction::Wait((old(self).consecutive_errors + 1) as u64)
            } else {
                ChunkErrorAction::Wait(10)
            },
    {
        self.consecutive_errors = self.consecutive_errors + 1;
        self.total_errors = self.total_errors + 1;
        if self.total_errors >= 10 {
            ChunkErrorAction::Fail
        } else if self.consecutive_errors >= 3 {
            ChunkErrorAction::Reconnect
        } else if self.consecutive_errors <= 10 {
            ChunkErrorAction::Wait(self.consecutive_errors as u64)
        } else {
            ChunkErrorAction::Wait(10)
        }
    }

    /// Clears the consecutive-error run after a successful reconnect.
    pub fn on_reconnected(&mut self)
        ensures
            *final(self) == (StreamProgress { consecutive_errors: 0, ..*old(self) }),
    {
        self.consecutive_errors = 0;
    }

    /// The progress percentage for the current counters.
    pub fn percent(&self) -> (p: u8)
        requires
            self.total_size > 0 ==> self.downloaded <= self.total_size,
        ensures
            p == spec_percent(self.downloaded, self.total_size),
            p <= 100,
    {
        progress_percent(self.downloaded, self.total_size)
    }
}

/// The task snapshot a worker writes back while streaming: fresh counters,
/// the throttled percentage, the smoothed speed.
pub fn progress_snapshot(t: &DownloadTask, downloaded: u64, total_size: u64, speed: String) -> (r:
    DownloadTask)
    requires
        total_size > 0 ==> downloaded <= total_size,
    ensures
        r == (DownloadTask {
            total_size,
            downloaded_size: downloaded,
            status: DownloadStatus::Downloading,
            progress: spec_percent(downloaded, total_size) as u8,
            speed,
            ..*t
        }),
        task_wf(r),
{
    let mut r = t.clone();
    r.total_size = total_size;
    r.downloaded_size = downloaded;
    r.status = DownloadStatus::Downloading;
    r.progress = progress_percent(downloaded, total_size);
    r.speed = speed;
    r
}

/// The task snapshot a worker writes back on completion: everything written,
/// progress 100, the idle speed string.
pub fn completed_snapshot(t: &DownloadTask, downloaded: u64, total_size: u64) -> (r: DownloadTask)
    requires
        total_size > 0 ==> downloaded <= total_size,
    ensures
        r == (DownloadTask {
            total_size,
            downloaded_size: downloaded,
            status: DownloadStatus::Completed,
            progress: 100,
            speed: r.speed,
            ..*t
        }),
        r.speed@ == "0.0 B/s"@,
        task_wf(r),
{
    let mut r = t.clone();
    r.total_size = total_size;
    r.downloaded_size = downloaded;
    r.status = DownloadStatus::Completed;
    r.progress = 100;
    r.speed = crate::task::zero_speed();
    r
}

} // verus!
