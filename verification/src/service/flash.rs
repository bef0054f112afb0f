//! The flash job queue: the table of jobs and the decisions taken while a
//! job runs, and the reading of `dd`'s progress lines.
use vstd::prelude::*;
use std::collections::HashMap;
use crate::domain::flash::{
    copy_opt_string, FlashEngine, FlashJob, FlashJobProgress, FlashRequest, FlashStatus,
};
use crate::infra::clock::now_micros;
use crate::infra::ids::{new_v4_id, uuid_string, uuid_text};
use vstd::string::StringExecFns;
use crate::infra::pattern::{regex_captures, regex_captures_view};
use crate::text::{all_digits, chars_of, digits_value, parse_unsigned, parse_unsigned_chars, str_equal};

verus! {

broadcast use vstd::std_specs::hash::group_hash_axioms;

/// A command for the flash workers.
pub enum FlashCommand {
    /// Write the image at `iso_path` to the device at `device_path`.
    Execute { job_id: u128, iso_path: String, device_path: String },
    /// Stop the job.
    Cancel(u128),
}

/// Why a request about a job was refused.
#[derive(Clone, Copy, Debug, PartialEq, Eq, Structural)]
pub enum QueueError {
    /// No job has this identifier.
    NotFound(u128),
    /// The job has already completed or failed.
    AlreadyFinished(u128),
}

/// The message that a refused request about a job is answered with.
pub open spec fn queue_error_text(e: QueueError) -> Seq<char> {
    match e {
        QueueError::NotFound(id) => "Job "@ + uuid_text(id) + " not found"@,
        QueueError::AlreadyFinished(id) => "Job "@ + uuid_text(id) + " already finished"@,
    }
}

impl QueueError {
    /// The message of this refusal: `queue_error_text`.
    pub fn message(&self) -> (r: String)
        ensures
            r@ == queue_error_text(*self),
    {
        match *self {
            QueueError::NotFound(id) => {
                let mut s = String::from_str("Job ");
                s.append(uuid_string(id).as_str());
                s.append(" not found");
                s
            },
            QueueError::AlreadyFinished(id) => {
                let mut s = String::from_str("Job ");
                s.append(uuid_string(id).as_str());
                s.append(" already finished");
                s
            },
        }
    }
}

/// What to do once the writing of a job has ended.
pub enum FlashOutcome {
    /// The job was cancelled meanwhile: it is left as it is, and the run
    /// reports the cancellation.
    Cancelled,
    /// The job is now verifying: check the written data, then call
    /// `after_verify`.
    Verify,
    /// The job has ended with this result: completed on `Ok`, failed with
    /// the message on `Err`.
    Finished(Result<(), String>),
}

/// The job that `enqueue` creates.
pub open spec fn queued_job(id: u128, request: FlashRequest, total_bytes: u64, now: i64) -> FlashJob {
    FlashJob {
        id,
        iso_id: request.iso_id,
        usb_id: request.usb_id,
        batch_id: None,
        status: FlashStatus::Queued,
        progress_done: 0,
        progress_of: 0,
        speed_bytes_per_sec: 0,
        bytes_written: 0,
        total_bytes,
        eta_seconds: None,
        verify: match request.verify {
            Some(v) => v,
            None => true,
        },
        error_message: None,
        started_at: None,
        completed_at: None,
        created_at: now,
        updated_at: now,
    }
}

/// Whether a job has ended, well or not: such a job cannot be cancelled.
pub open spec fn is_finished(status: FlashStatus) -> bool {
    status == FlashStatus::Completed || status == FlashStatus::Failed
}

/// Cancelling job `id` at instant `now`: the jobs afterwards, and the
/// answer.
pub open spec fn cancel_outcome(m: Map<u128, FlashJob>, id: u128, now: i64) -> (
    Map<u128, FlashJob>,
    Result<(), QueueError>,
) {
    if !m.contains_key(id) {
        (m, Err(QueueError::NotFound(id)))
    } else if is_finished(m[id].status) {
        (m, Err(QueueError::AlreadyFinished(id)))
    } else {
        (m.insert(id, FlashJob { status: FlashStatus::Cancelled, updated_at: now, ..m[id] }), Ok(()))
    }
}

/// A worker claiming job `id` at instant `now`: only a queued job can be
/// claimed, and it starts flashing.
pub open spec fn claim_outcome(m: Map<u128, FlashJob>, id: u128, now: i64) -> (
    Map<u128, FlashJob>,
    bool,
) {
    if m.contains_key(id) && m[id].status == FlashStatus::Queued {
        (
            m.insert(
                id,
                FlashJob {
                    status: FlashStatus::Flashing,
                    started_at: Some(now),
                    updated_at: now,
                    ..m[id]
                },
            ),
            true,
        )
    } else {
        (m, false)
    }
}

/// The jobs once job `id` has completed at `now`: fully written, with its
/// completion time. Nothing changes when there is no such job.
pub open spec fn completed(m: Map<u128, FlashJob>, id: u128, now: i64) -> Map<u128, FlashJob> {
    if m.contains_key(id) {
        m.insert(
            id,
            FlashJob {
                status: FlashStatus::Completed,
                progress_done: 1,
                progress_of: 1,
                completed_at: Some(now),
                updated_at: now,
                ..m[id]
            },
        )
    } else {
        m
    }
}

/// The jobs once job `id` has failed at `now` with message `error`.
/// Nothing changes when there is no such job.
pub open spec fn failed(m: Map<u128, FlashJob>, id: u128, error: String, now: i64) -> Map<
    u128,
    FlashJob,
> {
    if m.contains_key(id) {
        m.insert(
            id,
            FlashJob {
                status: FlashStatus::Failed,
                error_message: Some(error),
                completed_at: Some(now),
                updated_at: now,
                ..m[id]
            },
        )
    } else {
        m
    }
}

/// What follows the end of the writing of job `id`, with `result`, at
/// `now`: a cancelled job is left alone; a written job that asks for it is
/// verified; otherwise the job completes or fails.
pub open spec fn after_flash_outcome(
    m: Map<u128, FlashJob>,
    id: u128,
    result: Result<(), String>,
    now: i64,
) -> (Map<u128, FlashJob>, FlashOutcome) {
    if m.contains_key(id) && m[id].status == FlashStatus::Cancelled {
        (m, FlashOutcome::Cancelled)
    } else {
        match result {
            Ok(()) => if m.contains_key(id) && m[id].verify {
                (
                    m.insert(
                        id,
                        FlashJob { status: FlashStatus::Verifying, updated_at: now, ..m[id] },
                    ),
                    FlashOutcome::Verify,
                )
            } else {
                (completed(m, id, now), FlashOutcome::Finished(Ok(())))
            },
            Err(e) => (failed(m, id, e, now), FlashOutcome::Finished(Err(e))),
        }
    }
}

/// What follows the verification of job `id`, with `result`, at `now`: the
/// job completes, or fails with the verification's message.
pub open spec fn after_verify_outcome(
    m: Map<u128, FlashJob>,
    id: u128,
    result: Result<(), String>,
    now: i64,
) -> (Map<u128, FlashJob>, Result<(), String>) {
    match result {
        Ok(()) => (completed(m, id, now), Ok(())),
        Err(e) => (failed(m, id, e, now), Err(e)),
    }
}

/// A progress reading of `dd`, for a job of `total_bytes`.
pub struct ParsedProgress {
    pub bytes_written: u64,
    pub speed_bytes_per_sec: u64,
    pub progress_done: u64,
    pub progress_of: u64,
    pub eta_seconds: Option<u64>,
}

/// The seconds left when `written` of `total` bytes are done at `speed`
/// bytes per second: known only while data is moving and bytes remain.
pub open spec fn eta_for(written: u64, total: u64, speed: u64) -> Option<u64> {
    if speed > 0 && written < total {
        Some(((total - written) / (speed as int)) as u64)
    } else {
        None
    }
}

/// The jobs once job `id` has taken progress reading `p` at `now`. Nothing
/// changes when there is no such job.
pub open spec fn progress_outcome(
    m: Map<u128, FlashJob>,
    id: u128,
    p: ParsedProgress,
    now: i64,
) -> Map<u128, FlashJob> {
    if m.contains_key(id) {
        m.insert(
            id,
            FlashJob {
                progress_done: p.progress_done,
                progress_of: p.progress_of,
                speed_bytes_per_sec: p.speed_bytes_per_sec,
                bytes_written: p.bytes_written,
                eta_seconds: p.eta_seconds,
                updated_at: now,
                ..m[id]
            },
        )
    } else {
        m
    }
}

impl ParsedProgress {
    /// The reading for `bytes_written` of `total_bytes` at
    /// `speed_bytes_per_sec`: the progress is `bytes_written / total_bytes`
    /// (0 when the size is unknown), with the estimate of `eta_for`.
    pub fn from_parts(bytes_written: u64, speed_bytes_per_sec: u64, total_bytes: u64) -> (r:
        ParsedProgress)
        ensures
            r.bytes_written == bytes_written,
            r.speed_bytes_per_sec == speed_bytes_per_sec,
            r.progress_done == bytes_written,
            r.progress_of == total_bytes,
            r.eta_seconds == eta_for(bytes_written, total_bytes, speed_bytes_per_sec),
    {
        let eta = if speed_bytes_per_sec > 0 && bytes_written < total_bytes {
            let divisor = if speed_bytes_per_sec > 1 {
                speed_bytes_per_sec
            } else {
                1
            };
            Some((total_bytes - bytes_written) / divisor)
        } else {
            None
        };
        ParsedProgress {
            bytes_written,
            speed_bytes_per_sec,
            progress_done: bytes_written,
            progress_of: total_bytes,
            eta_seconds: eta,
        }
    }

    /// The report broadcast for this reading of job `job_id`, which is
    /// flashing.
    pub fn report(&self, job_id: u128, total_bytes: u64) -> (r: FlashJobProgress)
        ensures
            r == (FlashJobProgress {
                job_id,
                status: FlashStatus::Flashing,
                progress_done: self.progress_done,
                progress_of: self.progress_of,
                speed_bytes_per_sec: self.speed_bytes_per_sec,
                bytes_written: self.bytes_written,
                total_bytes,
                eta_seconds: self.eta_seconds,
            }),
    {
        FlashJobProgress {
            job_id,
            status: FlashStatus::Flashing,
            progress_done: self.progress_done,
            progress_of: self.progress_of,
            speed_bytes_per_sec: self.speed_bytes_per_sec,
            bytes_written: self.bytes_written,
            total_bytes,
            eta_seconds: self.eta_seconds,
        }
    }
}

/// The pattern of the progress lines that `dd status=progress` writes:
/// bytes copied, seconds elapsed, and speed with its unit.
pub const DD_PROGRESS_PATTERN: &'static str =
    r"(\d+)\s+bytes.*?copied.*?([\d.]+)\s+s.*?([\d.]+)\s+(MB/s|GB/s)";

/// The fields of a `dd` progress line.
pub struct DdLine {
    /// The bytes copied so far.
    pub bytes_written: u64,
    /// The seconds elapsed, as written (digits and dots).
    pub seconds: String,
    /// The speed, as written (digits and dots).
    pub speed: String,
    /// Whether the speed is in GB/s (else it is in MB/s).
    pub speed_in_gb: bool,
}

/// The fields that the capture groups of a `dd` progress line give: the
/// byte count must be a decimal number that fits in 64 bits, and all four
/// groups must have matched.
pub open spec fn dd_fields(caps: Option<Seq<Option<Seq<char>>>>) -> Option<
    (u64, Seq<char>, Seq<char>, bool),
> {
    match caps {
        Some(g) => if g.len() >= 5 && g[1] is Some && g[2] is Some && g[3] is Some
            && g[4] is Some {
            match parse_unsigned(g[1]->Some_0, 0xFFFF_FFFF_FFFF_FFFF) {
                Some(b) => Some((b as u64, g[2]->Some_0, g[3]->Some_0, g[4]->Some_0 == "GB/s"@)),
                None => None,
            }
        } else {
            None
        },
        None => None,
    }
}

/// The view of a `DdLine`.
pub open spec fn dd_line_view(d: DdLine) -> (u64, Seq<char>, Seq<char>, bool) {
    (d.bytes_written, d.seconds@, d.speed@, d.speed_in_gb)
}

/// Reads the fields of a `dd` progress line from the capture groups of
/// `DD_PROGRESS_PATTERN`.
pub fn dd_line_from_captures(caps: Option<Vec<Option<String>>>) -> (r: Option<DdLine>)
    ensures
        match r {
            Some(d) => dd_fields(caps.deep_view()) == Some(dd_line_view(d)),
            None => dd_fields(caps.deep_view()) is None,
        },
{
    let groups = match caps {
        Some(g) => g,
        None => {
            return None;
        },
    };
    let ghost gv = groups.deep_view();
    if groups.len() < 5 {
        return None;
    }
    assert(gv.len() == groups@.len());
    assert(forall|i: int| 0 <= i < groups@.len() ==> #[trigger] gv[i] == groups@[i].deep_view());
    let bytes = copy_opt_string(&groups[1]);
    let seconds = copy_opt_string(&groups[2]);
    let speed = copy_opt_string(&groups[3]);
    let unit = copy_opt_string(&groups[4]);
    match (bytes, seconds, speed, unit) {
        (Some(b), Some(secs), Some(spd), Some(u)) => {
            assert(gv[1] == Some(b@));
            assert(gv[2] == Some(secs@));
            assert(gv[3] == Some(spd@));
            assert(gv[4] == Some(u@));
            let cs = chars_of(b.as_str());
            match parse_unsigned_chars(cs.as_slice(), 0xFFFF_FFFF_FFFF_FFFF) {
                Some(n) => {
                    let gb = str_equal(u.as_str(), "GB/s");
                    Some(DdLine { bytes_written: n, seconds: secs, speed: spd, speed_in_gb: gb })
                },
                None => None,
            }
        },
        _ => None,
    }
}

/// Reads a `dd` progress line: the capture groups of
/// `DD_PROGRESS_PATTERN` in `line`, then `dd_line_from_captures`.
pub fn parse_dd_line(line: &str) -> (r: Option<DdLine>)
    ensures
        match r {
            Some(d) => dd_fields(regex_captures_view(DD_PROGRESS_PATTERN@, line@)) == Some(
                dd_line_view(d),
            ),
            None => dd_fields(regex_captures_view(DD_PROGRESS_PATTERN@, line@)) is None,
        },
{
    let caps = regex_captures(DD_PROGRESS_PATTERN, line);
    dd_line_from_captures(caps)
}

/// The tool a job is written with: `dd` where it is installed, else
/// `bmaptool`; with neither, the run fails with a message.
pub fn select_engine(dd_found: bool, bmaptool_found: bool) -> (r: Result<FlashEngine, String>)
    ensures
        dd_found ==> r == Ok::<FlashEngine, String>(FlashEngine::Dd),
        !dd_found && bmaptool_found ==> r == Ok::<FlashEngine, String>(FlashEngine::Bmaptool),
        !dd_found && !bmaptool_found ==> (r matches Err(m) && m@ == "No suitable flash engine found"@),
{
    if dd_found {
        Ok(FlashEngine::Dd)
    } else if bmaptool_found {
        Ok(FlashEngine::Bmaptool)
    } else {
        Err(String::from_str("No suitable flash engine found"))
    }
}

/// What the run of a job reports when the job was cancelled while it was
/// being written.
pub fn cancelled_run_error() -> (r: String)
    ensures
        r@ == "Job was cancelled"@,
{
    String::from_str("Job was cancelled")
}

/// The table of flash jobs.
pub struct FlashJobQueue {
    jobs: HashMap<u128, FlashJob>,
}

impl View for FlashJobQueue {
    type V = Map<u128, FlashJob>;

    closed spec fn view(&self) -> Map<u128, FlashJob> {
        self.jobs@
    }
}

impl FlashJobQueue {
    /// An empty table. The limit on concurrent jobs is kept by the workers,
    /// not here.
    pub fn new(_max_concurrent: u32) -> (r: FlashJobQueue)
        ensures
            r@ == Map::<u128, FlashJob>::empty(),
    {
        FlashJobQueue { jobs: HashMap::new() }
    }

    /// Queues a new job with a fresh random identifier, created now, and
    /// gives the command that asks a worker to run it.
    pub fn enqueue(
        &mut self,
        request: FlashRequest,
        iso_path: &str,
        device_path: &str,
        total_bytes: u64,
    ) -> (r: (FlashJob, FlashCommand))
        ensures
            r.0 == queued_job(r.0.id, request, total_bytes, r.0.created_at),
            final(self)@ == old(self)@.insert(r.0.id, r.0),
            r.1 matches FlashCommand::Execute { job_id, iso_path: p, device_path: d } && job_id
                == r.0.id && p@ == iso_path@ && d@ == device_path@,
    {
        let id = new_v4_id();
        let now = now_micros();
        self.enqueue_at(id, now, request, iso_path, device_path, total_bytes)
    }

    /// Queues a new job `id` created at `now`, and gives the command that
    /// asks a worker to run it.
    pub fn enqueue_at(
        &mut self,
        id: u128,
        now: i64,
        request: FlashRequest,
        iso_path: &str,
        device_path: &str,
        total_bytes: u64,
    ) -> (r: (FlashJob, FlashCommand))
        ensures
            r.0 == queued_job(id, request, total_bytes, now),
            final(self)@ == old(self)@.insert(id, r.0),
            r.1 matches FlashCommand::Execute { job_id, iso_path: p, device_path: d } && job_id
                == id && p@ == iso_path@ && d@ == device_path@,
    {
        let verify = match request.verify {
            Some(v) => v,
            None => true,
        };
        let job = FlashJob {
            id,
            iso_id: request.iso_id,
            usb_id: request.usb_id,
            batch_id: None,
            status: FlashStatus::Queued,
            progress_done: 0,
            progress_of: 0,
            speed_bytes_per_sec: 0,
            bytes_written: 0,
            total_bytes,
            eta_seconds: None,
            verify,
            error_message: None,
            started_at: None,
            completed_at: None,
            created_at: now,
            updated_at: now,
        };
        self.jobs.insert(id, job.copied());
        let command = FlashCommand::Execute {
            job_id: id,
            iso_path: iso_path.to_string(),
            device_path: device_path.to_string(),
        };
        (job, command)
    }

    /// Cancels a job that has not ended, as `cancel_outcome` says, at the
    /// current instant.
    pub fn cancel(&mut self, job_id: u128) -> (r: Result<(), QueueError>)
        ensures
            exists|now: i64| (final(self)@, r) == cancel_outcome(old(self)@, job_id, now),
    {
        let now = now_micros();
        self.cancel_at(job_id, now)
    }

    /// Cancels a job at instant `now`: `cancel_outcome`.
    pub fn cancel_at(&mut self, job_id: u128, now: i64) -> (r: Result<(), QueueError>)
        ensures
            (final(self)@, r) == cancel_outcome(old(self)@, job_id, now),
    {
        let taken = self.jobs.remove(&job_id);
        match taken {
            None => Err(QueueError::NotFound(job_id)),
            Some(job) => {
                if job.status == FlashStatus::Completed || job.status == FlashStatus::Failed {
                    self.jobs.insert(job_id, job);
                    assert(self.jobs@ =~= old(self).jobs@);
                    Err(QueueError::AlreadyFinished(job_id))
                } else {
                    self.jobs.insert(
                        job_id,
                        FlashJob { status: FlashStatus::Cancelled, updated_at: now, ..job },
                    );
                    assert(self.jobs@ =~= old(self).jobs@.insert(
                        job_id,
                        FlashJob { status: FlashStatus::Cancelled, updated_at: now, ..job },
                    ));
                    Ok(())
                }
            },
        }
    }

    /// A worker claims a job at the current instant: `claim_outcome`.
    pub fn claim_job(&mut self, job_id: u128) -> (r: bool)
        ensures
            exists|now: i64| (final(self)@, r) == claim_outcome(old(self)@, job_id, now),
    {
        let now = now_micros();
        self.claim_job_at(job_id, now)
    }

    /// A worker claims a job at instant `now`: `claim_outcome`.
    pub fn claim_job_at(&mut self, job_id: u128, now: i64) -> (r: bool)
        ensures
            (final(self)@, r) == claim_outcome(old(self)@, job_id, now),
    {
        let taken = self.jobs.remove(&job_id);
        match taken {
            None => false,
            Some(job) => {
                if job.status == FlashStatus::Queued {
                    let updated = FlashJob {
                        status: FlashStatus::Flashing,
                        started_at: Some(now),
                        updated_at: now,
                        ..job
                    };
                    self.jobs.insert(job_id, updated);
                    assert(self.jobs@ =~= old(self).jobs@.insert(job_id, updated));
                    true
                } else {
                    self.jobs.insert(job_id, job);
                    assert(self.jobs@ =~= old(self).jobs@);
                    false
                }
            },
        }
    }

    /// A copy of the job, or `None` when there is no such job.
    pub fn status(&self, job_id: u128) -> (r: Option<FlashJob>)
        ensures
            r == (if self@.contains_key(job_id) {
                Some(self@[job_id])
            } else {
                None
            }),
    {
        match self.jobs.get(&job_id) {
            Some(job) => Some(job.copied()),
            None => None,
        }
    }

    /// The size of the job's image, or 0 when there is no such job.
    pub fn total_bytes(&self, job_id: u128) -> (r: u64)
        ensures
            r == (if self@.contains_key(job_id) {
                self@[job_id].total_bytes
            } else {
                0
            }),
    {
        match self.jobs.get(&job_id) {
            Some(job) => job.total_bytes,
            None => 0,
        }
    }

    /// Records a progress reading of a running job at the current instant:
    /// `progress_outcome`.
    pub fn record_progress(&mut self, job_id: u128, progress: &ParsedProgress)
        ensures
            exists|now: i64| final(self)@ == progress_outcome(old(self)@, job_id, *progress, now),
    {
        let now = now_micros();
        self.record_progress_at(job_id, progress, now)
    }

    /// Records a progress reading of a running job at `now`:
    /// `progress_outcome`.
    pub fn record_progress_at(&mut self, job_id: u128, progress: &ParsedProgress, now: i64)
        ensures
            final(self)@ == progress_outcome(old(self)@, job_id, *progress, now),
    {
        let taken = self.jobs.remove(&job_id);
        match taken {
            None => {},
            Some(job) => {
                let updated = FlashJob {
                    progress_done: progress.progress_done,
                    progress_of: progress.progress_of,
                    speed_bytes_per_sec: progress.speed_bytes_per_sec,
                    bytes_written: progress.bytes_written,
                    eta_seconds: progress.eta_seconds,
                    updated_at: now,
                    ..job
                };
                self.jobs.insert(job_id, updated);
                assert(self.jobs@ =~= old(self).jobs@.insert(job_id, updated));
            },
        }
    }

    /// Marks a job completed at `now`.
    fn complete(&mut self, job_id: u128, now: i64)
        ensures
            final(self)@ == completed(old(self)@, job_id, now),
    {
        let taken = self.jobs.remove(&job_id);
        match taken {
            None => {},
            Some(job) => {
                let updated = FlashJob {
                    status: FlashStatus::Completed,
                    progress_done: 1,
                    progress_of: 1,
                    completed_at: Some(now),
                    updated_at: now,
                    ..job
                };
                self.jobs.insert(job_id, updated);
                assert(self.jobs@ =~= old(self).jobs@.insert(job_id, updated));
            },
        }
    }

    /// Marks a job failed at `now` with message `error`.
    fn fail(&mut self, job_id: u128, error: String, now: i64)
        ensures
            final(self)@ == failed(old(self)@, job_id, error, now),
    {
        let taken = self.jobs.remove(&job_id);
        match taken {
            None => {},
            Some(job) => {
                let updated = FlashJob {
                    status: FlashStatus::Failed,
                    error_message: Some(error),
                    completed_at: Some(now),
                    updated_at: now,
                    ..job
                };
                self.jobs.insert(job_id, updated);
                assert(self.jobs@ =~= old(self).jobs@.insert(job_id, updated));
            },
        }
    }

    /// Decides what follows the end of the writing of a job, with the
    /// writing's result, at the current instant: `after_flash_outcome`.
    pub fn after_flash(&mut self, job_id: u128, result: Result<(), String>) -> (r: FlashOutcome)
        ensures
            exists|now: i64|
                (final(self)@, r) == after_flash_outcome(old(self)@, job_id, result, now),
    {
        let now = now_micros();
        self.after_flash_at(job_id, result, now)
    }

    /// Decides what follows the end of the writing of a job, with the
    /// writing's result, at `now`: `after_flash_outcome`.
    pub fn after_flash_at(&mut self, job_id: u128, result: Result<(), String>, now: i64) -> (r:
        FlashOutcome)
        ensures
            (final(self)@, r) == after_flash_outcome(old(self)@, job_id, result, now),
    {
        let (cancelled, verify) = match self.jobs.get(&job_id) {
            Some(job) => (job.status == FlashStatus::Cancelled, job.verify),
            None => (false, false),
        };
        if cancelled {
            return FlashOutcome::Cancelled;
        }
        match result {
            Ok(()) => {
                if verify {
                    let taken = self.jobs.remove(&job_id);
                    match taken {
                        None => {},
                        Some(job) => {
                            let updated = FlashJob {
                                status: FlashStatus::Verifying,
                                updated_at: now,
                                ..job
                            };
                            self.jobs.insert(job_id, updated);
                            assert(self.jobs@ =~= old(self).jobs@.insert(job_id, updated));
                        },
                    }
                    FlashOutcome::Verify
                } else {
                    self.complete(job_id, now);
                    FlashOutcome::Finished(Ok(()))
                }
            },
            Err(e) => {
                let message = e.clone();
                self.fail(job_id, e, now);
                FlashOutcome::Finished(Err(message))
            },
        }
    }

    /// Decides what follows the verification of a job, with its result, at
    /// the current instant: `after_verify_outcome`.
    pub fn after_verify(&mut self, job_id: u128, result: Result<(), String>) -> (r: Result<
        (),
        String,
    >)
        ensures
            exists|now: i64|
                (final(self)@, r) == after_verify_outcome(old(self)@, job_id, result, now),
    {
        let now = now_micros();
        self.after_verify_at(job_id, result, now)
    }

    /// Decides what follows the verification of a job, with its result, at
    /// `now`: `after_verify_outcome`.
    pub fn after_verify_at(&mut self, job_id: u128, result: Result<(), String>, now: i64) -> (r:
        Result<(), String>)
        ensures
            (final(self)@, r) == after_verify_outcome(old(self)@, job_id, result, now),
    {
        match result {
            Ok(()) => {
                self.complete(job_id, now);
                Ok(())
            },
            Err(e) => {
                let message = e.clone();
                self.fail(job_id, e, now);
                Err(message)
            },
        }
    }
}

/// The result of comparing the digest of the image with that of the
/// written device: equal digests pass; otherwise the mismatch is reported.
pub fn verification_result(image_digest: &str, device_digest: &str) -> (r: Result<(), String>)
    ensures
        r is Ok <==> image_digest@ == device_digest@,
        r matches Err(m) ==> m@ == "SHA256 mismatch: written data does not match source ISO"@,
{
    if str_equal(image_digest, device_digest) {
        Ok(())
    } else {
        Err(String::from_str("SHA256 mismatch: written data does not match source ISO"))
    }
}

// ---------------------------------------------------------------------------
// Laws
// ---------------------------------------------------------------------------

/// A job is claimed by at most one worker: once claimed, a second claim is
/// refused and changes nothing.
pub proof fn law_claim_once(m: Map<u128, FlashJob>, id: u128, t1: i64, t2: i64)
    requires
        claim_outcome(m, id, t1).1,
    ensures
        claim_outcome(m, id, t1).0[id].status == FlashStatus::Flashing,
        claim_outcome(claim_outcome(m, id, t1).0, id, t2) == (claim_outcome(m, id, t1).0, false),
{
}

/// A job that has completed or failed cannot be cancelled, and the refusal
/// changes nothing.
pub proof fn law_finished_job_stays(m: Map<u128, FlashJob>, id: u128, now: i64)
    requires
        m.contains_key(id),
        is_finished(m[id].status),
    ensures
        cancel_outcome(m, id, now) == (m, Err::<(), QueueError>(QueueError::AlreadyFinished(id))),
{
}

/// A cancelled job is never claimed, and when its writing ends it is
/// reported cancelled and left as it is.
pub proof fn law_cancelled_job_not_run(
    m: Map<u128, FlashJob>,
    id: u128,
    t1: i64,
    t2: i64,
    result: Result<(), String>,
)
    requires
        cancel_outcome(m, id, t1).1 == Ok::<(), QueueError>(()),
    ensures
        cancel_outcome(m, id, t1).0[id].status == FlashStatus::Cancelled,
        claim_outcome(cancel_outcome(m, id, t1).0, id, t2) == (cancel_outcome(m, id, t1).0, false),
        after_flash_outcome(cancel_outcome(m, id, t1).0, id, result, t2).0 == cancel_outcome(
            m,
            id,
            t1,
        ).0,
        after_flash_outcome(cancel_outcome(m, id, t1).0, id, result, t2).1 is Cancelled,
{
}

/// A queued job is there to be read back as it was written, and a worker
/// can claim it.
pub proof fn law_enqueued_job_claimable(
    m: Map<u128, FlashJob>,
    id: u128,
    request: FlashRequest,
    total_bytes: u64,
    t1: i64,
    t2: i64,
)
    ensures
        m.insert(id, queued_job(id, request, total_bytes, t1))[id] == queued_job(
            id,
            request,
            total_bytes,
            t1,
        ),
        claim_outcome(m.insert(id, queued_job(id, request, total_bytes, t1)), id, t2).1,
{
}

/// A job that is written and needs no verification ends completed and fully
/// written; a failed writing ends the job failed with the writing's
/// message.
pub proof fn law_flash_ends_job(m: Map<u128, FlashJob>, id: u128, e: String, now: i64)
    requires
        m.contains_key(id),
        m[id].status == FlashStatus::Flashing,
    ensures
        !m[id].verify ==> after_flash_outcome(m, id, Ok(()), now).0[id].status
            == FlashStatus::Completed,
        !m[id].verify ==> after_flash_outcome(m, id, Ok(()), now).0[id].progress_done
            == after_flash_outcome(m, id, Ok(()), now).0[id].progress_of,
        m[id].verify ==> after_flash_outcome(m, id, Ok(()), now).0[id].status
            == FlashStatus::Verifying,
        after_flash_outcome(m, id, Err(e), now).0[id].status == FlashStatus::Failed,
        after_flash_outcome(m, id, Err(e), now).0[id].error_message == Some(e),
{
}

/// Operations on one job leave every other job as it was.
pub proof fn law_other_jobs_untouched(
    m: Map<u128, FlashJob>,
    id: u128,
    other: u128,
    now: i64,
    result: Result<(), String>,
)
    requires
        other != id,
        m.contains_key(other),
    ensures
        cancel_outcome(m, id, now).0[other] == m[other],
        claim_outcome(m, id, now).0[other] == m[other],
        after_flash_outcome(m, id, result, now).0[other] == m[other],
        after_verify_outcome(m, id, result, now).0[other] == m[other],
{
}

/// Whether every job is kept under its own identifier.
pub open spec fn keyed_by_id(m: Map<u128, FlashJob>) -> bool {
    forall|k: u128| #[trigger] m.contains_key(k) ==> m[k].id == k
}

/// Every operation on the table keeps each job under its own identifier:
/// queueing a job stores it under its identifier, and cancelling, claiming,
/// recording progress and ending a job never change an identifier.
pub proof fn law_jobs_keyed_by_id(
    m: Map<u128, FlashJob>,
    id: u128,
    request: FlashRequest,
    total_bytes: u64,
    p: ParsedProgress,
    result: Result<(), String>,
    now: i64,
)
    requires
        keyed_by_id(m),
    ensures
        keyed_by_id(m.insert(id, queued_job(id, request, total_bytes, now))),
        keyed_by_id(cancel_outcome(m, id, now).0),
        keyed_by_id(claim_outcome(m, id, now).0),
        keyed_by_id(progress_outcome(m, id, p, now)),
        keyed_by_id(after_flash_outcome(m, id, result, now).0),
        keyed_by_id(after_verify_outcome(m, id, result, now).0),
{
    assert(keyed_by_id(completed(m, id, now)));
    match result {
        Ok(()) => {},
        Err(e) => {
            assert(keyed_by_id(failed(m, id, e, now)));
        },
    }
}

/// The answers of claims of job `id` made one after the other at the
/// instants `ts` (as the workers' claims are, under the table's lock), and
/// the jobs afterwards.
pub open spec fn claims(m: Map<u128, FlashJob>, id: u128, ts: Seq<i64>) -> (
    Map<u128, FlashJob>,
    Seq<bool>,
)
    decreases ts.len(),
{
    if ts.len() == 0 {
        (m, Seq::empty())
    } else {
        let first = claim_outcome(m, id, ts[0]);
        let rest = claims(first.0, id, ts.drop_first());
        (rest.0, seq![first.1] + rest.1)
    }
}

proof fn lemma_claims_refused(m: Map<u128, FlashJob>, id: u128, ts: Seq<i64>)
    requires
        !(m.contains_key(id) && m[id].status == FlashStatus::Queued),
    ensures
        claims(m, id, ts).0 == m,
        claims(m, id, ts).1.len() == ts.len(),
        forall|j: int| 0 <= j < ts.len() ==> !#[trigger] claims(m, id, ts).1[j],
    decreases ts.len(),
{
    if ts.len() > 0 {
        lemma_claims_refused(m, id, ts.drop_first());
        let rest = claims(m, id, ts.drop_first()).1;
        assert forall|j: int| 0 <= j < ts.len() implies !#[trigger] claims(m, id, ts).1[j] by {
            if j > 0 {
                assert(claims(m, id, ts).1[j] == rest[j - 1]);
            }
        }
    }
}

/// However many workers claim a job, exactly one claim succeeds, the
/// first, when the job is queued; none succeeds when it is not (for
/// instance once it has been cancelled).
pub proof fn law_claims_exactly_once(m: Map<u128, FlashJob>, id: u128, ts: Seq<i64>)
    requires
        ts.len() >= 1,
    ensures
        claims(m, id, ts).1.len() == ts.len(),
        m.contains_key(id) && m[id].status == FlashStatus::Queued ==> claims(m, id, ts).1[0],
        m.contains_key(id) && m[id].status == FlashStatus::Queued ==> forall|j: int|
            1 <= j < ts.len() ==> !#[trigger] claims(m, id, ts).1[j],
        !(m.contains_key(id) && m[id].status == FlashStatus::Queued) ==> forall|j: int|
            0 <= j < ts.len() ==> !#[trigger] claims(m, id, ts).1[j],
{
    if m.contains_key(id) && m[id].status == FlashStatus::Queued {
        let m1 = claim_outcome(m, id, ts[0]).0;
        assert(m1[id].status == FlashStatus::Flashing);
        lemma_claims_refused(m1, id, ts.drop_first());
        let rest = claims(m1, id, ts.drop_first()).1;
        assert forall|j: int| 1 <= j < ts.len() implies !#[trigger] claims(m, id, ts).1[j] by {
            assert(claims(m, id, ts).1[j] == rest[j - 1]);
        }
    } else {
        lemma_claims_refused(m, id, ts);
    }
}

/// Cancelling a job that exists and has neither completed nor failed
/// (queued, flashing, verifying, or already cancelled) succeeds and leaves
/// it cancelled at `now`, its other fields kept, and no other job touched; a
/// completed or failed job is refused as already finished and nothing
/// changes; an unknown job is refused as not found.
pub proof fn law_cancel_unfinished_job(m: Map<u128, FlashJob>, id: u128, now: i64, other: u128)
    ensures
        m.contains_key(id) && m[id].status != FlashStatus::Completed && m[id].status
            != FlashStatus::Failed ==> {
            &&& cancel_outcome(m, id, now).1 == Ok::<(), QueueError>(())
            &&& cancel_outcome(m, id, now).0.contains_key(id)
            &&& cancel_outcome(m, id, now).0[id].status == FlashStatus::Cancelled
            &&& cancel_outcome(m, id, now).0[id].updated_at == now
            &&& cancel_outcome(m, id, now).0[id] == (FlashJob {
                status: FlashStatus::Cancelled,
                updated_at: now,
                ..m[id]
            })
        },
        m.contains_key(id) && (m[id].status == FlashStatus::Completed || m[id].status
            == FlashStatus::Failed) ==> cancel_outcome(m, id, now) == (m, Err::<(), QueueError>(
            QueueError::AlreadyFinished(id),
        )),
        !m.contains_key(id) ==> cancel_outcome(m, id, now) == (m, Err::<(), QueueError>(
            QueueError::NotFound(id),
        )),
        other != id ==> cancel_outcome(m, id, now).0.contains_key(other) == m.contains_key(other),
        other != id && m.contains_key(other) ==> cancel_outcome(m, id, now).0[other] == m[other],
{
}

/// A `dd` progress line whose capture groups are all present is read
/// whenever its byte count is a decimal number that fits in a `u64`, however
/// large: the bytes written are that number, the seconds and the speed are
/// the texts of their groups, and the unit is GB/s exactly when the unit
/// group says so.
pub proof fn law_dd_line_byte_count(g: Seq<Option<Seq<char>>>)
    requires
        g.len() >= 5,
        g[1] is Some && g[2] is Some && g[3] is Some && g[4] is Some,
        g[1]->Some_0.len() > 0,
        all_digits(g[1]->Some_0),
        digits_value(g[1]->Some_0) <= 0xFFFF_FFFF_FFFF_FFFF,
    ensures
        dd_fields(Some(g)) == Some((
            digits_value(g[1]->Some_0) as u64,
            g[2]->Some_0,
            g[3]->Some_0,
            g[4]->Some_0 == "GB/s"@,
        )),
{
    let d = g[1]->Some_0;
    assert(d[0] != '+') by {
        assert(crate::text::is_digit(d[0]));
    }
}

} // verus!
