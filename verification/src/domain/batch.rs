//! Batches: several flash jobs created and followed together.
use vstd::prelude::*;
use crate::domain::flash::FlashJobProgress;

verus! {

/// How the images and devices of a batch are paired.
#[derive(Clone, Copy, Debug, PartialEq, Eq, Structural)]
pub enum BatchMode {
    /// One image onto every device at once.
    Clone,
    /// N images onto N devices, paired in the order given.
    Sequential,
    /// The station pairs images with devices by size.
    SmartAssign,
    /// The user queues the jobs one by one; the batch starts empty.
    ManualQueue,
}

/// Where a batch stands.
#[derive(Clone, Copy, Debug, PartialEq, Eq, Structural)]
pub enum BatchStatus {
    Draft,
    Queued,
    Running,
    Completed,
    PartiallyFailed,
    Failed,
    Cancelled,
}

/// A batch of flash jobs.
///
/// Identifiers are the 128-bit values of UUIDs, and instants are
/// microseconds since the Unix epoch (UTC).
pub struct FlashBatch {
    pub id: u128,
    pub name: String,
    pub mode: BatchMode,
    pub status: BatchStatus,
    pub jobs: Vec<u128>,
    pub total_jobs: u32,
    pub completed_jobs: u32,
    pub failed_jobs: u32,
    pub max_concurrent: u32,
    pub created_by: Option<u128>,
    pub created_at: i64,
    pub started_at: Option<i64>,
    pub completed_at: Option<i64>,
    pub updated_at: i64,
}

/// Copies a vector of identifiers.
pub fn copy_ids(v: &Vec<u128>) -> (r: Vec<u128>)
    ensures
        r@ == v@,
{
    let mut out: Vec<u128> = Vec::new();
    let mut k: usize = 0;
    while k < v.len()
        invariant
            k <= v@.len(),
            out@ == v@.take(k as int),
        decreases v@.len() - k,
    {
        out.push(v[k]);
        k = k + 1;
        assert(out@ =~= v@.take(k as int));
    }
    assert(v@.take(v@.len() as int) =~= v@);
    out
}

/// A batch as a mathematical value: its text and identifiers as sequences.
pub struct FlashBatchView {
    pub id: u128,
    pub name: Seq<char>,
    pub mode: BatchMode,
    pub status: BatchStatus,
    pub jobs: Seq<u128>,
    pub total_jobs: u32,
    pub completed_jobs: u32,
    pub failed_jobs: u32,
    pub max_concurrent: u32,
    pub created_by: Option<u128>,
    pub created_at: i64,
    pub started_at: Option<i64>,
    pub completed_at: Option<i64>,
    pub updated_at: i64,
}

impl View for FlashBatch {
    type V = FlashBatchView;

    open spec fn view(&self) -> FlashBatchView {
        FlashBatchView {
            id: self.id,
            name: self.name@,
            mode: self.mode,
            status: self.status,
            jobs: self.jobs@,
            total_jobs: self.total_jobs,
            completed_jobs: self.completed_jobs,
            failed_jobs: self.failed_jobs,
            max_concurrent: self.max_concurrent,
            created_by: self.created_by,
            created_at: self.created_at,
            started_at: self.started_at,
            completed_at: self.completed_at,
            updated_at: self.updated_at,
        }
    }
}

impl FlashBatch {
    /// The number of jobs that have ended, well or not.
    ///
    /// The overall progress of the batch in percent is
    /// `100 * settled_jobs() / total_jobs`, and 0 when there is no job.
    pub fn settled_jobs(&self) -> (r: u64)
        ensures
            r == self@.completed_jobs + self@.failed_jobs,
    {
        self.completed_jobs as u64 + self.failed_jobs as u64
    }

    /// A field-by-field copy of the batch.
    pub fn copied(&self) -> (r: FlashBatch)
        ensures
            r@ == self@,
    {
        FlashBatch {
            id: self.id,
            name: self.name.clone(),
            mode: self.mode,
            status: self.status,
            jobs: copy_ids(&self.jobs),
            total_jobs: self.total_jobs,
            completed_jobs: self.completed_jobs,
            failed_jobs: self.failed_jobs,
            max_concurrent: self.max_concurrent,
            created_by: self.created_by,
            created_at: self.created_at,
            started_at: self.started_at,
            completed_at: self.completed_at,
            updated_at: self.updated_at,
        }
    }
}

/// A rule for pairing images with devices by tag and size.
pub struct SmartAssignRule {
    pub iso_tag: Option<String>,
    pub usb_min_bytes: Option<u64>,
    pub usb_max_bytes: Option<u64>,
    pub priority: i32,
}

/// A request to create a batch.
pub struct BatchCreateRequest {
    pub name: String,
    pub mode: BatchMode,
    pub iso_ids: Vec<u128>,
    pub usb_ids: Vec<u128>,
    pub max_concurrent: Option<u32>,
    pub verify: Option<bool>,
    pub priority_rules: Option<Vec<SmartAssignRule>>,
}

/// Where a batch stands, with its job counts.
///
/// The overall progress in percent is
/// `100 * (completed_jobs + failed_jobs) / total_jobs`, and 0 when there is
/// no job.
pub struct BatchProgress {
    pub batch_id: u128,
    pub mode: BatchMode,
    pub status: BatchStatus,
    pub total_jobs: u32,
    pub completed_jobs: u32,
    pub failed_jobs: u32,
    pub running_jobs: u32,
    pub pending_jobs: u32,
    pub jobs: Vec<FlashJobProgress>,
}

} // verus!
