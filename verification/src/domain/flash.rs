//! Flash jobs: one image written to one device.
use vstd::prelude::*;

verus! {

/// Where a flash job stands.
#[derive(Clone, Copy, Debug, PartialEq, Eq, Structural)]
pub enum FlashStatus {
    Pending,
    Queued,
    Flashing,
    Verifying,
    Completed,
    Failed,
    Cancelled,
}

/// Copies an optional string.
pub fn copy_opt_string(s: &Option<String>) -> (r: Option<String>)
    ensures
        r == *s,
{
    match s {
        Some(t) => Some(t.clone()),
        None => None,
    }
}

/// One image written to one device.
///
/// Identifiers are the 128-bit values of UUIDs, and instants are
/// microseconds since the Unix epoch (UTC).
///
/// The progress in percent is `100 * progress_done / progress_of`, and 0
/// when `progress_of` is 0.
pub struct FlashJob {
    pub id: u128,
    pub iso_id: u128,
    pub usb_id: u128,
    pub batch_id: Option<u128>,
    pub status: FlashStatus,
    pub progress_done: u64,
    pub progress_of: u64,
    pub speed_bytes_per_sec: u64,
    pub bytes_written: u64,
    pub total_bytes: u64,
    pub eta_seconds: Option<u64>,
    pub verify: bool,
    pub error_message: Option<String>,
    pub started_at: Option<i64>,
    pub completed_at: Option<i64>,
    pub created_at: i64,
    pub updated_at: i64,
}

impl FlashJob {
    /// A field-by-field copy of the job.
    pub fn copied(&self) -> (r: FlashJob)
        ensures
            r == *self,
    {
        FlashJob {
            id: self.id,
            iso_id: self.iso_id,
            usb_id: self.usb_id,
            batch_id: self.batch_id,
            status: self.status,
            progress_done: self.progress_done,
            progress_of: self.progress_of,
            speed_bytes_per_sec: self.speed_bytes_per_sec,
            bytes_written: self.bytes_written,
            total_bytes: self.total_bytes,
            eta_seconds: self.eta_seconds,
            verify: self.verify,
            error_message: copy_opt_string(&self.error_message),
            started_at: self.started_at,
            completed_at: self.completed_at,
            created_at: self.created_at,
            updated_at: self.updated_at,
        }
    }
}

/// A progress report about one job, as broadcast to listeners.
///
/// The progress in percent is `100 * progress_done / progress_of`, and 0
/// when `progress_of` is 0.
pub struct FlashJobProgress {
    pub job_id: u128,
    pub status: FlashStatus,
    pub progress_done: u64,
    pub progress_of: u64,
    pub speed_bytes_per_sec: u64,
    pub bytes_written: u64,
    pub total_bytes: u64,
    pub eta_seconds: Option<u64>,
}

impl FlashJobProgress {
    /// The report sent when a job changes status: the status and nothing
    /// else (zero progress, no estimate).
    pub fn status_change(job_id: u128, status: FlashStatus) -> (r: FlashJobProgress)
        ensures
            r == (FlashJobProgress {
                job_id,
                status,
                progress_done: 0,
                progress_of: 0,
                speed_bytes_per_sec: 0,
                bytes_written: 0,
                total_bytes: 0,
                eta_seconds: None,
            }),
    {
        FlashJobProgress {
            job_id,
            status,
            progress_done: 0,
            progress_of: 0,
            speed_bytes_per_sec: 0,
            bytes_written: 0,
            total_bytes: 0,
            eta_seconds: None,
        }
    }
}

/// A request to write one image to one device.
pub struct FlashRequest {
    pub iso_id: u128,
    pub usb_id: u128,
    pub verify: Option<bool>,
}

/// Whether a flashing tool is available, and its version.
pub struct FlashEngineInfo {
    pub engine: String,
    pub available: bool,
    pub version: Option<String>,
}

/// The tools that can write an image.
#[derive(Clone, Copy, Debug, PartialEq, Eq, Structural)]
pub enum FlashEngine {
    Dd,
    Bmaptool,
    Xzcat,
    NativeRust,
}

} // verus!
