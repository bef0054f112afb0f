//! The batch orchestrator: creates batches of flash jobs in one of four
//! modes and follows their status.
//!
//! Modes:
//! - Clone: 1 image onto N devices at once
//! - Sequential: N images onto N devices, paired in order
//! - SmartAssign: the station pairs images with devices by size
//! - ManualQueue: the user queues the jobs one by one
use vstd::prelude::*;
use std::collections::HashMap;
use crate::domain::batch::{
    copy_ids, BatchCreateRequest, BatchMode, BatchProgress, BatchStatus, FlashBatch, FlashBatchView,
};
use crate::domain::flash::{FlashJob, FlashJobProgress, FlashStatus};
use crate::service::flash::{cancel_outcome as flash_cancel_outcome, is_finished, FlashJobQueue};
use crate::infra::clock::now_micros;
use crate::infra::ids::{new_v4_id, uuid_string, uuid_text};
use crate::text::{decimal_string, decimal_text};
use vstd::string::StringExecFns;
use crate::service::assign::{known_items, known_sized_items, smart_assign_pairs, smart_pairs};

verus! {

broadcast use vstd::std_specs::hash::group_hash_axioms;

/// Why a batch request was refused.
#[derive(Clone, Copy, Debug, PartialEq, Eq, Structural)]
pub enum BatchError {
    /// No batch has this identifier.
    NotFound(u128),
    /// The batch is neither a draft nor queued; its status is given.
    CannotStart(u128, BatchStatus),
    /// The batch has already completed.
    AlreadyCompleted(u128),
    /// The batch has already been cancelled.
    AlreadyCancelled(u128),
    /// Clone mode was given no image.
    CloneWithoutImage,
    /// Clone mode was given no device.
    CloneWithoutDevice,
    /// Sequential mode was given different numbers of images and devices
    /// (images first).
    SequentialCountMismatch(usize, usize),
    /// Sequential mode was given no image-device pair.
    SequentialEmpty,
    /// Smart assignment was given no image or no device.
    SmartAssignEmpty,
}

/// The name of a batch status, as `{:?}` writes it.
pub open spec fn status_name(s: BatchStatus) -> Seq<char> {
    match s {
        BatchStatus::Draft => "Draft"@,
        BatchStatus::Queued => "Queued"@,
        BatchStatus::Running => "Running"@,
        BatchStatus::Completed => "Completed"@,
        BatchStatus::PartiallyFailed => "PartiallyFailed"@,
        BatchStatus::Failed => "Failed"@,
        BatchStatus::Cancelled => "Cancelled"@,
    }
}

fn status_name_str(s: BatchStatus) -> (r: &'static str)
    ensures
        r@ == status_name(s),
{
    match s {
        BatchStatus::Draft => "Draft",
        BatchStatus::Queued => "Queued",
        BatchStatus::Running => "Running",
        BatchStatus::Completed => "Completed",
        BatchStatus::PartiallyFailed => "PartiallyFailed",
        BatchStatus::Failed => "Failed",
        BatchStatus::Cancelled => "Cancelled",
    }
}

/// The message that a refused batch request is answered with.
pub open spec fn batch_error_text(e: BatchError) -> Seq<char> {
    match e {
        BatchError::NotFound(id) => "Batch "@ + uuid_text(id) + " not found"@,
        BatchError::CannotStart(id, status) => "Batch "@ + uuid_text(id)
            + " cannot be started (status: "@ + status_name(status) + ")"@,
        BatchError::AlreadyCompleted(id) => "Batch "@ + uuid_text(id) + " already completed"@,
        BatchError::AlreadyCancelled(id) => "Batch "@ + uuid_text(id) + " already cancelled"@,
        BatchError::CloneWithoutImage => "Clone mode requires at least 1 ISO"@,
        BatchError::CloneWithoutDevice => "Clone mode requires at least 1 USB target"@,
        BatchError::SequentialCountMismatch(isos, usbs) =>
            "Sequential mode requires equal ISOs and USBs. Got "@ + decimal_text(isos as nat)
            + " ISOs, "@ + decimal_text(usbs as nat) + " USBs"@,
        BatchError::SequentialEmpty => "At least 1 ISO-USB pair required"@,
        BatchError::SmartAssignEmpty => "SmartAssign requires at least 1 ISO and 1 USB"@,
    }
}

impl BatchError {
    /// The message of this refusal: `batch_error_text`.
    pub fn message(&self) -> (r: String)
        ensures
            r@ == batch_error_text(*self),
    {
        match *self {
            BatchError::NotFound(id) => {
                let mut s = String::from_str("Batch ");
                s.append(uuid_string(id).as_str());
                s.append(" not found");
                s
            },
            BatchError::CannotStart(id, status) => {
                let mut s = String::from_str("Batch ");
                s.append(uuid_string(id).as_str());
                s.append(" cannot be started (status: ");
                s.append(status_name_str(status));
                s.append(")");
                s
            },
            BatchError::AlreadyCompleted(id) => {
                let mut s = String::from_str("Batch ");
                s.append(uuid_string(id).as_str());
                s.append(" already completed");
                s
            },
            BatchError::AlreadyCancelled(id) => {
                let mut s = String::from_str("Batch ");
                s.append(uuid_string(id).as_str());
                s.append(" already cancelled");
                s
            },
            BatchError::CloneWithoutImage => String::from_str("Clone mode requires at least 1 ISO"),
            BatchError::CloneWithoutDevice => String::from_str(
                "Clone mode requires at least 1 USB target",
            ),
            BatchError::SequentialCountMismatch(isos, usbs) => {
                let mut s = String::from_str("Sequential mode requires equal ISOs and USBs. Got ");
                s.append(decimal_string(isos).as_str());
                s.append(" ISOs, ");
                s.append(decimal_string(usbs).as_str());
                s.append(" USBs");
                s
            },
            BatchError::SequentialEmpty => String::from_str("At least 1 ISO-USB pair required"),
            BatchError::SmartAssignEmpty => String::from_str(
                "SmartAssign requires at least 1 ISO and 1 USB",
            ),
        }
    }
}

/// How many jobs a batch request makes, or why it is refused.
///
/// `image_sizes[i]` is the size of image `request.iso_ids[i]` where the image
/// is known, and `device_capacities[j]` the capacity of device
/// `request.usb_ids[j]` where the device is known; only smart assignment
/// looks at them.
pub open spec fn planned_jobs(
    request: BatchCreateRequest,
    image_sizes: Seq<Option<u64>>,
    device_capacities: Seq<Option<u64>>,
) -> Result<nat, BatchError> {
    let isos = request.iso_ids@;
    let usbs = request.usb_ids@;
    match request.mode {
        BatchMode::Clone => if isos.len() == 0 {
            Err(BatchError::CloneWithoutImage)
        } else if usbs.len() == 0 {
            Err(BatchError::CloneWithoutDevice)
        } else {
            Ok(usbs.len())
        },
        BatchMode::Sequential => if isos.len() != usbs.len() {
            Err(BatchError::SequentialCountMismatch(isos.len() as usize, usbs.len() as usize))
        } else if isos.len() == 0 {
            Err(BatchError::SequentialEmpty)
        } else {
            Ok(isos.len())
        },
        BatchMode::SmartAssign => if isos.len() == 0 || usbs.len() == 0 {
            Err(BatchError::SmartAssignEmpty)
        } else {
            Ok(
                smart_pairs(
                    known_items(isos, image_sizes),
                    known_items(usbs, device_capacities),
                ).len(),
            )
        },
        BatchMode::ManualQueue => Ok(0),
    }
}

/// Whether `b` is the batch that a request creates with `jobs` job
/// identifiers, at instant `now`: a draft with no job settled yet.
pub open spec fn is_new_batch(
    b: FlashBatchView,
    request: BatchCreateRequest,
    jobs: nat,
    now: i64,
) -> bool {
    &&& b.name == request.name@
    &&& b.mode == request.mode
    &&& b.status == BatchStatus::Draft
    &&& b.jobs.len() == jobs
    &&& b.total_jobs == jobs as u32
    &&& b.completed_jobs == 0
    &&& b.failed_jobs == 0
    &&& b.max_concurrent == (match request.max_concurrent {
        Some(m) => m,
        None => 2,
    })
    &&& b.created_by == None::<u128>
    &&& b.created_at == now
    &&& b.started_at == None::<i64>
    &&& b.completed_at == None::<i64>
    &&& b.updated_at == now
}

/// Starting batch `id` at instant `now`: the batches afterwards, and the
/// answer. Only a draft or queued batch starts; it becomes running.
pub open spec fn start_outcome(m: Map<u128, FlashBatchView>, id: u128, now: i64) -> (
    Map<u128, FlashBatchView>,
    Result<(), BatchError>,
) {
    if !m.contains_key(id) {
        (m, Err(BatchError::NotFound(id)))
    } else if m[id].status != BatchStatus::Draft && m[id].status != BatchStatus::Queued {
        (m, Err(BatchError::CannotStart(id, m[id].status)))
    } else {
        (
            m.insert(
                id,
                FlashBatchView { status: BatchStatus::Running, started_at: Some(now), ..m[id] },
            ),
            Ok(()),
        )
    }
}

/// Cancelling batch `id` at instant `now`: the batches afterwards, and the
/// answer. A completed or cancelled batch is refused; any other becomes
/// cancelled.
pub open spec fn cancel_outcome(m: Map<u128, FlashBatchView>, id: u128, now: i64) -> (
    Map<u128, FlashBatchView>,
    Result<(), BatchError>,
) {
    if !m.contains_key(id) {
        (m, Err(BatchError::NotFound(id)))
    } else if m[id].status == BatchStatus::Completed {
        (m, Err(BatchError::AlreadyCompleted(id)))
    } else if m[id].status == BatchStatus::Cancelled {
        (m, Err(BatchError::AlreadyCancelled(id)))
    } else {
        (
            m.insert(
                id,
                FlashBatchView { status: BatchStatus::Cancelled, completed_at: Some(now), ..m[id] },
            ),
            Ok(()),
        )
    }
}

/// The jobs once those listed in `ids` are cancelled at `now`: each listed
/// job that has not ended (neither completed nor failed) becomes cancelled;
/// every other job stays as it was.
pub open spec fn cancel_batch_jobs(jobs: Map<u128, FlashJob>, ids: Seq<u128>, now: i64) -> Map<
    u128,
    FlashJob,
> {
    Map::new(
        |k: u128| jobs.contains_key(k),
        |k: u128|
            if ids.contains(k) && !is_finished(jobs[k].status) {
                FlashJob { status: FlashStatus::Cancelled, updated_at: now, ..jobs[k] }
            } else {
                jobs[k]
            },
    )
}

/// Cancelling batch `id` at `now`, with the batches `m` and the jobs `jobs`
/// before and `m2`, `jobs2` after, answered `r`: the batch changes as
/// `cancel_outcome` says; on a refusal the jobs are untouched; otherwise
/// the answer lists the batch's jobs and those of them that have not ended
/// are cancelled.
pub open spec fn batch_cancelled(
    m: Map<u128, FlashBatchView>,
    jobs: Map<u128, FlashJob>,
    id: u128,
    now: i64,
    m2: Map<u128, FlashBatchView>,
    jobs2: Map<u128, FlashJob>,
    r: Result<Vec<u128>, BatchError>,
) -> bool {
    &&& m2 == cancel_outcome(m, id, now).0
    &&& match cancel_outcome(m, id, now).1 {
        Ok(()) => r matches Ok(v) && v@ == m[id].jobs && jobs2 == cancel_batch_jobs(jobs, v@, now),
        Err(e) => r == Err::<Vec<u128>, BatchError>(e) && jobs2 == jobs,
    }
}

proof fn lemma_cancel_one_more(start: Map<u128, FlashJob>, ids: Seq<u128>, i: int, now: i64)
    requires
        0 <= i < ids.len(),
    ensures
        flash_cancel_outcome(cancel_batch_jobs(start, ids.take(i), now), ids[i], now).0
            == cancel_batch_jobs(start, ids.take(i + 1), now),
{
    let cur = cancel_batch_jobs(start, ids.take(i), now);
    let next = flash_cancel_outcome(cur, ids[i], now).0;
    let want = cancel_batch_jobs(start, ids.take(i + 1), now);
    let x = ids[i];
    assert(ids.take(i + 1) =~= ids.take(i).push(x));
    assert forall|k: u128| #[trigger] ids.take(i + 1).contains(k) <==> (ids.take(i).contains(k)
        || k == x) by {
        broadcast use vstd::seq_lib::group_seq_properties;

    }
    assert(next =~= want);
}

/// Whether the job counts of a batch are consistent: no more jobs settled
/// than there are.
pub open spec fn counts_consistent(b: FlashBatchView) -> bool {
    b.completed_jobs + b.failed_jobs <= b.total_jobs
}

/// Manages the batches of the station.
pub struct BatchOrchestrator {
    batches: HashMap<u128, FlashBatch>,
    permits: u32,
}

impl View for BatchOrchestrator {
    type V = Map<u128, FlashBatchView>;

    closed spec fn view(&self) -> Map<u128, FlashBatchView> {
        self.batches@.map_values(|b: FlashBatch| b@)
    }
}

impl BatchOrchestrator {
    /// Every batch kept has consistent job counts.
    #[verifier::type_invariant]
    closed spec fn counts_hold(self) -> bool {
        forall|id: u128| #[trigger]
            self.batches@.contains_key(id) ==> counts_consistent(self.batches@[id]@)
    }

    /// How many flash jobs of a batch may run at once.
    pub closed spec fn concurrency(self) -> u32 {
        self.permits
    }

    /// An orchestrator with no batch, allowing 2 jobs at once.
    pub fn new() -> (r: BatchOrchestrator)
        ensures
            r@ == Map::<u128, FlashBatchView>::empty(),
            r.concurrency() == 2,
    {
        BatchOrchestrator { batches: HashMap::new(), permits: 2 }
    }

    /// An orchestrator with no batch, allowing `max` jobs at once.
    pub fn with_max_concurrent(max: u32) -> (r: BatchOrchestrator)
        ensures
            r@ == Map::<u128, FlashBatchView>::empty(),
            r.concurrency() == max,
    {
        BatchOrchestrator { batches: HashMap::new(), permits: max }
    }

    /// Clone mode: one job per device, all writing the first image.
    fn resolve_clone(request: &BatchCreateRequest) -> (r: Result<Vec<u128>, BatchError>)
        requires
            request.mode == BatchMode::Clone,
        ensures
            match planned_jobs(*request, Seq::empty(), Seq::empty()) {
                Ok(n) => r matches Ok(ids) && ids@.len() == n,
                Err(e) => r == Err::<Vec<u128>, BatchError>(e),
            },
    {
        if request.iso_ids.len() == 0 {
            return Err(BatchError::CloneWithoutImage);
        }
        if request.usb_ids.len() == 0 {
            return Err(BatchError::CloneWithoutDevice);
        }
        Ok(fresh_ids(request.usb_ids.len()))
    }

    /// Sequential mode: one job per image-device pair.
    fn resolve_sequential(request: &BatchCreateRequest) -> (r: Result<Vec<u128>, BatchError>)
        requires
            request.mode == BatchMode::Sequential,
        ensures
            match planned_jobs(*request, Seq::empty(), Seq::empty()) {
                Ok(n) => r matches Ok(ids) && ids@.len() == n,
                Err(e) => r == Err::<Vec<u128>, BatchError>(e),
            },
    {
        if request.iso_ids.len() != request.usb_ids.len() {
            return Err(
                BatchError::SequentialCountMismatch(request.iso_ids.len(), request.usb_ids.len()),
            );
        }
        if request.iso_ids.len() == 0 {
            return Err(BatchError::SequentialEmpty);
        }
        Ok(fresh_ids(request.iso_ids.len()))
    }

    /// Smart assignment: one job per pair that `smart_pairs` makes of the
    /// known images and devices.
    fn resolve_smart_assign(
        request: &BatchCreateRequest,
        image_sizes: &Vec<Option<u64>>,
        device_capacities: &Vec<Option<u64>>,
    ) -> (r: Result<Vec<u128>, BatchError>)
        requires
            request.mode == BatchMode::SmartAssign,
            image_sizes@.len() == request.iso_ids@.len(),
            device_capacities@.len() == request.usb_ids@.len(),
        ensures
            match planned_jobs(*request, image_sizes@, device_capacities@) {
                Ok(n) => r matches Ok(ids) && ids@.len() == n,
                Err(e) => r == Err::<Vec<u128>, BatchError>(e),
            },
    {
        if request.iso_ids.len() == 0 || request.usb_ids.len() == 0 {
            return Err(BatchError::SmartAssignEmpty);
        }
        let images = known_sized_items(&request.iso_ids, image_sizes);
        let devices = known_sized_items(&request.usb_ids, device_capacities);
        let pairs = smart_assign_pairs(&images, &devices);
        Ok(fresh_ids(pairs.len()))
    }

    /// Creates a batch from a request, pairing its images and devices as
    /// its mode says, and keeps it as a draft.
    ///
    /// `image_sizes[i]` is the size of image `request.iso_ids[i]` (`None`
    /// where the image is unknown), and `device_capacities[j]` the capacity
    /// of device `request.usb_ids[j]`.
    pub fn create_batch(
        &mut self,
        request: BatchCreateRequest,
        image_sizes: &Vec<Option<u64>>,
        device_capacities: &Vec<Option<u64>>,
    ) -> (r: Result<FlashBatch, BatchError>)
        requires
            image_sizes@.len() == request.iso_ids@.len(),
            device_capacities@.len() == request.usb_ids@.len(),
        ensures
            match planned_jobs(request, image_sizes@, device_capacities@) {
                Ok(n) => r matches Ok(b) && is_new_batch(b@, request, n, b.created_at)
                    && final(self)@ == old(self)@.insert(b.id, b@),
                Err(e) => r == Err::<FlashBatch, BatchError>(e) && final(self)@ == old(self)@,
            },
            final(self).concurrency() == old(self).concurrency(),
    {
        proof {
            use_type_invariant(&*self);
        }
        let batch_id = new_v4_id();
        let max_concurrent = match request.max_concurrent {
            Some(m) => m,
            None => 2,
        };
        let resolved = match request.mode {
            BatchMode::Clone => Self::resolve_clone(&request),
            BatchMode::Sequential => Self::resolve_sequential(&request),
            BatchMode::SmartAssign => Self::resolve_smart_assign(
                &request,
                image_sizes,
                device_capacities,
            ),
            BatchMode::ManualQueue => Ok(Vec::new()),
        };
        let job_ids = match resolved {
            Ok(ids) => ids,
            Err(e) => {
                return Err(e);
            },
        };
        let total_jobs = job_ids.len() as u32;
        let now = now_micros();
        let batch = FlashBatch {
            id: batch_id,
            name: request.name,
            mode: request.mode,
            status: BatchStatus::Draft,
            jobs: job_ids,
            total_jobs,
            completed_jobs: 0,
            failed_jobs: 0,
            max_concurrent,
            created_by: None,
            created_at: now,
            started_at: None,
            completed_at: None,
            updated_at: now,
        };
        let kept = batch.copied();
        let ghost before = self.batches@;
        let mut batches = HashMap::new();
        std::mem::swap(&mut batches, &mut self.batches);
        batches.insert(batch_id, kept);
        self.batches = batches;
        proof {
            assert(self.batches@.map_values(|b: FlashBatch| b@) =~= before.map_values(
                |b: FlashBatch| b@,
            ).insert(batch_id, batch@));
        }
        Ok(batch)
    }

    /// Starts a draft or queued batch, as `start_outcome` says, at the
    /// current instant.
    pub fn start_batch(&mut self, batch_id: u128) -> (r: Result<(), BatchError>)
        ensures
            exists|now: i64| (final(self)@, r) == start_outcome(old(self)@, batch_id, now),
            final(self).concurrency() == old(self).concurrency(),
    {
        let now = now_micros();
        self.start_batch_at(batch_id, now)
    }

    /// Starts a draft or queued batch at instant `now`: `start_outcome`.
    pub fn start_batch_at(&mut self, batch_id: u128, now: i64) -> (r: Result<(), BatchError>)
        ensures
            (final(self)@, r) == start_outcome(old(self)@, batch_id, now),
            final(self).concurrency() == old(self).concurrency(),
    {
        proof {
            use_type_invariant(&*self);
        }
        let status = match self.batches.get(&batch_id) {
            Some(b) => b.status,
            None => {
                return Err(BatchError::NotFound(batch_id));
            },
        };
        if status != BatchStatus::Draft && status != BatchStatus::Queued {
            return Err(BatchError::CannotStart(batch_id, status));
        }
        let ghost before = self.batches@;
        let mut batches = HashMap::new();
        std::mem::swap(&mut batches, &mut self.batches);
        let taken = batches.remove(&batch_id);
        match taken {
            Some(b) => {
                let updated = FlashBatch { status: BatchStatus::Running, started_at: Some(now), ..b };
                batches.insert(batch_id, updated);
                assert(batches@.map_values(|b: FlashBatch| b@) =~= before.map_values(
                    |b: FlashBatch| b@,
                ).insert(batch_id, updated@));
            },
            None => {},
        }
        self.batches = batches;
        Ok(())
    }

    /// Cancels a batch and all its pending and running jobs, at the current
    /// instant: the batch changes as `cancel_outcome` says, and when it is
    /// cancelled every job of the batch that has not ended is cancelled in
    /// `jobs`, as `cancel_batch_jobs` says. The answer gives the batch's jobs,
    /// for the workers running them to be stopped.
    pub fn cancel_batch(&mut self, batch_id: u128, jobs: &mut FlashJobQueue) -> (r: Result<
        Vec<u128>,
        BatchError,
    >)
        ensures
            exists|now: i64| batch_cancelled(old(self)@, old(jobs)@, batch_id, now, final(self)@, final(jobs)@, r),
            final(self).concurrency() == old(self).concurrency(),
    {
        let now = now_micros();
        self.cancel_batch_at(batch_id, jobs, now)
    }

    /// Cancels a batch and all its pending and running jobs at instant
    /// `now`: `batch_cancelled`.
    pub fn cancel_batch_at(&mut self, batch_id: u128, jobs: &mut FlashJobQueue, now: i64) -> (r:
        Result<Vec<u128>, BatchError>)
        ensures
            batch_cancelled(old(self)@, old(jobs)@, batch_id, now, final(self)@, final(jobs)@, r),
            final(self).concurrency() == old(self).concurrency(),
    {
        let ids = match self.mark_cancelled(batch_id, now) {
            Ok(ids) => ids,
            Err(e) => {
                return Err(e);
            },
        };
        let ghost start = jobs@;
        let mut i: usize = 0;
        assert(ids@.take(0) =~= Seq::<u128>::empty());
        assert(jobs@ =~= cancel_batch_jobs(start, ids@.take(0), now));
        while i < ids.len()
            invariant
                i <= ids@.len(),
                jobs@ == cancel_batch_jobs(start, ids@.take(i as int), now),
            decreases ids@.len() - i,
        {
            let x = ids[i];
            let ghost cur = jobs@;
            let _ = jobs.cancel_at(x, now);
            proof {
                lemma_cancel_one_more(start, ids@, i as int, now);
            }
            i = i + 1;
        }
        assert(ids@.take(ids@.len() as int) =~= ids@);
        Ok(ids)
    }

    /// Marks a batch cancelled at `now`, as `cancel_outcome` says, and gives
    /// its jobs.
    fn mark_cancelled(&mut self, batch_id: u128, now: i64) -> (r: Result<Vec<u128>, BatchError>)
        ensures
            final(self)@ == cancel_outcome(old(self)@, batch_id, now).0,
            match cancel_outcome(old(self)@, batch_id, now).1 {
                Ok(()) => r matches Ok(v) && v@ == old(self)@[batch_id].jobs,
                Err(e) => r == Err::<Vec<u128>, BatchError>(e),
            },
            final(self).concurrency() == old(self).concurrency(),
    {
        proof {
            use_type_invariant(&*self);
        }
        let status = match self.batches.get(&batch_id) {
            Some(b) => b.status,
            None => {
                return Err(BatchError::NotFound(batch_id));
            },
        };
        if status == BatchStatus::Completed {
            return Err(BatchError::AlreadyCompleted(batch_id));
        }
        if status == BatchStatus::Cancelled {
            return Err(BatchError::AlreadyCancelled(batch_id));
        }
        let ghost before = self.batches@;
        let mut batches = HashMap::new();
        std::mem::swap(&mut batches, &mut self.batches);
        let taken = batches.remove(&batch_id);
        let mut ids: Vec<u128> = Vec::new();
        match taken {
            Some(b) => {
                ids = copy_ids(&b.jobs);
                let updated = FlashBatch {
                    status: BatchStatus::Cancelled,
                    completed_at: Some(now),
                    ..b
                };
                batches.insert(batch_id, updated);
                assert(batches@.map_values(|b: FlashBatch| b@) =~= before.map_values(
                    |b: FlashBatch| b@,
                ).insert(batch_id, updated@));
            },
            None => {},
        }
        self.batches = batches;
        Ok(ids)
    }

    /// Where a batch stands: `None` when there is no such batch; otherwise
    /// its counts, with the jobs not settled counted as running.
    pub fn batch_progress(&self, batch_id: u128) -> (r: Option<BatchProgress>)
        ensures
            match r {
                None => !self@.contains_key(batch_id),
                Some(p) => {
                    let b = self@[batch_id];
                    &&& self@.contains_key(batch_id)
                    &&& p.batch_id == b.id
                    &&& p.mode == b.mode
                    &&& p.status == b.status
                    &&& p.total_jobs == b.total_jobs
                    &&& p.completed_jobs == b.completed_jobs
                    &&& p.failed_jobs == b.failed_jobs
                    &&& p.running_jobs == b.total_jobs - b.completed_jobs - b.failed_jobs
                    &&& p.pending_jobs == 0
                    &&& p.jobs@.len() == 0
                },
            },
    {
        proof {
            use_type_invariant(self);
        }
        match self.batches.get(&batch_id) {
            Some(b) => {
                assert(counts_consistent(self.batches@[batch_id]@));
                Some(
                    BatchProgress {
                        batch_id: b.id,
                        mode: b.mode,
                        status: b.status,
                        total_jobs: b.total_jobs,
                        completed_jobs: b.completed_jobs,
                        failed_jobs: b.failed_jobs,
                        running_jobs: b.total_jobs - b.completed_jobs - b.failed_jobs,
                        pending_jobs: 0,
                        jobs: Vec::<FlashJobProgress>::new(),
                    },
                )
            },
            None => None,
        }
    }
}

/// `count` new random job identifiers.
fn fresh_ids(count: usize) -> (r: Vec<u128>)
    ensures
        r@.len() == count,
{
    let mut ids: Vec<u128> = Vec::new();
    let mut k: usize = 0;
    while k < count
        invariant
            k <= count,
            ids@.len() == k,
        decreases count - k,
    {
        ids.push(new_v4_id());
        k = k + 1;
    }
    ids
}

// ---------------------------------------------------------------------------
// Laws
// ---------------------------------------------------------------------------

/// Cancelling a batch cancels each of its jobs that has not ended, and
/// leaves every other job (ended, or of another batch) as it was.
pub proof fn law_batch_cancel_cancels_jobs(
    jobs: Map<u128, FlashJob>,
    ids: Seq<u128>,
    now: i64,
    k: u128,
)
    ensures
        cancel_batch_jobs(jobs, ids, now).dom() == jobs.dom(),
        jobs.contains_key(k) && ids.contains(k) && !is_finished(jobs[k].status) ==> cancel_batch_jobs(
            jobs,
            ids,
            now,
        )[k].status == FlashStatus::Cancelled,
        jobs.contains_key(k) && (!ids.contains(k) || is_finished(jobs[k].status))
            ==> cancel_batch_jobs(jobs, ids, now)[k] == jobs[k],
{
    assert(cancel_batch_jobs(jobs, ids, now).dom() =~= jobs.dom());
}

/// A cancelled batch stays cancelled: it can be neither started nor
/// cancelled again, and both requests leave every batch as it was.
pub proof fn law_cancelled_batch_is_final(m: Map<u128, FlashBatchView>, id: u128, t1: i64, t2: i64)
    requires
        m.contains_key(id),
        m[id].status == BatchStatus::Cancelled,
    ensures
        start_outcome(m, id, t1) == (m, Err::<(), BatchError>(BatchError::CannotStart(id, BatchStatus::Cancelled))),
        cancel_outcome(m, id, t2) == (m, Err::<(), BatchError>(BatchError::AlreadyCancelled(id))),
{
}

/// Cancelling a batch that is not settled succeeds, and afterwards the
/// batch is cancelled: a second cancellation and any start are refused.
pub proof fn law_cancel_then_refused(m: Map<u128, FlashBatchView>, id: u128, t1: i64, t2: i64, t3: i64)
    requires
        m.contains_key(id),
        m[id].status != BatchStatus::Completed,
        m[id].status != BatchStatus::Cancelled,
    ensures
        cancel_outcome(m, id, t1).1 == Ok::<(), BatchError>(()),
        cancel_outcome(m, id, t1).0[id].status == BatchStatus::Cancelled,
        cancel_outcome(cancel_outcome(m, id, t1).0, id, t2).1 == Err::<(), BatchError>(
            BatchError::AlreadyCancelled(id),
        ),
        start_outcome(cancel_outcome(m, id, t1).0, id, t3).1 == Err::<(), BatchError>(
            BatchError::CannotStart(id, BatchStatus::Cancelled),
        ),
{
    let m1 = cancel_outcome(m, id, t1).0;
    assert(m1.contains_key(id));
    law_cancelled_batch_is_final(m1, id, t3, t2);
}

/// A batch is started at most once: once running, another start is refused
/// and changes nothing.
pub proof fn law_start_once(m: Map<u128, FlashBatchView>, id: u128, t1: i64, t2: i64)
    requires
        start_outcome(m, id, t1).1 == Ok::<(), BatchError>(()),
    ensures
        start_outcome(m, id, t1).0[id].status == BatchStatus::Running,
        start_outcome(start_outcome(m, id, t1).0, id, t2) == (
            start_outcome(m, id, t1).0,
            Err::<(), BatchError>(BatchError::CannotStart(id, BatchStatus::Running)),
        ),
{
}

/// Starting or cancelling one batch leaves every other batch as it was.
pub proof fn law_other_batches_untouched(
    m: Map<u128, FlashBatchView>,
    id: u128,
    other: u128,
    now: i64,
)
    requires
        other != id,
    ensures
        start_outcome(m, id, now).0.contains_key(other) == m.contains_key(other),
        cancel_outcome(m, id, now).0.contains_key(other) == m.contains_key(other),
        m.contains_key(other) ==> start_outcome(m, id, now).0[other] == m[other],
        m.contains_key(other) ==> cancel_outcome(m, id, now).0[other] == m[other],
{
}

/// A new batch is a draft and can be started.
pub proof fn law_new_batch_starts(
    m: Map<u128, FlashBatchView>,
    b: FlashBatchView,
    request: BatchCreateRequest,
    jobs: nat,
    created: i64,
    now: i64,
)
    requires
        is_new_batch(b, request, jobs, created),
    ensures
        start_outcome(m.insert(b.id, b), b.id, now).1 == Ok::<(), BatchError>(()),
{
}

/// In clone mode a batch has one job per device; in sequential mode one
/// job per image, and as many devices as images.
pub proof fn law_job_counts(
    request: BatchCreateRequest,
    image_sizes: Seq<Option<u64>>,
    device_capacities: Seq<Option<u64>>,
)
    ensures
        request.mode == BatchMode::Clone ==> (planned_jobs(
            request,
            image_sizes,
            device_capacities,
        ) matches Ok(n) ==> n == request.usb_ids@.len() && request.iso_ids@.len() > 0),
        request.mode == BatchMode::Sequential ==> (planned_jobs(
            request,
            image_sizes,
            device_capacities,
        ) matches Ok(n) ==> n == request.iso_ids@.len() && n == request.usb_ids@.len() && n > 0),
        request.mode == BatchMode::ManualQueue ==> planned_jobs(
            request,
            image_sizes,
            device_capacities,
        ) == Ok::<nat, BatchError>(0),
{
}

/// Whether every batch is kept under its own identifier.
pub open spec fn batches_keyed_by_id(m: Map<u128, FlashBatchView>) -> bool {
    forall|k: u128| #[trigger] m.contains_key(k) ==> m[k].id == k
}

/// Creating, starting and cancelling batches keep every batch under its own
/// identifier.
pub proof fn law_batches_keyed_by_id(m: Map<u128, FlashBatchView>, b: FlashBatchView, id: u128, now: i64)
    requires
        batches_keyed_by_id(m),
    ensures
        batches_keyed_by_id(m.insert(b.id, b)),
        batches_keyed_by_id(start_outcome(m, id, now).0),
        batches_keyed_by_id(cancel_outcome(m, id, now).0),
{
}

} // verus!
