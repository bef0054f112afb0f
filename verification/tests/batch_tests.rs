use usb_station::domain::batch::{BatchCreateRequest, BatchMode, BatchStatus, FlashBatch};
use usb_station::domain::flash::{FlashRequest, FlashStatus};
use usb_station::service::batch::{BatchError, BatchOrchestrator};
use usb_station::service::flash::{FlashJobQueue, FlashOutcome};

fn request(mode: BatchMode, isos: Vec<u128>, usbs: Vec<u128>) -> BatchCreateRequest {
    BatchCreateRequest {
        name: "test".to_string(),
        mode,
        iso_ids: isos,
        usb_ids: usbs,
        max_concurrent: None,
        verify: None,
        priority_rules: None,
    }
}

fn overall_progress(batch: &FlashBatch) -> f64 {
    if batch.total_jobs == 0 {
        return 0.0;
    }
    batch.settled_jobs() as f64 / batch.total_jobs as f64 * 100.0
}

#[test]
fn test_batch_overall_progress() {
    let batch = FlashBatch {
        id: 7,
        name: "test".into(),
        mode: BatchMode::Clone,
        status: BatchStatus::Running,
        jobs: vec![],
        total_jobs: 4,
        completed_jobs: 2,
        failed_jobs: 1,
        max_concurrent: 2,
        created_by: None,
        created_at: 0,
        started_at: None,
        completed_at: None,
        updated_at: 0,
    };
    assert_eq!(batch.settled_jobs(), 3);
    assert_eq!(overall_progress(&batch), 75.0);
}

#[test]
fn clone_mode_makes_one_job_per_device() {
    let mut orch = BatchOrchestrator::new();
    let b = orch
        .create_batch(request(BatchMode::Clone, vec![1], vec![10, 11, 12]), &vec![None], &vec![None, None, None])
        .unwrap();
    assert_eq!(b.jobs.len(), 3);
    assert_eq!(b.total_jobs, 3);
    assert_eq!(b.status, BatchStatus::Draft);
    assert_eq!(b.mode, BatchMode::Clone);
    assert_eq!(b.name, "test");
    assert_eq!(b.max_concurrent, 2);
    assert_eq!(b.completed_jobs, 0);
    assert_eq!(b.failed_jobs, 0);
    assert_eq!(b.created_at, b.updated_at);
    assert!(b.started_at.is_none() && b.completed_at.is_none() && b.created_by.is_none());
    let p = orch.batch_progress(b.id).unwrap();
    assert_eq!(p.total_jobs, 3);
    assert_eq!(p.running_jobs, 3);
    assert_eq!(p.pending_jobs, 0);
    assert!(p.jobs.is_empty());
}

#[test]
fn clone_mode_errors() {
    let mut orch = BatchOrchestrator::new();
    let r = orch.create_batch(request(BatchMode::Clone, vec![], vec![10]), &vec![], &vec![None]);
    assert_eq!(r.err(), Some(BatchError::CloneWithoutImage));
    let r = orch.create_batch(request(BatchMode::Clone, vec![1], vec![]), &vec![None], &vec![]);
    assert_eq!(r.err(), Some(BatchError::CloneWithoutDevice));
}

#[test]
fn sequential_mode_pairs_in_order() {
    let mut orch = BatchOrchestrator::new();
    let mut req = request(BatchMode::Sequential, vec![1, 2], vec![10, 11]);
    req.max_concurrent = Some(5);
    let b = orch.create_batch(req, &vec![None, None], &vec![None, None]).unwrap();
    assert_eq!(b.total_jobs, 2);
    assert_eq!(b.max_concurrent, 5);
    let r = orch.create_batch(request(BatchMode::Sequential, vec![1, 2], vec![10]), &vec![None, None], &vec![None]);
    assert_eq!(r.err(), Some(BatchError::SequentialCountMismatch(2, 1)));
    let r = orch.create_batch(request(BatchMode::Sequential, vec![], vec![]), &vec![], &vec![]);
    assert_eq!(r.err(), Some(BatchError::SequentialEmpty));
}

#[test]
fn smart_assign_counts_pairs_that_fit() {
    let mut orch = BatchOrchestrator::new();
    // images: 1 -> 5 bytes, 2 -> 1 byte, 3 -> 20 bytes, 4 unknown
    // devices: 10 -> 10 bytes, 11 -> 2 bytes, 12 -> 3 bytes
    let b = orch
        .create_batch(
            request(BatchMode::SmartAssign, vec![1, 2, 3, 4], vec![10, 11, 12]),
            &vec![Some(5), Some(1), Some(20), None],
            &vec![Some(10), Some(2), Some(3)],
        )
        .unwrap();
    assert_eq!(b.total_jobs, 2);
    assert_eq!(b.jobs.len(), 2);
    let r = orch.create_batch(request(BatchMode::SmartAssign, vec![1], vec![]), &vec![Some(1)], &vec![]);
    assert_eq!(r.err(), Some(BatchError::SmartAssignEmpty));
    let r = orch.create_batch(request(BatchMode::SmartAssign, vec![], vec![3]), &vec![], &vec![Some(9)]);
    assert_eq!(r.err(), Some(BatchError::SmartAssignEmpty));
}

#[test]
fn manual_queue_starts_empty() {
    let mut orch = BatchOrchestrator::with_max_concurrent(4);
    let b = orch.create_batch(request(BatchMode::ManualQueue, vec![1], vec![2]), &vec![None], &vec![None]).unwrap();
    assert_eq!(b.total_jobs, 0);
    assert!(b.jobs.is_empty());
    let p = orch.batch_progress(b.id).unwrap();
    assert_eq!(p.running_jobs, 0);
}

#[test]
fn start_and_cancel_lifecycle() {
    let mut orch = BatchOrchestrator::new();
    let b = orch.create_batch(request(BatchMode::Clone, vec![1], vec![10]), &vec![None], &vec![None]).unwrap();
    assert_eq!(orch.start_batch_at(b.id, 100), Ok(()));
    let p = orch.batch_progress(b.id).unwrap();
    assert_eq!(p.status, BatchStatus::Running);
    assert_eq!(orch.start_batch(b.id), Err(BatchError::CannotStart(b.id, BatchStatus::Running)));
    let mut jobs = FlashJobQueue::new(2);
    assert_eq!(orch.cancel_batch_at(b.id, &mut jobs, 200), Ok(b.jobs.clone()));
    assert_eq!(orch.batch_progress(b.id).unwrap().status, BatchStatus::Cancelled);
    assert_eq!(orch.cancel_batch(b.id, &mut jobs), Err(BatchError::AlreadyCancelled(b.id)));
    assert_eq!(orch.start_batch(b.id), Err(BatchError::CannotStart(b.id, BatchStatus::Cancelled)));
}

#[test]
fn unknown_batch_is_not_found() {
    let mut orch = BatchOrchestrator::new();
    assert_eq!(orch.start_batch(42), Err(BatchError::NotFound(42)));
    let mut jobs = FlashJobQueue::new(2);
    assert_eq!(orch.cancel_batch(42, &mut jobs), Err(BatchError::NotFound(42)));
    assert!(orch.batch_progress(42).is_none());
}

#[test]
fn other_batches_untouched() {
    let mut orch = BatchOrchestrator::new();
    let a = orch.create_batch(request(BatchMode::Clone, vec![1], vec![10]), &vec![None], &vec![None]).unwrap();
    let b = orch.create_batch(request(BatchMode::Clone, vec![1], vec![10, 11]), &vec![None], &vec![None, None]).unwrap();
    let mut jobs = FlashJobQueue::new(2);
    orch.cancel_batch(a.id, &mut jobs).unwrap();
    assert_eq!(orch.batch_progress(b.id).unwrap().status, BatchStatus::Draft);
    assert_eq!(orch.batch_progress(a.id).unwrap().status, BatchStatus::Cancelled);
}

#[test]
fn created_batch_ids_are_version_4() {
    let mut orch = BatchOrchestrator::new();
    let b = orch.create_batch(request(BatchMode::Clone, vec![1], vec![10]), &vec![None], &vec![None]).unwrap();
    assert_eq!((b.id >> 76) & 0xf, 4);
    assert_eq!((b.jobs[0] >> 76) & 0xf, 4);
}

#[test]
fn batch_cancel_cancels_its_unfinished_jobs() {
    let mut orch = BatchOrchestrator::new();
    let b = orch
        .create_batch(request(BatchMode::Clone, vec![1], vec![10, 11, 12]), &vec![None], &vec![None, None, None])
        .unwrap();
    let mut jobs = FlashJobQueue::new(2);
    let req = |usb: u128| FlashRequest { iso_id: 1, usb_id: usb, verify: Some(false) };
    jobs.enqueue_at(b.jobs[0], 100, req(10), "/iso/a.iso", "/dev/sdb", 4096);
    jobs.enqueue_at(b.jobs[1], 100, req(11), "/iso/a.iso", "/dev/sdc", 4096);
    jobs.enqueue_at(b.jobs[2], 100, req(12), "/iso/a.iso", "/dev/sdd", 4096);
    jobs.enqueue_at(77, 100, req(13), "/iso/a.iso", "/dev/sde", 4096);
    assert!(jobs.claim_job_at(b.jobs[1], 110));
    assert!(jobs.claim_job_at(b.jobs[2], 110));
    assert!(matches!(jobs.after_flash_at(b.jobs[2], Ok(()), 120), FlashOutcome::Finished(Ok(()))));

    assert_eq!(orch.cancel_batch_at(b.id, &mut jobs, 200), Ok(b.jobs.clone()));
    assert_eq!(orch.batch_progress(b.id).unwrap().status, BatchStatus::Cancelled);
    let j0 = jobs.status(b.jobs[0]).unwrap();
    assert_eq!(j0.status, FlashStatus::Cancelled);
    assert_eq!(j0.updated_at, 200);
    assert_eq!(jobs.status(b.jobs[1]).unwrap().status, FlashStatus::Cancelled);
    assert_eq!(jobs.status(b.jobs[2]).unwrap().status, FlashStatus::Completed);
    assert_eq!(jobs.status(77).unwrap().status, FlashStatus::Queued);
}

#[test]
fn batch_error_messages() {
    let id: u128 = 0x67e55044_10b1_426f_9247_bb680dabe0e2;
    assert_eq!(BatchError::NotFound(id).message(), "Batch 67e55044-10b1-426f-9247-bb680dabe0e2 not found");
    assert_eq!(
        BatchError::CannotStart(id, BatchStatus::PartiallyFailed).message(),
        "Batch 67e55044-10b1-426f-9247-bb680dabe0e2 cannot be started (status: PartiallyFailed)"
    );
    assert_eq!(BatchError::AlreadyCompleted(1).message(), "Batch 00000000-0000-0000-0000-000000000001 already completed");
    assert_eq!(BatchError::AlreadyCancelled(id).message(), "Batch 67e55044-10b1-426f-9247-bb680dabe0e2 already cancelled");
    assert_eq!(BatchError::CloneWithoutImage.message(), "Clone mode requires at least 1 ISO");
    assert_eq!(BatchError::CloneWithoutDevice.message(), "Clone mode requires at least 1 USB target");
    assert_eq!(
        BatchError::SequentialCountMismatch(2, 10).message(),
        "Sequential mode requires equal ISOs and USBs. Got 2 ISOs, 10 USBs"
    );
    assert_eq!(BatchError::SequentialEmpty.message(), "At least 1 ISO-USB pair required");
    assert_eq!(BatchError::SmartAssignEmpty.message(), "SmartAssign requires at least 1 ISO and 1 USB");
}
