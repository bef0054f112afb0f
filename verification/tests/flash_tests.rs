use usb_station::domain::flash::{FlashEngine, FlashJobProgress, FlashRequest, FlashStatus};
use usb_station::service::flash::{
    cancelled_run_error, parse_dd_line, select_engine, verification_result, FlashCommand, FlashJobQueue, FlashOutcome,
    ParsedProgress, QueueError,
};

fn queue_with_job(verify: Option<bool>) -> (FlashJobQueue, u128) {
    let mut q = FlashJobQueue::new(2);
    let (job, _) = q.enqueue_at(5, 1000, FlashRequest { iso_id: 1, usb_id: 2, verify }, "/iso/a.iso", "/dev/sdb", 4096);
    (q, job.id)
}

#[test]
fn enqueue_makes_a_queued_job_and_a_command() {
    let mut q = FlashJobQueue::new(2);
    let (job, cmd) = q.enqueue(FlashRequest { iso_id: 1, usb_id: 2, verify: None }, "/iso/a.iso", "/dev/sdb", 4096);
    assert_eq!(job.status, FlashStatus::Queued);
    assert!(job.verify);
    assert_eq!(job.total_bytes, 4096);
    assert_eq!(job.iso_id, 1);
    assert_eq!(job.usb_id, 2);
    assert_eq!(job.created_at, job.updated_at);
    assert_eq!((job.id >> 76) & 0xf, 4);
    match cmd {
        FlashCommand::Execute { job_id, iso_path, device_path } => {
            assert_eq!(job_id, job.id);
            assert_eq!(iso_path, "/iso/a.iso");
            assert_eq!(device_path, "/dev/sdb");
        }
        FlashCommand::Cancel(_) => panic!("expected an execute command"),
    }
    let read = q.status(job.id).unwrap();
    assert_eq!(read.status, FlashStatus::Queued);
    assert_eq!(q.total_bytes(job.id), 4096);
    assert_eq!(q.total_bytes(job.id + 1), 0);
    assert!(q.status(job.id + 1).is_none());
}

#[test]
fn a_job_is_claimed_once() {
    let (mut q, id) = queue_with_job(Some(false));
    assert!(q.claim_job_at(id, 2000));
    let job = q.status(id).unwrap();
    assert_eq!(job.status, FlashStatus::Flashing);
    assert_eq!(job.started_at, Some(2000));
    assert!(!q.claim_job(id));
    assert!(!q.claim_job(999));
}

#[test]
fn cancel_rules() {
    let (mut q, id) = queue_with_job(Some(false));
    assert_eq!(q.cancel(999), Err(QueueError::NotFound(999)));
    assert_eq!(q.cancel_at(id, 3000), Ok(()));
    assert_eq!(q.status(id).unwrap().status, FlashStatus::Cancelled);
    assert!(!q.claim_job(id));
    match q.after_flash(id, Ok(())) {
        FlashOutcome::Cancelled => {}
        _ => panic!("expected the job to be reported cancelled"),
    }
    assert_eq!(q.status(id).unwrap().status, FlashStatus::Cancelled);
}

#[test]
fn finished_job_cannot_be_cancelled() {
    let (mut q, id) = queue_with_job(Some(false));
    assert!(q.claim_job(id));
    match q.after_flash_at(id, Ok(()), 5000) {
        FlashOutcome::Finished(Ok(())) => {}
        _ => panic!("expected completion"),
    }
    let job = q.status(id).unwrap();
    assert_eq!(job.status, FlashStatus::Completed);
    assert_eq!((job.progress_done, job.progress_of), (1, 1));
    assert_eq!(job.completed_at, Some(5000));
    assert_eq!(q.cancel(id), Err(QueueError::AlreadyFinished(id)));
}

#[test]
fn verification_follows_a_write() {
    let (mut q, id) = queue_with_job(None);
    assert!(q.claim_job(id));
    match q.after_flash(id, Ok(())) {
        FlashOutcome::Verify => {}
        _ => panic!("expected verification"),
    }
    assert_eq!(q.status(id).unwrap().status, FlashStatus::Verifying);
    assert_eq!(q.after_verify_at(id, Err("SHA256 mismatch".to_string()), 7000), Err("SHA256 mismatch".to_string()));
    let job = q.status(id).unwrap();
    assert_eq!(job.status, FlashStatus::Failed);
    assert_eq!(job.error_message.as_deref(), Some("SHA256 mismatch"));
    assert_eq!(job.completed_at, Some(7000));
}

#[test]
fn verified_write_completes() {
    let (mut q, id) = queue_with_job(Some(true));
    assert!(q.claim_job(id));
    assert!(matches!(q.after_flash(id, Ok(())), FlashOutcome::Verify));
    assert_eq!(q.after_verify(id, Ok(())), Ok(()));
    assert_eq!(q.status(id).unwrap().status, FlashStatus::Completed);
}

#[test]
fn failed_write_fails_the_job() {
    let (mut q, id) = queue_with_job(Some(true));
    assert!(q.claim_job(id));
    match q.after_flash(id, Err("dd failed with exit code: Some(1)".to_string())) {
        FlashOutcome::Finished(Err(e)) => assert_eq!(e, "dd failed with exit code: Some(1)"),
        _ => panic!("expected failure"),
    }
    let job = q.status(id).unwrap();
    assert_eq!(job.status, FlashStatus::Failed);
    assert_eq!(job.error_message.as_deref(), Some("dd failed with exit code: Some(1)"));
}

#[test]
fn missing_job_still_gets_an_outcome() {
    let mut q = FlashJobQueue::new(1);
    assert!(matches!(q.after_flash(3, Ok(())), FlashOutcome::Finished(Ok(()))));
    assert_eq!(q.after_verify(3, Ok(())), Ok(()));
}

#[test]
fn progress_is_recorded() {
    let (mut q, id) = queue_with_job(Some(false));
    let p = ParsedProgress::from_parts(1024, 512, 4096);
    assert_eq!(p.eta_seconds, Some(6));
    q.record_progress_at(id, &p, 4000);
    let job = q.status(id).unwrap();
    assert_eq!(job.bytes_written, 1024);
    assert_eq!((job.progress_done, job.progress_of), (1024, 4096));
    assert_eq!(job.speed_bytes_per_sec, 512);
    assert_eq!(job.eta_seconds, Some(6));
    assert_eq!(job.updated_at, 4000);
    let report: FlashJobProgress = p.report(id, 4096);
    assert_eq!(report.status, FlashStatus::Flashing);
    assert_eq!(report.total_bytes, 4096);
}

#[test]
fn eta_edge_cases() {
    assert_eq!(ParsedProgress::from_parts(10, 0, 100).eta_seconds, None);
    assert_eq!(ParsedProgress::from_parts(100, 5, 100).eta_seconds, None);
    assert_eq!(ParsedProgress::from_parts(0, 3, 10).eta_seconds, Some(3));
    assert_eq!(ParsedProgress::from_parts(7, 1, 0).progress_of, 0);
}

#[test]
fn dd_progress_lines() {
    let d = parse_dd_line("1073741824 bytes (1.1 GB, 1.0 GiB) copied, 10.5 s, 102 MB/s").unwrap();
    assert_eq!(d.bytes_written, 1073741824);
    assert_eq!(d.seconds, "10.5");
    assert_eq!(d.speed, "102");
    assert!(!d.speed_in_gb);
    let d = parse_dd_line("5368709120 bytes (5.4 GB, 5.0 GiB) copied, 4 s, 1.3 GB/s").unwrap();
    assert_eq!(d.bytes_written, 5368709120);
    assert_eq!(d.speed, "1.3");
    assert!(d.speed_in_gb);
    assert!(parse_dd_line("dd: writing to '/dev/sdb': No space left on device").is_none());
    assert!(parse_dd_line("99999999999999999999 bytes copied, 1 s, 2 MB/s").is_none());
}

#[test]
fn engine_choice() {
    assert_eq!(select_engine(true, true), Ok(FlashEngine::Dd));
    assert_eq!(select_engine(true, false), Ok(FlashEngine::Dd));
    assert_eq!(select_engine(false, true), Ok(FlashEngine::Bmaptool));
    assert_eq!(select_engine(false, false), Err("No suitable flash engine found".to_string()));
    assert_eq!(cancelled_run_error(), "Job was cancelled");
}

#[test]
fn digests_compare() {
    assert_eq!(verification_result("abc", "abc"), Ok(()));
    assert_eq!(
        verification_result("abc", "abd"),
        Err("SHA256 mismatch: written data does not match source ISO".to_string())
    );
}

#[test]
fn status_change_report() {
    let r = FlashJobProgress::status_change(9, FlashStatus::Verifying);
    assert_eq!(r.job_id, 9);
    assert_eq!(r.status, FlashStatus::Verifying);
    assert_eq!((r.progress_done, r.progress_of, r.bytes_written, r.total_bytes), (0, 0, 0, 0));
    assert!(r.eta_seconds.is_none());
}

#[test]
fn other_jobs_untouched() {
    let mut q = FlashJobQueue::new(2);
    let (a, _) = q.enqueue_at(1, 10, FlashRequest { iso_id: 1, usb_id: 2, verify: None }, "/a", "/dev/sdb", 1);
    let (b, _) = q.enqueue_at(2, 10, FlashRequest { iso_id: 3, usb_id: 4, verify: Some(false) }, "/b", "/dev/sdc", 2);
    assert!(q.claim_job(a.id));
    assert_eq!(q.cancel(a.id), Ok(()));
    let read = q.status(b.id).unwrap();
    assert_eq!(read.id, b.id);
    assert_eq!(read.status, FlashStatus::Queued);
    assert!(!read.verify);
    assert_eq!(read.created_at, 10);
}

#[test]
fn queue_error_messages() {
    let id: u128 = 0x67e55044_10b1_426f_9247_bb680dabe0e2;
    assert_eq!(QueueError::NotFound(id).message(), "Job 67e55044-10b1-426f-9247-bb680dabe0e2 not found");
    assert_eq!(QueueError::AlreadyFinished(0).message(), "Job 00000000-0000-0000-0000-000000000000 already finished");
}

#[test]
fn claims_after_the_first_are_refused() {
    let (mut q, id) = queue_with_job(None);
    assert!(q.claim_job_at(id, 10));
    for t in 11..20 {
        assert!(!q.claim_job_at(id, t));
    }
    let job = q.status(id).unwrap();
    assert_eq!(job.status, FlashStatus::Flashing);
    assert_eq!(job.started_at, Some(10));
}
