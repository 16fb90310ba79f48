use papra_vector_search::jobs::{JobQueue, JobRow, JobStatus, DEBOUNCE_SECONDS, POLL_SECONDS, RETRY_SECONDS};

#[test]
fn claims_the_oldest_eligible_job() {
    let mut q = JobQueue::new();
    q.enqueue_embedding("b", "2026-01-01T00:00:05Z");
    q.enqueue_embedding("a", "2026-01-01T00:00:01Z");
    q.enqueue_embedding("c", "2026-01-01T00:00:09Z");
    assert!(q.claim_embedding_job("2026-01-01T00:00:00Z").is_none());
    let job = q.claim_embedding_job("2026-01-01T00:00:06Z").unwrap();
    assert_eq!(job.document_id, "a");
    assert_eq!(job.attempts, 0);
    assert_eq!(q.get("a").unwrap().status, JobStatus::Running);
    let job = q.claim_embedding_job("2026-01-01T00:00:06Z").unwrap();
    assert_eq!(job.document_id, "b");
    assert!(q.claim_embedding_job("2026-01-01T00:00:06Z").is_none());
}

#[test]
fn finished_job_leaves_the_queue() {
    let mut q = JobQueue::new();
    q.enqueue_embedding("doc", "t1");
    let job = q.claim_embedding_job("t1").unwrap();
    q.finish_embedding_job(&job);
    assert!(q.get("doc").is_none());
    assert!(q.rows().is_empty());
}

#[test]
fn failed_job_is_retried_once_then_kept_as_failed() {
    let mut q = JobQueue::new();
    q.enqueue_embedding("doc", "t1");
    let job = q.claim_embedding_job("t1").unwrap();
    q.fail_embedding_job(&job, "boom", "t2");
    let row = q.get("doc").unwrap();
    assert_eq!((row.status, row.attempts, row.received_at.as_str()), (JobStatus::Pending, 1, "t2"));
    assert_eq!(row.last_error.as_deref(), Some("boom"));
    assert!(q.claim_embedding_job("t1").is_none());
    let job = q.claim_embedding_job("t2").unwrap();
    q.fail_embedding_job(&job, "again", "t3");
    let row = q.get("doc").unwrap();
    assert_eq!((row.status, row.attempts, row.received_at.as_str()), (JobStatus::Failed, 2, "t2"));
    assert_eq!(row.last_error.as_deref(), Some("again"));
    assert!(q.claim_embedding_job("t9").is_none());
    q.enqueue_embedding("doc", "t4");
    let row = q.get("doc").unwrap();
    assert_eq!((row.status, row.attempts, row.last_error.clone()), (JobStatus::Pending, 0, None));
}

#[test]
fn failure_after_an_update_requeues_without_counting() {
    let mut q = JobQueue::new();
    q.enqueue_embedding("doc", "t1");
    let job = q.claim_embedding_job("t1").unwrap();
    q.enqueue_embedding("doc", "t5");
    assert_eq!(q.get("doc").unwrap().status, JobStatus::Running);
    q.fail_embedding_job(&job, "boom", "t6");
    let row = q.get("doc").unwrap();
    assert_eq!((row.status, row.attempts, row.received_at.as_str()), (JobStatus::Pending, 0, "t6"));
}

#[test]
fn rows_round_trip_and_duplicates_are_refused() {
    let row = |id: &str, status: JobStatus, attempts: i64| JobRow {
        document_id: id.into(),
        received_at: "t".into(),
        status,
        attempts,
        last_error: None,
    };
    let q = JobQueue::from_rows(vec![row("a", JobStatus::Pending, 0), row("b", JobStatus::Failed, 2)]).unwrap();
    assert_eq!(q.rows().len(), 2);
    assert!(JobQueue::from_rows(vec![row("a", JobStatus::Pending, 0), row("a", JobStatus::Running, 1)]).is_none());
    assert!(JobQueue::from_rows(vec![row("a", JobStatus::Running, i64::MAX)]).is_none());
    assert_eq!(JobStatus::parse("running"), Some(JobStatus::Running));
    assert_eq!(JobStatus::parse("done"), None);
    assert_eq!(JobStatus::Failed.as_str(), "failed");
}

#[test]
fn completing_a_job_finishes_or_schedules_its_retry() {
    let mut queue = JobQueue::new();
    queue.enqueue_embedding("a", "t0");
    queue.enqueue_embedding("b", "t0");
    let job = queue.claim_embedding_job("t1").unwrap();
    let other = if job.document_id == "a" { "b" } else { "a" };
    queue.complete_embedding_job(&job, Ok(()), "t9");
    assert!(queue.get(&job.document_id).is_none());
    let job = queue.claim_embedding_job("t1").unwrap();
    assert_eq!(job.document_id, other);
    queue.complete_embedding_job(&job, Err("boom".to_owned()), "t9");
    let row = queue.get(other).unwrap();
    assert_eq!(row.status, JobStatus::Pending);
    assert_eq!(row.received_at, "t9");
    assert_eq!(row.attempts, 1);
    assert_eq!(row.last_error.as_deref(), Some("boom"));
    assert_eq!((POLL_SECONDS, DEBOUNCE_SECONDS, RETRY_SECONDS), (60, 60, 60));
}
