use maity::sync_queue::{
    sync_queue_enqueue, sync_queue_get_ready_jobs, JobStatus, SyncQueueRepository,
    DEFAULT_MAX_ATTEMPTS, DEFAULT_READY_LIMIT, DEFAULT_STALE_SECONDS,
};
use maity::text::str_le;

const T0: &str = "2024-05-01 10:00:00";
const T1: &str = "2024-05-01 10:01:00";
const T2: &str = "2024-05-01 10:02:00";
const T9: &str = "2024-05-01 10:09:00";

fn ready_ids(q: &SyncQueueRepository, limit: i64, now: &str) -> Vec<i64> {
    q.get_ready_jobs(limit, now).iter().map(|j| j.id).collect()
}

#[test]
fn enqueue_gives_rising_ids_and_pending_rows() {
    let mut q = SyncQueueRepository::new();
    let a = q.enqueue("upload_transcript", "m1", "{}", 3, None, T0).unwrap();
    let b = q.enqueue("finalize_conversation", "m1", "{\"x\":1}", 5, Some(a), T1).unwrap();
    assert_eq!((a, b), (1, 2));
    let job = q.get_job_by_id(b).unwrap();
    assert_eq!(job.job_type, "finalize_conversation");
    assert_eq!(job.meeting_id, "m1");
    assert_eq!(job.payload, "{\"x\":1}");
    assert_eq!(job.status, JobStatus::Pending);
    assert_eq!(job.attempt_count, 0);
    assert_eq!(job.max_attempts, 5);
    assert_eq!(job.depends_on, Some(1));
    assert_eq!(job.created_at, T1);
    assert_eq!(job.updated_at, T1);
    assert_eq!(job.last_error, None);
    assert_eq!(job.completed_at, None);
    assert!(q.get_job_by_id(3).is_none());
}

#[test]
fn a_dependent_job_waits_for_its_dependency() {
    let mut q = SyncQueueRepository::new();
    let a = q.enqueue("upload_transcript", "m1", "", 3, None, T0).unwrap();
    let b = q.enqueue("finalize_conversation", "m1", "", 3, Some(a), T0).unwrap();
    assert_eq!(ready_ids(&q, 10, T1), vec![a]);
    assert!(q.claim_job(a, T1));
    assert_eq!(ready_ids(&q, 10, T1), Vec::<i64>::new());
    assert!(q.complete_job(a, Some("conv-42"), T2));
    assert_eq!(ready_ids(&q, 10, T2), vec![b]);
    assert_eq!(q.get_dependency_result(b), Some("conv-42".to_string()));
    assert_eq!(q.get_dependency_result(a), None);
    assert_eq!(q.get_dependency_result(99), None);
}

#[test]
fn a_dependency_on_a_missing_job_is_never_met() {
    let mut q = SyncQueueRepository::new();
    let a = q.enqueue("upload_transcript", "m1", "", 3, Some(77), T0).unwrap();
    assert_eq!(ready_ids(&q, 10, T9), Vec::<i64>::new());
    assert_eq!(q.get_dependency_result(a), None);
}

#[test]
fn claiming_takes_only_pending_jobs() {
    let mut q = SyncQueueRepository::new();
    let a = q.enqueue("upload_transcript", "m1", "", 3, None, T0).unwrap();
    assert!(q.claim_job(a, T1));
    assert!(!q.claim_job(a, T2));
    let job = q.get_job_by_id(a).unwrap();
    assert_eq!(job.status, JobStatus::InProgress);
    assert_eq!(job.updated_at, T1);
    assert!(!q.claim_job(42, T2));
}

#[test]
fn a_failed_attempt_waits_for_its_retry_time() {
    let mut q = SyncQueueRepository::new();
    let a = q.enqueue("upload_transcript", "m1", "", 3, None, T0).unwrap();
    assert!(q.claim_job(a, T0));
    assert!(q.fail_job(a, "timeout", Some(T2), T1));
    let job = q.get_job_by_id(a).unwrap();
    assert_eq!(job.status, JobStatus::Pending);
    assert_eq!(job.attempt_count, 1);
    assert_eq!(job.last_error, Some("timeout".to_string()));
    assert_eq!(job.next_retry_at, Some(T2.to_string()));
    assert_eq!(ready_ids(&q, 10, T1), Vec::<i64>::new());
    assert_eq!(ready_ids(&q, 10, T2), vec![a]);
    assert_eq!(ready_ids(&q, 10, T9), vec![a]);
}

#[test]
fn a_job_fails_for_good_once_its_attempts_are_used_up() {
    let mut q = SyncQueueRepository::new();
    let a = q.enqueue("upload_transcript", "m1", "", 2, None, T0).unwrap();
    assert!(q.fail_job(a, "first", Some(T1), T0));
    assert_eq!(q.get_job_by_id(a).unwrap().status, JobStatus::Pending);
    assert!(q.fail_job(a, "second", Some(T2), T1));
    let job = q.get_job_by_id(a).unwrap();
    assert_eq!(job.status, JobStatus::Failed);
    assert_eq!(job.attempt_count, 2);
    assert_eq!(job.next_retry_at, None);
    assert_eq!(job.last_error, Some("second".to_string()));
    assert_eq!(ready_ids(&q, 10, T9), Vec::<i64>::new());
    assert!(!q.fail_job(9, "none", None, T1));
}

#[test]
fn ready_jobs_come_in_id_order_up_to_the_limit() {
    let mut q = SyncQueueRepository::new();
    for _ in 0..4 {
        q.enqueue("upload_transcript", "m1", "", 3, None, T0).unwrap();
    }
    assert_eq!(ready_ids(&q, 2, T0), vec![1, 2]);
    assert_eq!(ready_ids(&q, 0, T0), Vec::<i64>::new());
    assert_eq!(ready_ids(&q, -1, T0), vec![1, 2, 3, 4]);
    assert_eq!(ready_ids(&q, 10, T0), vec![1, 2, 3, 4]);
}

#[test]
fn meeting_status_counts_jobs_by_status() {
    let mut q = SyncQueueRepository::new();
    let a = q.enqueue("a", "m1", "", 1, None, T0).unwrap();
    let b = q.enqueue("b", "m1", "", 3, None, T0).unwrap();
    let c = q.enqueue("c", "m1", "", 3, None, T0).unwrap();
    q.enqueue("d", "m1", "", 3, None, T0).unwrap();
    q.enqueue("e", "m2", "", 3, None, T0).unwrap();
    assert!(q.fail_job(a, "boom", None, T1));
    assert!(q.claim_job(b, T1));
    assert!(q.complete_job(c, None, T1));
    let st = q.get_meeting_sync_status("m1").unwrap();
    assert_eq!(st.meeting_id, "m1");
    assert_eq!(
        (st.total_jobs, st.pending, st.in_progress, st.completed, st.failed),
        (4, 1, 1, 1, 1)
    );
    assert!(q.get_meeting_sync_status("m3").is_none());
}

#[test]
fn all_statuses_cover_meetings_with_open_jobs() {
    let mut q = SyncQueueRepository::new();
    let a = q.enqueue("a", "done", "", 3, None, T0).unwrap();
    q.enqueue("b", "busy", "", 3, None, T0).unwrap();
    let c = q.enqueue("c", "broken", "", 1, None, T0).unwrap();
    q.enqueue("d", "busy", "", 3, None, T0).unwrap();
    assert!(q.complete_job(a, Some("ok"), T1));
    assert!(q.fail_job(c, "boom", None, T1));
    let all = q.get_all_sync_statuses();
    let names: Vec<&str> = all.iter().map(|s| s.meeting_id.as_str()).collect();
    assert_eq!(names, vec!["busy", "broken"]);
    assert_eq!(all[0].total_jobs, 2);
    assert_eq!(all[0].pending, 2);
    assert_eq!(all[1].failed, 1);
}

#[test]
fn stale_claims_return_to_pending() {
    let mut q = SyncQueueRepository::new();
    let a = q.enqueue("a", "m1", "", 3, None, T0).unwrap();
    let b = q.enqueue("b", "m1", "", 3, None, T0).unwrap();
    assert!(q.claim_job(a, T0));
    assert!(q.claim_job(b, T2));
    assert_eq!(q.reset_stale_jobs(T1, T9), 1);
    let ja = q.get_job_by_id(a).unwrap();
    assert_eq!(ja.status, JobStatus::Pending);
    assert_eq!(ja.updated_at, T9);
    assert_eq!(q.get_job_by_id(b).unwrap().status, JobStatus::InProgress);
    assert_eq!(q.reset_stale_jobs(T1, T9), 0);
}

#[test]
fn cancelling_a_meeting_keeps_its_finished_jobs() {
    let mut q = SyncQueueRepository::new();
    let a = q.enqueue("a", "m1", "", 3, None, T0).unwrap();
    let b = q.enqueue("b", "m1", "", 3, None, T0).unwrap();
    let c = q.enqueue("c", "m1", "", 3, None, T0).unwrap();
    let d = q.enqueue("d", "m2", "", 3, None, T0).unwrap();
    assert!(q.claim_job(b, T1));
    assert!(q.complete_job(c, None, T1));
    assert_eq!(q.cancel_jobs_for_meeting("m1"), 2);
    assert!(q.get_job_by_id(a).is_none());
    assert!(q.get_job_by_id(b).is_none());
    assert_eq!(q.get_job_by_id(c).unwrap().status, JobStatus::Completed);
    assert!(q.get_job_by_id(d).is_some());
    let e = q.enqueue("e", "m1", "", 3, None, T2).unwrap();
    assert_eq!(e, 5);
}

#[test]
fn deleting_a_meeting_removes_all_its_jobs() {
    let mut q = SyncQueueRepository::new();
    q.enqueue("a", "m1", "", 3, None, T0).unwrap();
    let b = q.enqueue("b", "m1", "", 3, None, T0).unwrap();
    let c = q.enqueue("c", "m2", "", 3, None, T0).unwrap();
    assert!(q.complete_job(b, None, T1));
    assert_eq!(q.delete_by_meeting("m1"), 2);
    assert!(q.get_meeting_sync_status("m1").is_none());
    assert!(q.get_job_by_id(c).is_some());
    assert_eq!(q.delete_by_meeting("m1"), 0);
}

#[test]
fn cleanup_removes_jobs_completed_by_the_cutoff() {
    let mut q = SyncQueueRepository::new();
    let a = q.enqueue("a", "m1", "", 3, None, T0).unwrap();
    let b = q.enqueue("b", "m1", "", 3, None, T0).unwrap();
    let c = q.enqueue("c", "m1", "", 3, None, T0).unwrap();
    assert!(q.complete_job(a, None, T0));
    assert!(q.complete_job(b, None, T2));
    assert_eq!(q.cleanup_old_completed(T1), 1);
    assert!(q.get_job_by_id(a).is_none());
    assert!(q.get_job_by_id(b).is_some());
    assert!(q.get_job_by_id(c).is_some());
}

#[test]
fn finalize_result_comes_from_the_first_completed_finalize_job() {
    let mut q = SyncQueueRepository::new();
    let a = q.enqueue("finalize_conversation", "m1", "", 3, None, T0).unwrap();
    let b = q.enqueue("finalize_conversation", "m1", "", 3, None, T0).unwrap();
    let c = q.enqueue("upload_transcript", "m1", "", 3, None, T0).unwrap();
    assert_eq!(q.get_completed_finalize_result("m1"), None);
    assert!(q.complete_job(c, Some("not-this"), T1));
    assert_eq!(q.get_completed_finalize_result("m1"), None);
    assert!(q.complete_job(b, Some("conv-b"), T1));
    assert_eq!(q.get_completed_finalize_result("m1"), Some("conv-b".to_string()));
    assert!(q.complete_job(a, Some("conv-a"), T2));
    assert_eq!(q.get_completed_finalize_result("m1"), Some("conv-a".to_string()));
    assert_eq!(q.get_completed_finalize_result("m2"), None);
}

#[test]
fn command_defaults_fill_missing_arguments() {
    let mut q = SyncQueueRepository::new();
    let a = sync_queue_enqueue(&mut q, "a", "m1", "", None, None, T0).unwrap();
    assert_eq!(q.get_job_by_id(a).unwrap().max_attempts, DEFAULT_MAX_ATTEMPTS);
    assert_eq!(DEFAULT_MAX_ATTEMPTS, 10);
    for _ in 0..12 {
        sync_queue_enqueue(&mut q, "a", "m1", "", Some(1), None, T0).unwrap();
    }
    assert_eq!(sync_queue_get_ready_jobs(&q, None, T0).len(), 10);
    assert_eq!(DEFAULT_READY_LIMIT, 10);
    assert_eq!(sync_queue_get_ready_jobs(&q, Some(3), T0).len(), 3);
    assert_eq!(DEFAULT_STALE_SECONDS, 300);
}

#[test]
fn status_text_matches_the_stored_values() {
    assert_eq!(JobStatus::Pending.as_str(), "pending");
    assert_eq!(JobStatus::InProgress.as_str(), "in_progress");
    assert_eq!(JobStatus::Completed.as_str(), "completed");
    assert_eq!(JobStatus::Failed.as_str(), "failed");
}

#[test]
fn text_order_is_sqlite_text_order() {
    assert!(str_le(T0, T1));
    assert!(str_le(T1, T1));
    assert!(!str_le(T2, T1));
    assert!(str_le("2024-05-01", "2024-05-01 00:00:00"));
    assert!(!str_le("2024-05-01T00:00:00", "2024-05-01 23:59:59"));
    assert!(str_le("", "a"));
    assert!(str_le("Z", "a"));
    assert!(str_le("é", "€"));
}

#[test]
fn a_queue_is_rebuilt_from_its_rows() {
    let mut q = SyncQueueRepository::new();
    let a = q.enqueue("a", "m1", "p", 3, None, T0).unwrap();
    q.enqueue("b", "m2", "", 3, Some(a), T0).unwrap();
    assert!(q.claim_job(a, T1));
    let rows = q.to_rows();
    assert_eq!(rows.len(), 2);
    assert_eq!(q.next_id(), 3);
    let mut back = SyncQueueRepository::from_rows(rows, q.next_id()).unwrap();
    assert_eq!(back.get_job_by_id(a).unwrap().status, JobStatus::InProgress);
    assert_eq!(back.enqueue("c", "m1", "", 3, None, T2).unwrap(), 3);
}

#[test]
fn rows_out_of_order_build_no_queue() {
    let mut q = SyncQueueRepository::new();
    q.enqueue("a", "m1", "", 3, None, T0).unwrap();
    q.enqueue("b", "m1", "", 3, None, T0).unwrap();
    let mut rows = q.to_rows();
    rows.swap(0, 1);
    assert!(SyncQueueRepository::from_rows(rows, 3).is_none());
    assert!(SyncQueueRepository::from_rows(q.to_rows(), 2).is_none());
    assert!(SyncQueueRepository::from_rows(Vec::new(), 0).is_none());
    assert!(SyncQueueRepository::from_rows(Vec::new(), 1).is_some());
}
