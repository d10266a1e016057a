use maity::recording_log::{RecordingLogRepository, EXPORT_LOG_LIMIT};

fn ids(v: &[maity::recording_log::RecordingLog]) -> Vec<i64> {
    v.iter().map(|l| l.id).collect()
}

fn log(r: &mut RecordingLogRepository, session: &str, event: &str, meeting: Option<&str>, at: &str) -> i64 {
    r.log_event(session, event, None, Some("ok"), None, meeting, Some("1.0.0"), None, at)
        .unwrap()
}

#[test]
fn logged_events_keep_their_fields() {
    let mut r = RecordingLogRepository::new();
    let id = r
        .log_event(
            "s1",
            "recording_started",
            Some("{\"mic\":true}"),
            Some("ok"),
            Some("none"),
            Some("m1"),
            Some("1.2.3"),
            Some("macOS"),
            "2024-05-01 10:00:00",
        )
        .unwrap();
    assert_eq!(id, 1);
    let all = r.get_logs_by_session("s1");
    assert_eq!(all.len(), 1);
    let e = &all[0];
    assert_eq!(e.event_type, "recording_started");
    assert_eq!(e.event_data.as_deref(), Some("{\"mic\":true}"));
    assert_eq!(e.status.as_deref(), Some("ok"));
    assert_eq!(e.error.as_deref(), Some("none"));
    assert_eq!(e.meeting_id.as_deref(), Some("m1"));
    assert_eq!(e.app_version.as_deref(), Some("1.2.3"));
    assert_eq!(e.device_info.as_deref(), Some("macOS"));
    assert!(!e.synced_to_cloud);
    assert_eq!(e.created_at, "2024-05-01 10:00:00");
}

#[test]
fn session_events_are_listed_oldest_first() {
    let mut r = RecordingLogRepository::new();
    let a = log(&mut r, "s1", "stop", None, "2024-05-01 10:05:00");
    let b = log(&mut r, "s2", "start", None, "2024-05-01 10:00:00");
    let c = log(&mut r, "s1", "start", None, "2024-05-01 10:00:00");
    let d = log(&mut r, "s1", "pause", None, "2024-05-01 10:02:00");
    let e = log(&mut r, "s1", "resume", None, "2024-05-01 10:02:00");
    assert_eq!(ids(&r.get_logs_by_session("s1")), vec![c, d, e, a]);
    assert_eq!(ids(&r.get_logs_by_session("s2")), vec![b]);
    assert!(r.get_logs_by_session("s3").is_empty());
}

#[test]
fn recent_events_are_listed_newest_first() {
    let mut r = RecordingLogRepository::new();
    let a = log(&mut r, "s1", "a", None, "2024-05-01 10:00:00");
    let b = log(&mut r, "s1", "b", None, "2024-05-01 10:03:00");
    let c = log(&mut r, "s2", "c", None, "2024-05-01 10:01:00");
    let d = log(&mut r, "s2", "d", None, "2024-05-01 10:03:00");
    assert_eq!(ids(&r.get_recent_logs(10)), vec![d, b, c, a]);
    assert_eq!(ids(&r.get_recent_logs(2)), vec![d, b]);
    assert_eq!(ids(&r.get_recent_logs(-1)), vec![d, b, c, a]);
    assert!(r.get_recent_logs(0).is_empty());
    assert_eq!(EXPORT_LOG_LIMIT, 500);
}

#[test]
fn uploaded_events_leave_the_upload_list() {
    let mut r = RecordingLogRepository::new();
    let a = log(&mut r, "s1", "a", None, "2024-05-01 10:02:00");
    let b = log(&mut r, "s1", "b", None, "2024-05-01 10:00:00");
    let c = log(&mut r, "s1", "c", None, "2024-05-01 10:01:00");
    assert_eq!(ids(&r.get_unsynced_logs(10)), vec![b, c, a]);
    assert_eq!(ids(&r.get_unsynced_logs(1)), vec![b]);
    assert_eq!(r.mark_as_synced(&[]), 0);
    assert_eq!(r.mark_as_synced(&[b, 99, c]), 2);
    assert_eq!(ids(&r.get_unsynced_logs(10)), vec![a]);
    assert_eq!(r.mark_as_synced(&[b]), 1);
    let all = r.get_logs_by_session("s1");
    let synced: Vec<bool> = all.iter().map(|l| l.synced_to_cloud).collect();
    assert_eq!(synced, vec![true, true, false]);
}

#[test]
fn deleting_a_meeting_keeps_events_of_no_meeting() {
    let mut r = RecordingLogRepository::new();
    let a = log(&mut r, "s1", "a", Some("m1"), "2024-05-01 10:00:00");
    let b = log(&mut r, "s1", "b", None, "2024-05-01 10:01:00");
    let c = log(&mut r, "s1", "c", Some("m2"), "2024-05-01 10:02:00");
    let d = log(&mut r, "s1", "d", Some("m1"), "2024-05-01 10:03:00");
    assert_eq!(r.delete_by_meeting("m1"), 2);
    assert_eq!(ids(&r.get_logs_by_session("s1")), vec![b, c]);
    assert_eq!(r.delete_by_meeting("m1"), 0);
    let next = log(&mut r, "s1", "e", None, "2024-05-01 10:04:00");
    assert!(next > d && next > a);
}

#[test]
fn a_log_is_rebuilt_from_its_rows() {
    let mut r = RecordingLogRepository::new();
    let a = log(&mut r, "s1", "a", None, "2024-05-01 10:00:00");
    log(&mut r, "s1", "b", None, "2024-05-01 10:01:00");
    assert_eq!(r.next_id(), 3);
    let mut rows = r.to_rows();
    assert_eq!(ids(&rows), vec![1, 2]);
    let back = RecordingLogRepository::from_rows(r.to_rows(), 3).unwrap();
    assert_eq!(ids(&back.get_logs_by_session("s1")), vec![a, 2]);
    rows.reverse();
    assert!(RecordingLogRepository::from_rows(rows, 3).is_none());
    assert!(RecordingLogRepository::from_rows(r.to_rows(), 1).is_none());
}
