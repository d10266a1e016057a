use maity::lifecycle::{
    preferences_in_force, reported_provider, shutdown_progress, started_devices,
    stop_recording_step, stopped_metadata, transcription_wait_over, RecordingPreferences,
    ShutdownStage, StopAction, StopEvent,
};
use maity::logs::{
    check_export, export_file_name, generate_system_info, get_log_directory, get_logs_total_size,
    logs_to_delete, select_log_files, set_log_directory, DirEntry, LogDirectoryCell, SystemFacts,
};
use maity::monitor::{is_monitoring, reported_device_name, select_monitor_device, LevelMonitor};

fn entry(path: &str, is_file: bool, ext: Option<&str>, modified: Option<i128>) -> DirEntry {
    DirEntry {
        path: path.to_string(),
        is_file,
        extension: ext.map(|e| e.to_string()),
        modified,
    }
}

#[test]
fn log_files_newest_first() {
    let entries = vec![
        entry("a.log", true, Some("log"), Some(10)),
        entry("b.txt", true, Some("txt"), Some(50)),
        entry("c.log", true, Some("log"), Some(30)),
        entry("dir.log", false, Some("log"), Some(99)),
        entry("d.log", true, Some("log"), None),
        entry("e.log", true, Some("log"), Some(30)),
        entry("f", true, None, Some(70)),
    ];
    assert_eq!(select_log_files(&entries), vec!["c.log", "e.log", "a.log", "d.log"]);
    assert!(select_log_files(&vec![]).is_empty());
}

#[test]
fn total_size_counts_readable_files() {
    assert_eq!(get_logs_total_size(&vec![Some(100), None, Some(23)]), 123);
    assert_eq!(get_logs_total_size(&vec![]), 0);
}

#[test]
fn log_directory_is_set_once() {
    let mut cell = LogDirectoryCell::new();
    assert!(get_log_directory(&cell).is_none());
    assert!(set_log_directory(&mut cell, "/var/log/maity".to_string()).is_ok());
    assert_eq!(set_log_directory(&mut cell, "/tmp".to_string()).err().unwrap(), "/tmp");
    assert_eq!(get_log_directory(&cell).as_deref(), Some("/var/log/maity"));
}

#[test]
fn recording_start_and_stop_decisions() {
    let p = preferences_in_force(Err("unreadable".to_string()));
    assert!(p.auto_save);
    assert!(p.preferred_mic_device.is_none());
    let saved = RecordingPreferences {
        auto_save: false,
        preferred_mic_device: Some("USB".to_string()),
        preferred_system_device: None,
    };
    assert!(!preferences_in_force(Ok(saved)).auto_save);
    let (mic, sys) = started_devices(Some("USB".to_string()), None);
    assert_eq!(mic, "USB");
    assert_eq!(sys, "Default System Audio");
    let (stage, message, progress) = shutdown_progress(ShutdownStage::Finalizing);
    assert_eq!(stage, "finalizing");
    assert_eq!(message, "Finalizing recording and cleaning up resources...");
    assert_eq!(progress, 90);
    assert_eq!(shutdown_progress(ShutdownStage::Complete).2, 100);
    assert!(!transcription_wait_over(119));
    assert!(transcription_wait_over(120));
    assert_eq!(reported_provider(None), ("unknown".to_string(), "unknown".to_string()));
    assert_eq!(stopped_metadata(Some("/f".to_string()), None), (None, None));
    assert_eq!(
        stopped_metadata(Some("/f".to_string()), Some("m".to_string())),
        (Some("/f".to_string()), Some("m".to_string()))
    );
}

#[test]
fn level_monitor() {
    let mut m = LevelMonitor::new();
    assert!(!is_monitoring(&m));
    m.store_levels(5, 6);
    m.begin_monitoring();
    assert!(is_monitoring(&m));
    assert_eq!(m.mic_rms_bits, 0);
    m.stop_monitoring();
    assert!(!m.is_monitoring);
    let available = vec!["Built-in".to_string(), "USB Mic".to_string()];
    assert_eq!(select_monitor_device(&vec!["USB Mic".to_string()], &available), Some(1));
    assert_eq!(select_monitor_device(&vec!["Nope".to_string()], &available), None);
    assert_eq!(select_monitor_device(&vec![], &available), None);
    assert_eq!(reported_device_name(&vec![]), "Default");
    assert_eq!(reported_device_name(&available), "Built-in");
}

#[test]
fn clearing_and_exporting_logs() {
    let files: Vec<String> = ["c.log", "b.log", "a.log"].iter().map(|s| s.to_string()).collect();
    assert_eq!(logs_to_delete(&files, None), vec!["a.log"]);
    assert_eq!(logs_to_delete(&files, Some(0)), files);
    assert!(logs_to_delete(&files, Some(5)).is_empty());
    assert_eq!(export_file_name("20240501_101500"), "maity_logs_20240501_101500.zip");
    assert_eq!(check_export(0).err().unwrap(), "No log files found to export");
    assert!(check_export(2).is_ok());
}

#[test]
fn system_description() {
    let facts = SystemFacts {
        generated: "2024-05-01 10:15:00".to_string(),
        app_version: "1.2.3".to_string(),
        os: "linux".to_string(),
        arch: "x86_64".to_string(),
        total_memory_bytes: 16 * 1024 * 1024 * 1024 + 5,
        available_memory_bytes: 3 * 1024 * 1024 - 1,
        cpu_count: 8,
        system_name: Some("Ubuntu".to_string()),
        os_version: None,
    };
    assert_eq!(
        generate_system_info(&facts),
        "=== Maity Desktop System Info ===\n\nGenerated: 2024-05-01 10:15:00\nApp Version: 1.2.3\nOS: linux\nArchitecture: x86_64\nTotal Memory: 16384 MB\nAvailable Memory: 2 MB\nCPU Count: 8\nSystem Name: Ubuntu\n\n=== End System Info ===\n"
    );
}

#[test]
fn stopping_without_a_recording_succeeds_at_once() {
    let (flag, action) = stop_recording_step(false, StopEvent::Requested);
    assert!(!flag);
    assert!(matches!(action, StopAction::Finish(Ok(()))));
}

#[test]
fn a_stop_runs_through_its_stages_and_clears_the_flag_last() {
    let (flag, action) = stop_recording_step(true, StopEvent::Requested);
    assert!(flag && matches!(action, StopAction::StopStreams));
    let (flag, action) = stop_recording_step(flag, StopEvent::StreamsStopped(Ok(())));
    assert!(flag && matches!(action, StopAction::AwaitTranscription));
    let (flag, action) = stop_recording_step(flag, StopEvent::TranscriptionWaiting(3));
    assert!(flag && matches!(action, StopAction::KeepWaiting(3)));
    let (flag, action) = stop_recording_step(flag, StopEvent::TranscriptionWaiting(120));
    assert!(flag && matches!(action, StopAction::Finalize));
    let (flag, action) = stop_recording_step(flag, StopEvent::TranscriptionFinished);
    assert!(flag && matches!(action, StopAction::Finalize));
    let (flag, action) = stop_recording_step(
        flag,
        StopEvent::Saved(Some("/m/1".to_string()), Some("Weekly".to_string())),
    );
    assert!(!flag);
    match action {
        StopAction::Announce(f, n) => {
            assert_eq!(f.as_deref(), Some("/m/1"));
            assert_eq!(n.as_deref(), Some("Weekly"));
        }
        _ => panic!("the stop is announced"),
    }
    let (_, action) = stop_recording_step(true, StopEvent::Saved(Some("/m/1".to_string()), None));
    assert!(matches!(action, StopAction::Announce(None, None)));
}

#[test]
fn a_failed_stream_stop_ends_with_its_error() {
    let (flag, action) =
        stop_recording_step(true, StopEvent::StreamsStopped(Err("device busy".to_string())));
    assert!(flag);
    match action {
        StopAction::Finish(Err(m)) => assert_eq!(m, "Failed to stop audio streams: device busy"),
        _ => panic!("the stop fails"),
    }
}
