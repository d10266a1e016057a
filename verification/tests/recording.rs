use maity::recording::{
    check_can_start_recording, check_recording_in_progress, is_recording_active,
    set_recording_flag, AudioError, ChunkRoute, DeviceType, RecordingFlag, RecordingState,
};

type State = RecordingState<String, u8>;

#[test]
fn pause_and_resume_account_for_pause_time() {
    let mut s = State::new();
    assert_eq!(s.pause_recording(0).err().unwrap(), "Cannot pause when not recording");
    s.start_recording(1_000);
    assert!(s.is_recording() && !s.is_paused());
    assert_eq!(s.resume_recording(1_500).err().unwrap(), "Recording is not paused");
    s.pause_recording(2_000).unwrap();
    assert_eq!(s.pause_recording(2_100).err().unwrap(), "Recording is already paused");
    assert_eq!(s.get_current_pause_duration(2_500), Some(500));
    assert_eq!(s.get_active_recording_duration(2_500), Some(1_000));
    s.resume_recording(3_000).unwrap();
    assert_eq!(s.get_total_pause_duration(), 1_000);
    assert_eq!(s.get_recording_duration(5_000), Some(4_000));
    assert_eq!(s.get_active_recording_duration(5_000), Some(3_000));
    s.stop_recording();
    assert!(!s.is_recording());
    assert_eq!(s.resume_recording(6_000).err().unwrap(), "Cannot resume when not recording");
}

#[test]
fn chunks_are_routed_by_state() {
    let mut s = State::new();
    s.start_recording(0);
    assert!(matches!(s.chunk_route(), ChunkRoute::NoSender));
    s.set_audio_sender(7);
    assert!(matches!(s.chunk_route(), ChunkRoute::Send));
    s.record_chunk_sent(42);
    assert_eq!(s.get_stats().chunks_processed, 1);
    assert_eq!(s.get_stats().last_activity_ms, Some(42));
    s.pause_recording(50).unwrap();
    assert!(matches!(s.chunk_route(), ChunkRoute::Discard));
}

#[test]
fn tenth_recoverable_error_stops_recording() {
    let mut s = State::new();
    s.start_recording(0);
    for _ in 0..9 {
        assert!(!s.report_error(AudioError::StreamFailed));
    }
    assert!(s.is_recording());
    assert!(s.report_error(AudioError::BufferOverflow));
    assert!(!s.is_recording());
    assert_eq!(s.get_recoverable_error_count(), 10);
    assert!(!s.has_fatal_error());
}

#[test]
fn fatal_error_stops_at_once() {
    let mut s = State::new();
    s.start_recording(0);
    s.set_microphone_device("mic".to_string());
    assert!(s.report_error(AudioError::PermissionDenied));
    assert!(!s.is_recording());
    assert!(s.get_microphone_device().is_none());
    assert!(s.has_fatal_error());
    assert_eq!(s.get_last_error(), Some(AudioError::PermissionDenied));
    assert_eq!(AudioError::PermissionDenied.user_message(), "Microphone permission denied");
    assert!(!AudioError::ChannelClosed.is_recoverable());
    assert!(AudioError::DeviceDisconnected.is_recoverable());
}

#[test]
fn reconnection_is_entered_once() {
    let mut s = State::new();
    assert!(s.start_reconnecting("usb".to_string(), DeviceType::Microphone));
    assert!(s.is_reconnecting());
    assert!(!s.start_reconnecting("other".to_string(), DeviceType::System));
    assert_eq!(s.get_disconnected_device().as_ref().unwrap().0, "usb");
    s.stop_reconnecting();
    assert!(!s.is_reconnecting());
    assert!(s.get_disconnected_device().is_none());
}

#[test]
fn cleanup_resets_everything_but_levels() {
    let mut s = State::new();
    s.start_recording(5);
    s.set_audio_level(DeviceType::Microphone, 11, 12);
    s.report_error(AudioError::StreamFailed);
    s.cleanup();
    assert_eq!(s.get_error_count(), 0);
    assert!(s.get_recording_duration(10).is_none());
    assert_eq!(s.get_audio_levels().0, 11);
}

#[test]
fn recording_flag_guards_start_and_pause() {
    let mut flag = RecordingFlag { active: false };
    assert!(check_can_start_recording(&flag).is_ok());
    assert_eq!(check_recording_in_progress(&flag).err().unwrap(), "No recording is currently active");
    set_recording_flag(&mut flag, true);
    assert!(is_recording_active(&flag));
    assert_eq!(check_can_start_recording(&flag).err().unwrap(), "Recording already in progress");
    assert!(check_recording_in_progress(&flag).is_ok());
}

#[test]
fn devices_and_activity() {
    let mut s = State::new();
    s.set_system_device("speakers".to_string());
    assert_eq!(s.get_system_device().as_deref(), Some("speakers"));
    assert!(!s.is_active());
    s.start_recording(0);
    assert!(s.is_active());
    s.pause_recording(1).unwrap();
    assert!(!s.is_active());
}

#[test]
fn a_refused_reconnection_claim_changes_nothing() {
    let mut s = State::new();
    s.start_recording(10);
    s.report_error(AudioError::DeviceDisconnected);
    s.set_microphone_device("mic".to_string());
    assert!(s.start_reconnecting("usb".to_string(), DeviceType::Microphone));
    let errors = s.get_error_count();
    let recoverable = s.get_recoverable_error_count();
    assert!(!s.start_reconnecting("other".to_string(), DeviceType::System));
    assert_eq!(s.get_error_count(), errors);
    assert_eq!(s.get_recoverable_error_count(), recoverable);
    assert_eq!(s.get_last_error(), Some(AudioError::DeviceDisconnected));
    assert_eq!(s.get_microphone_device().as_deref(), Some("mic"));
    assert!(s.is_recording());
    assert_eq!(s.get_disconnected_device().as_ref().unwrap().1, DeviceType::Microphone);
}

#[test]
fn of_many_reconnection_claims_only_the_first_is_granted() {
    let mut s = State::new();
    s.start_recording(1);
    let answers: Vec<bool> = (0..5)
        .map(|k| s.start_reconnecting(format!("dev{}", k), DeviceType::System))
        .collect();
    assert_eq!(answers, vec![true, false, false, false, false]);
    assert_eq!(s.get_disconnected_device().as_ref().unwrap().0, "dev0");
    assert!(s.is_reconnecting());
}
