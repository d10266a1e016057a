use maity::meeting::{
    command_effect, detector_tick, CommandEffect, DetectorCommand, TickDecision,
    action_name, get_browser_processes, get_monitored_apps_status, get_process_patterns,
    handle_user_response, meeting_detected_event, parse_app_action, parse_meeting_app,
    parse_user_response, AppAction, MeetingApp, MonitoredApps, ProcessInfo, ProcessMonitor,
    UserResponseAction,
};

fn snapshot(entries: &[(u32, &str)]) -> Vec<ProcessInfo> {
    entries
        .iter()
        .map(|(pid, name)| ProcessInfo { pid: *pid, name: name.to_string() })
        .collect()
}

#[test]
fn test_meeting_app_display_name() {
    assert_eq!(MeetingApp::Zoom.display_name(), "Zoom");
    assert_eq!(MeetingApp::MicrosoftTeams.display_name(), "Microsoft Teams");
    assert_eq!(MeetingApp::GoogleMeet.display_name(), "Google Meet");
}

#[test]
fn test_process_monitor_creation() {
    let monitor = ProcessMonitor::new();
    assert!(monitor.history_is_empty());
}

#[test]
fn icon_and_unknown_names() {
    assert_eq!(MeetingApp::Slack.display_name(), "Slack Huddle");
    assert_eq!(MeetingApp::Slack.icon_name(), "slack");
    assert_eq!(MeetingApp::MicrosoftTeams.icon_name(), "teams");
    let other = MeetingApp::Unknown("jitsi".to_string());
    assert_eq!(other.display_name(), "jitsi");
    assert_eq!(other.icon_name(), "unknown");
}

#[test]
fn pattern_tables() {
    let patterns = get_process_patterns();
    assert_eq!(patterns.len(), 7);
    assert_eq!(patterns[0].process_names[0], "zoom.exe");
    assert!(patterns[2].process_names.is_empty());
    assert_eq!(patterns[6].process_names, vec!["skype.exe", "skypeapp.exe", "skype"]);
    let browsers = get_browser_processes();
    assert_eq!(browsers.len(), 12);
    assert_eq!(browsers[11], "safari");
}

#[test]
fn active_meetings_are_found_case_insensitively() {
    let monitor = ProcessMonitor::new();
    let ps = snapshot(&[(10, "Zoom.exe"), (20, "chrome.exe"), (30, "MSTeams.exe")]);
    let found = monitor.get_active_meetings(&ps, "2024-05-01 10:00", 1700);
    assert_eq!(found.len(), 2);
    assert!(matches!(found[0].app, MeetingApp::Zoom));
    assert_eq!(found[0].pid, 10);
    assert_eq!(found[0].process_name, "Zoom.exe");
    assert_eq!(found[0].suggested_name, "Zoom - 2024-05-01 10:00");
    assert_eq!(found[0].detected_at, 1700);
    assert!(found[0].window_title.is_none());
    assert!(matches!(found[1].app, MeetingApp::MicrosoftTeams));
    assert_eq!(found[1].suggested_name, "Microsoft Teams - 2024-05-01 10:00");
    assert!(monitor.is_meeting_active(&ps));
    assert!(!monitor.is_meeting_active(&snapshot(&[(1, "bash"), (2, "chrome.exe")])));
}

#[test]
fn a_process_is_reported_once_while_it_runs() {
    let mut monitor = ProcessMonitor::new();
    let ps = snapshot(&[(10, "zoom"), (20, "slack")]);
    let first = monitor.detect_meetings(&ps, "t", 1);
    assert_eq!(first.len(), 2);
    let second = monitor.detect_meetings(&ps, "t", 2);
    assert!(second.is_empty());
    // Zoom quits; when a process with the same id comes back it is new again.
    let third = monitor.detect_meetings(&snapshot(&[(20, "slack")]), "t", 3);
    assert!(third.is_empty());
    let fourth = monitor.detect_meetings(&ps, "t", 4);
    assert_eq!(fourth.len(), 1);
    assert_eq!(fourth[0].pid, 10);
}

#[test]
fn ignored_and_cleared_history() {
    let mut monitor = ProcessMonitor::new();
    monitor.ignore_pid(10);
    let ps = snapshot(&[(10, "zoom.exe"), (11, "discord.exe")]);
    let found = monitor.detect_meetings(&ps, "t", 0);
    assert_eq!(found.len(), 1);
    assert_eq!(found[0].pid, 11);
    monitor.clear_detection_history();
    assert!(monitor.history_is_empty());
    assert_eq!(monitor.detect_meetings(&ps, "t", 0).len(), 2);
}

#[test]
fn parsing_actions_and_apps() {
    assert!(matches!(parse_app_action("ASK"), Ok(AppAction::AlwaysAsk)));
    assert!(matches!(parse_app_action("auto"), Ok(AppAction::AutoRecord)));
    assert!(matches!(parse_app_action("Ignore"), Ok(AppAction::Ignore)));
    assert_eq!(parse_app_action("Never").err().unwrap(), "Unknown action: Never");
    assert!(matches!(parse_meeting_app("Microsoft_Teams"), MeetingApp::MicrosoftTeams));
    assert!(matches!(parse_meeting_app("meet"), MeetingApp::GoogleMeet));
    match parse_meeting_app("Jitsi") {
        MeetingApp::Unknown(n) => assert_eq!(n, "jitsi"),
        _ => panic!("expected an unknown app"),
    }
    assert_eq!(action_name(AppAction::AutoRecord), "auto_record");
}

#[test]
fn user_responses() {
    match parse_user_response("start_recording", None) {
        Ok(UserResponseAction::StartRecording { meeting_name }) => assert_eq!(meeting_name, "Meeting"),
        _ => panic!("expected StartRecording"),
    }
    match parse_user_response("start_recording", Some("Daily".to_string())) {
        Ok(UserResponseAction::StartRecording { meeting_name }) => assert_eq!(meeting_name, "Daily"),
        _ => panic!("expected StartRecording"),
    }
    assert!(matches!(parse_user_response("ignore_always", None), Ok(UserResponseAction::IgnoreAlways)));
    assert_eq!(parse_user_response("Ignore", None).err().unwrap(), "Unknown action: Ignore");

    let mut monitor = ProcessMonitor::new();
    assert!(handle_user_response(&mut monitor, 5, UserResponseAction::Ignore).is_none());
    assert!(!monitor.history_is_empty());
    let name = handle_user_response(
        &mut monitor,
        6,
        UserResponseAction::StartRecording { meeting_name: "Standup".to_string() },
    );
    assert_eq!(name.unwrap(), "Standup");
}

#[test]
fn monitoring_switches_and_status() {
    let mut apps = MonitoredApps {
        zoom: true,
        microsoft_teams: true,
        google_meet: true,
        webex: true,
        slack: true,
        discord: true,
        skype: true,
    };
    assert!(apps.set_app_monitoring("TEAMS", false).is_ok());
    assert!(!apps.microsoft_teams);
    assert_eq!(apps.set_app_monitoring("jitsi", false).err().unwrap(), "Unknown app: jitsi");
    let actions = [AppAction::AlwaysAsk; 7];
    let status = get_monitored_apps_status(&apps, actions);
    assert_eq!(status.len(), 7);
    assert_eq!(status[1].id, "microsoft_teams");
    assert_eq!(status[1].name, "Microsoft Teams");
    assert!(!status[1].enabled);
    assert_eq!(status[4].name, "Slack Huddle");
    assert_eq!(status[6].action, "always_ask");
}

#[test]
fn detection_events() {
    let monitor = ProcessMonitor::new();
    let found = monitor.get_active_meetings(&snapshot(&[(7, "webex.exe")]), "now", 9);
    let d = &found[0];
    let ask = meeting_detected_event(d, true, AppAction::AlwaysAsk).unwrap();
    assert_eq!(ask.action, "ask");
    assert_eq!(ask.meeting.pid, 7);
    let auto = meeting_detected_event(d, true, AppAction::AutoRecord).unwrap();
    assert_eq!(auto.action, "auto_record");
    assert!(meeting_detected_event(d, true, AppAction::Ignore).is_none());
    assert!(meeting_detected_event(d, false, AppAction::AutoRecord).is_none());
}

#[test]
fn detector_loop_decisions() {
    assert_eq!(detector_tick(false, true), TickDecision::Stop);
    assert_eq!(detector_tick(true, false), TickDecision::Skip);
    assert_eq!(detector_tick(true, true), TickDecision::Detect);
    let stop: DetectorCommand<u32> = DetectorCommand::Stop;
    assert_eq!(command_effect(&stop, 30, 30), CommandEffect::Exit);
    let update: DetectorCommand<u32> = DetectorCommand::UpdateSettings(60);
    assert_eq!(
        command_effect(&update, 30, 60),
        CommandEffect::ApplySettings { restart_interval: true }
    );
    assert_eq!(
        command_effect(&update, 60, 60),
        CommandEffect::ApplySettings { restart_interval: false }
    );
    let check: DetectorCommand<u32> = DetectorCommand::CheckNow;
    assert_eq!(command_effect(&check, 1, 1), CommandEffect::CheckNow);
}
