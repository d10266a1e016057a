use maity::notifications::{
    Notification, NotificationAction, NotificationActionType, NotificationPriority,
    NotificationTimeout, NotificationType,
};

#[test]
fn builder_steps_set_one_part_each() {
    let n = Notification::new("T".to_string(), "B".to_string(), NotificationType::Test);
    assert!(n.id.is_none());
    assert_eq!(n.priority, NotificationPriority::Normal);
    assert_eq!(n.timeout, NotificationTimeout::Default);
    assert!(n.sound);
    let n = n
        .with_priority(NotificationPriority::Low)
        .with_timeout(NotificationTimeout::Seconds(7))
        .with_sound(false)
        .with_icon("icon.png".to_string())
        .with_id("n1".to_string())
        .add_action(NotificationAction {
            id: "ok".to_string(),
            title: "OK".to_string(),
            action_type: NotificationActionType::Button,
        });
    assert_eq!(n.title, "T");
    assert_eq!(n.body, "B");
    assert_eq!(n.priority, NotificationPriority::Low);
    assert_eq!(n.timeout, NotificationTimeout::Seconds(7));
    assert!(!n.sound);
    assert_eq!(n.icon.as_deref(), Some("icon.png"));
    assert_eq!(n.id.as_deref(), Some("n1"));
    assert_eq!(n.actions.len(), 1);
    assert_eq!(n.actions[0].id, "ok");
    assert_eq!(NotificationPriority::default(), NotificationPriority::Normal);
    assert_eq!(NotificationTimeout::default(), NotificationTimeout::Default);
}

#[test]
fn recording_notifications() {
    let n = Notification::recording_started(Some("Daily".to_string()));
    assert_eq!(n.title, "Maity");
    assert_eq!(n.body, "Grabación iniciada para la reunión: Daily");
    assert_eq!(n.priority, NotificationPriority::High);
    assert_eq!(n.timeout, NotificationTimeout::Seconds(5));
    assert!(matches!(n.notification_type, NotificationType::RecordingStarted));
    let n = Notification::recording_started(None);
    assert_eq!(
        n.body,
        "La grabación ha iniciado. Por favor informa a los demás participantes que estás grabando."
    );
    let n = Notification::recording_stopped();
    assert_eq!(n.body, "La grabación ha sido detenida y guardada");
    assert_eq!(n.timeout, NotificationTimeout::Seconds(3));
    assert_eq!(Notification::recording_paused().body, "La grabación ha sido pausada");
    assert_eq!(Notification::recording_resumed().body, "La grabación ha sido reanudada");
}

#[test]
fn transcription_and_reminder_notifications() {
    let n = Notification::transcription_complete(Some("/tmp/a.txt".to_string()));
    assert_eq!(n.body, "Transcripción completada y guardada en: /tmp/a.txt");
    assert_eq!(
        Notification::transcription_complete(None).body,
        "La transcripción ha sido completada"
    );
    let n = Notification::meeting_reminder(15, Some("Planning".to_string()));
    assert_eq!(n.body, "La reunión 'Planning' comienza en 15 minutos");
    assert_eq!(n.timeout, NotificationTimeout::Seconds(10));
    assert!(matches!(n.notification_type, NotificationType::MeetingReminder(15)));
    assert_eq!(
        Notification::meeting_reminder(0, None).body,
        "La reunión comienza en 0 minutos"
    );
}

#[test]
fn error_and_test_notifications() {
    let n = Notification::system_error("disk full".to_string());
    assert_eq!(n.title, "Error de Maity");
    assert_eq!(n.body, "disk full");
    assert_eq!(n.priority, NotificationPriority::Critical);
    assert_eq!(n.timeout, NotificationTimeout::Never);
    match n.notification_type {
        NotificationType::SystemError(e) => assert_eq!(e, "disk full"),
        _ => panic!("expected SystemError"),
    }
    let n = Notification::test_notification();
    assert_eq!(
        n.body,
        "Esta es una notificación de prueba para verificar que el sistema funciona correctamente"
    );
}
