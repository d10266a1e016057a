//! Desktop notifications: their parts, the builder steps, and the
//! notifications the application shows for recording and meeting events.
use vstd::prelude::*;
use crate::num::{decimal, push_decimal};
use crate::text::{copy_str, push_str};

verus! {

/// A notification to show.
#[derive(Debug, Clone)]
pub struct Notification {
    pub id: Option<String>,
    pub title: String,
    pub body: String,
    pub notification_type: NotificationType,
    pub priority: NotificationPriority,
    pub timeout: NotificationTimeout,
    pub icon: Option<String>,
    pub sound: bool,
    pub actions: Vec<NotificationAction>,
}

/// What a notification is about.
#[derive(Debug, Clone)]
pub enum NotificationType {
    RecordingStarted,
    RecordingStopped,
    RecordingPaused,
    RecordingResumed,
    TranscriptionComplete,
    /// Minutes until the meeting.
    MeetingReminder(u64),
    SystemError(String),
    Test,
}

/// How urgent a notification is.
#[derive(Clone, Copy, Debug, PartialEq, Eq, Structural)]
pub enum NotificationPriority {
    Low,
    Normal,
    High,
    Critical,
}

/// How long a notification stays on screen.
#[derive(Clone, Copy, Debug, PartialEq, Eq, Structural)]
pub enum NotificationTimeout {
    Never,
    Seconds(u64),
    Default,
}

/// A button or reply field of a notification.
#[derive(Debug, Clone)]
pub struct NotificationAction {
    pub id: String,
    pub title: String,
    pub action_type: NotificationActionType,
}

/// The kind of a notification action.
#[derive(Clone, Copy, Debug, PartialEq, Eq, Structural)]
pub enum NotificationActionType {
    Button,
    Reply,
}

impl Default for NotificationPriority {
    fn default() -> (r: Self)
        ensures
            r == NotificationPriority::Normal,
    {
        NotificationPriority::Normal
    }
}

impl Default for NotificationTimeout {
    fn default() -> (r: Self)
        ensures
            r == NotificationTimeout::Default,
    {
        NotificationTimeout::Default
    }
}

/// The title, body, kind, priority, timeout, icon, sound flag and the
/// number of actions of a notification, with no id.
pub open spec fn shaped(
    n: Notification,
    title: Seq<char>,
    body: Seq<char>,
    priority: NotificationPriority,
    timeout: NotificationTimeout,
) -> bool {
    &&& n.id is None
    &&& n.title@ == title
    &&& n.body@ == body
    &&& n.priority == priority
    &&& n.timeout == timeout
    &&& n.icon is None
    &&& n.sound
    &&& n.actions@.len() == 0
}

impl Notification {
    /// A notification of normal priority, default timeout, with sound, and
    /// no id, icon or action.
    pub fn new(title: String, body: String, notification_type: NotificationType) -> (r: Self)
        ensures
            r == (Notification {
                id: None,
                title,
                body,
                notification_type,
                priority: NotificationPriority::Normal,
                timeout: NotificationTimeout::Default,
                icon: None,
                sound: true,
                actions: r.actions,
            }),
            r.actions@.len() == 0,
    {
        Notification {
            id: None,
            title,
            body,
            notification_type,
            priority: NotificationPriority::Normal,
            timeout: NotificationTimeout::Default,
            icon: None,
            sound: true,
            actions: Vec::new(),
        }
    }

    /// The notification with priority `priority`.
    pub fn with_priority(self, priority: NotificationPriority) -> (r: Self)
        ensures
            r == (Notification { priority, ..self }),
    {
        Notification { priority, ..self }
    }

    /// The notification with timeout `timeout`.
    pub fn with_timeout(self, timeout: NotificationTimeout) -> (r: Self)
        ensures
            r == (Notification { timeout, ..self }),
    {
        Notification { timeout, ..self }
    }

    /// The notification with its sound on or off.
    pub fn with_sound(self, sound: bool) -> (r: Self)
        ensures
            r == (Notification { sound, ..self }),
    {
        Notification { sound, ..self }
    }

    /// The notification with icon `icon`.
    pub fn with_icon(self, icon: String) -> (r: Self)
        ensures
            r == (Notification { icon: Some(icon), ..self }),
    {
        Notification { icon: Some(icon), ..self }
    }

    /// The notification with id `id`.
    pub fn with_id(self, id: String) -> (r: Self)
        ensures
            r == (Notification { id: Some(id), ..self }),
    {
        Notification { id: Some(id), ..self }
    }

    /// Appends an action.
    pub fn add_action(self, action: NotificationAction) -> (r: Self)
        ensures
            r.actions@ == self.actions@.push(action),
            r == (Notification { actions: r.actions, ..self }),
    {
        let mut n = self;
        n.actions.push(action);
        n
    }
}

/// The body announcing a recording's start.
pub open spec fn started_body(meeting_name: Option<String>) -> Seq<char> {
    match meeting_name {
        Some(name) => "Grabación iniciada para la reunión: "@ + name@,
        None => "La grabación ha iniciado. Por favor informa a los demás participantes que estás grabando."@,
    }
}

/// The body announcing a finished transcription.
pub open spec fn transcription_body(file_path: Option<String>) -> Seq<char> {
    match file_path {
        Some(path) => "Transcripción completada y guardada en: "@ + path@,
        None => "La transcripción ha sido completada"@,
    }
}

/// The body of a meeting reminder.
pub open spec fn reminder_body(minutes_until: u64, meeting_title: Option<String>) -> Seq<char> {
    match meeting_title {
        Some(title) => "La reunión '"@ + title@ + "' comienza en "@ + decimal(minutes_until as nat)
            + " minutos"@,
        None => "La reunión comienza en "@ + decimal(minutes_until as nat) + " minutos"@,
    }
}

impl Notification {
    /// "Maity": the recording started (for the named meeting); high
    /// priority, shown five seconds.
    pub fn recording_started(meeting_name: Option<String>) -> (r: Self)
        ensures
            shaped(
                r,
                "Maity"@,
                started_body(meeting_name),
                NotificationPriority::High,
                NotificationTimeout::Seconds(5),
            ),
            r.notification_type is RecordingStarted,
    {
        let body = match meeting_name {
            Some(name) => {
                let mut b = copy_str("Grabación iniciada para la reunión: ");
                push_str(&mut b, name.as_str());
                b
            },
            None => copy_str(
                "La grabación ha iniciado. Por favor informa a los demás participantes que estás grabando.",
            ),
        };
        Notification::new(copy_str("Maity"), body, NotificationType::RecordingStarted).with_priority(
            NotificationPriority::High,
        ).with_timeout(NotificationTimeout::Seconds(5))
    }

    /// "Maity": the recording was stopped and saved; shown three seconds.
    pub fn recording_stopped() -> (r: Self)
        ensures
            shaped(
                r,
                "Maity"@,
                "La grabación ha sido detenida y guardada"@,
                NotificationPriority::Normal,
                NotificationTimeout::Seconds(3),
            ),
            r.notification_type is RecordingStopped,
    {
        Notification::new(
            copy_str("Maity"),
            copy_str("La grabación ha sido detenida y guardada"),
            NotificationType::RecordingStopped,
        ).with_priority(NotificationPriority::Normal).with_timeout(NotificationTimeout::Seconds(3))
    }

    /// "Maity": the recording was paused; shown three seconds.
    pub fn recording_paused() -> (r: Self)
        ensures
            shaped(
                r,
                "Maity"@,
                "La grabación ha sido pausada"@,
                NotificationPriority::Normal,
                NotificationTimeout::Seconds(3),
            ),
            r.notification_type is RecordingPaused,
    {
        Notification::new(
            copy_str("Maity"),
            copy_str("La grabación ha sido pausada"),
            NotificationType::RecordingPaused,
        ).with_priority(NotificationPriority::Normal).with_timeout(NotificationTimeout::Seconds(3))
    }

    /// "Maity": the recording was resumed; shown three seconds.
    pub fn recording_resumed() -> (r: Self)
        ensures
            shaped(
                r,
                "Maity"@,
                "La grabación ha sido reanudada"@,
                NotificationPriority::Normal,
                NotificationTimeout::Seconds(3),
            ),
            r.notification_type is RecordingResumed,
    {
        Notification::new(
            copy_str("Maity"),
            copy_str("La grabación ha sido reanudada"),
            NotificationType::RecordingResumed,
        ).with_priority(NotificationPriority::Normal).with_timeout(NotificationTimeout::Seconds(3))
    }

    /// "Maity": the transcription is complete (and where it was saved);
    /// shown five seconds.
    pub fn transcription_complete(file_path: Option<String>) -> (r: Self)
        ensures
            shaped(
                r,
                "Maity"@,
                transcription_body(file_path),
                NotificationPriority::Normal,
                NotificationTimeout::Seconds(5),
            ),
            r.notification_type is TranscriptionComplete,
    {
        let body = match file_path {
            Some(path) => {
                let mut b = copy_str("Transcripción completada y guardada en: ");
                push_str(&mut b, path.as_str());
                b
            },
            None => copy_str("La transcripción ha sido completada"),
        };
        Notification::new(copy_str("Maity"), body, NotificationType::TranscriptionComplete).with_priority(
            NotificationPriority::Normal,
        ).with_timeout(NotificationTimeout::Seconds(5))
    }

    /// "Maity": a meeting starts in `minutes_until` minutes; high priority,
    /// shown ten seconds.
    pub fn meeting_reminder(minutes_until: u64, meeting_title: Option<String>) -> (r: Self)
        ensures
            shaped(
                r,
                "Maity"@,
                reminder_body(minutes_until, meeting_title),
                NotificationPriority::High,
                NotificationTimeout::Seconds(10),
            ),
            r.notification_type == NotificationType::MeetingReminder(minutes_until),
    {
        let body = match meeting_title {
            Some(title) => {
                let mut b = copy_str("La reunión '");
                push_str(&mut b, title.as_str());
                push_str(&mut b, "' comienza en ");
                push_decimal(&mut b, minutes_until);
                push_str(&mut b, " minutos");
                b
            },
            None => {
                let mut b = copy_str("La reunión comienza en ");
                push_decimal(&mut b, minutes_until);
                push_str(&mut b, " minutos");
                b
            },
        };
        Notification::new(
            copy_str("Maity"),
            body,
            NotificationType::MeetingReminder(minutes_until),
        ).with_priority(NotificationPriority::High).with_timeout(NotificationTimeout::Seconds(10))
    }

    /// "Error de Maity" with the error as body; critical, shown until
    /// dismissed.
    pub fn system_error(error: String) -> (r: Self)
        ensures
            shaped(
                r,
                "Error de Maity"@,
                error@,
                NotificationPriority::Critical,
                NotificationTimeout::Never,
            ),
            r.notification_type matches NotificationType::SystemError(e) && e@ == error@,
    {
        let body = error.clone();
        Notification::new(copy_str("Error de Maity"), body, NotificationType::SystemError(error)).with_priority(
            NotificationPriority::Critical,
        ).with_timeout(NotificationTimeout::Never)
    }

    /// "Maity": a test notification; shown five seconds.
    pub fn test_notification() -> (r: Self)
        ensures
            shaped(
                r,
                "Maity"@,
                "Esta es una notificación de prueba para verificar que el sistema funciona correctamente"@,
                NotificationPriority::Normal,
                NotificationTimeout::Seconds(5),
            ),
            r.notification_type is Test,
    {
        Notification::new(
            copy_str("Maity"),
            copy_str(
                "Esta es una notificación de prueba para verificar que el sistema funciona correctamente",
            ),
            NotificationType::Test,
        ).with_priority(NotificationPriority::Normal).with_timeout(NotificationTimeout::Seconds(5))
    }
}

} // verus!
