//! The decisions of starting and stopping a recording: the preferences in
//! force, the devices announced, the stages of a shutdown, how long the
//! transcription is waited for, and what is reported when it has stopped.
use vstd::prelude::*;
use crate::text::{copy_str, opt_str, push_str};

verus! {

/// The recording preferences that starting a recording reads.
pub struct RecordingPreferences {
    pub auto_save: bool,
    pub preferred_mic_device: Option<String>,
    pub preferred_system_device: Option<String>,
}

/// The preferences in force: the saved ones, or saving on and the default
/// devices when they could not be read.
pub fn preferences_in_force(saved: Result<RecordingPreferences, String>) -> (r: RecordingPreferences)
    ensures
        match saved {
            Ok(p) => r == p,
            Err(_) => r.auto_save && r.preferred_mic_device is None && r.preferred_system_device
                is None,
        },
{
    match saved {
        Ok(p) => p,
        Err(_) => RecordingPreferences {
            auto_save: true,
            preferred_mic_device: None,
            preferred_system_device: None,
        },
    }
}

/// The device names announced when a recording starts: the chosen ones, or
/// the default microphone and system audio.
pub fn started_devices(mic_device_name: Option<String>, system_device_name: Option<String>) -> (r: (
    String,
    String,
))
    ensures
        r.0@ == (match mic_device_name {
            Some(n) => n@,
            None => "Default Microphone"@,
        }),
        r.1@ == (match system_device_name {
            Some(n) => n@,
            None => "Default System Audio"@,
        }),
{
    let mic = match mic_device_name {
        Some(n) => n,
        None => copy_str("Default Microphone"),
    };
    let sys = match system_device_name {
        Some(n) => n,
        None => copy_str("Default System Audio"),
    };
    (mic, sys)
}

/// The stages of stopping a recording.
#[derive(Clone, Copy, Debug, PartialEq, Eq, Structural)]
pub enum ShutdownStage {
    StoppingAudio,
    ProcessingTranscripts,
    Finalizing,
    Complete,
}

/// The name, message and progress shown for each stage.
pub open spec fn stage_report(s: ShutdownStage) -> (Seq<char>, Seq<char>, u8) {
    match s {
        ShutdownStage::StoppingAudio => ("stopping_audio"@, "Stopping audio capture..."@, 20u8),
        ShutdownStage::ProcessingTranscripts => (
            "processing_transcripts"@,
            "Processing remaining transcript chunks..."@,
            40u8,
        ),
        ShutdownStage::Finalizing => (
            "finalizing"@,
            "Finalizing recording and cleaning up resources..."@,
            90u8,
        ),
        ShutdownStage::Complete => ("complete"@, "Recording stopped successfully"@, 100u8),
    }
}

/// The name, message and progress shown for a stage of the shutdown.
pub fn shutdown_progress(stage: ShutdownStage) -> (r: (String, String, u8))
    ensures
        r.0@ == stage_report(stage).0,
        r.1@ == stage_report(stage).1,
        r.2 == stage_report(stage).2,
{
    match stage {
        ShutdownStage::StoppingAudio => (
            copy_str("stopping_audio"),
            copy_str("Stopping audio capture..."),
            20,
        ),
        ShutdownStage::ProcessingTranscripts => (
            copy_str("processing_transcripts"),
            copy_str("Processing remaining transcript chunks..."),
            40,
        ),
        ShutdownStage::Finalizing => (
            copy_str("finalizing"),
            copy_str("Finalizing recording and cleaning up resources..."),
            90,
        ),
        ShutdownStage::Complete => (
            copy_str("complete"),
            copy_str("Recording stopped successfully"),
            100,
        ),
    }
}

/// The longest wait for the transcription to finish, in seconds.
pub const TRANSCRIPTION_WAIT_MAX_SECS: u64 = 120;

/// How often the wait reports progress, in milliseconds.
pub const TRANSCRIPTION_WAIT_TICK_MS: u64 = 1500;

/// The longest wait for the recording to be saved, in seconds.
pub const SAVE_TIMEOUT_SECS: u64 = 300;

/// Whether the wait for the transcription gives up after `elapsed_secs`.
pub fn transcription_wait_over(elapsed_secs: u64) -> (r: bool)
    ensures
        r == (elapsed_secs >= TRANSCRIPTION_WAIT_MAX_SECS),
{
    elapsed_secs >= TRANSCRIPTION_WAIT_MAX_SECS
}

/// The provider and model reported when a meeting ends: the configured
/// ones, or "unknown" for both.
pub fn reported_provider(config: Option<(String, String)>) -> (r: (String, String))
    ensures
        match config {
            Some(c) => r.0@ == c.0@ && r.1@ == c.1@,
            None => r.0@ == "unknown"@ && r.1@ == "unknown"@,
        },
{
    match config {
        Some(c) => c,
        None => (copy_str("unknown"), copy_str("unknown")),
    }
}

/// The folder and name reported for a stopped recording: both when both
/// are known, neither otherwise.
pub fn stopped_metadata(folder: Option<String>, name: Option<String>) -> (r: (
    Option<String>,
    Option<String>,
))
    ensures
        match (folder, name) {
            (Some(f), Some(n)) => r.0 == Some(f) && r.1 == Some(n),
            _ => r.0 is None && r.1 is None,
        },
{
    match (folder, name) {
        (Some(f), Some(n)) => (Some(f), Some(n)),
        _ => (None, None),
    }
}

/// What happens while a recording is being stopped, reported back to the
/// stopping procedure.
pub enum StopEvent {
    /// A stop was asked for.
    Requested,
    /// The audio streams were stopped and flushed (`Ok` also when there
    /// was nothing to stop), or stopping them failed with this text.
    StreamsStopped(Result<(), String>),
    /// The transcription is still running after this many seconds.
    TranscriptionWaiting(u64),
    /// The transcription has finished, or there was none to wait for.
    TranscriptionFinished,
    /// The recording was saved (or saving failed or timed out, which stops
    /// nothing); its folder and name where known.
    Saved(Option<String>, Option<String>),
}

/// What the stopping procedure does next.
pub enum StopAction {
    /// Return this result to the caller.
    Finish(Result<(), String>),
    /// Report `StoppingAudio`, then stop and flush the audio streams.
    StopStreams,
    /// Report `ProcessingTranscripts`, then wait for the transcription.
    AwaitTranscription,
    /// Report the seconds waited so far and keep waiting.
    KeepWaiting(u64),
    /// Report `Finalizing`, then save the recording.
    Finalize,
    /// Report `Complete`, announce the stop with this folder and name, and
    /// return success.
    Announce(Option<String>, Option<String>),
}

/// A next action as plain values.
pub enum StopActionView {
    Finish(Result<(), Seq<char>>),
    StopStreams,
    AwaitTranscription,
    KeepWaiting(u64),
    Finalize,
    Announce(Option<Seq<char>>, Option<Seq<char>>),
}

/// The plain values of an action.
pub open spec fn action_view(a: StopAction) -> StopActionView {
    match a {
        StopAction::Finish(Ok(())) => StopActionView::Finish(Ok(())),
        StopAction::Finish(Err(m)) => StopActionView::Finish(Err(m@)),
        StopAction::StopStreams => StopActionView::StopStreams,
        StopAction::AwaitTranscription => StopActionView::AwaitTranscription,
        StopAction::KeepWaiting(s) => StopActionView::KeepWaiting(s),
        StopAction::Finalize => StopActionView::Finalize,
        StopAction::Announce(f, n) => StopActionView::Announce(opt_str(f), opt_str(n)),
    }
}

/// The error text of a failed stream stop.
pub open spec fn stream_stop_error(e: Seq<char>) -> Seq<char> {
    "Failed to stop audio streams: "@ + e
}

/// The recording flag and the next action after `event`, where `active` is
/// the flag before it.
pub open spec fn stop_step(active: bool, event: StopEvent) -> (bool, StopActionView) {
    match event {
        StopEvent::Requested => if active {
            (true, StopActionView::StopStreams)
        } else {
            (false, StopActionView::Finish(Ok(())))
        },
        StopEvent::StreamsStopped(Ok(())) => (active, StopActionView::AwaitTranscription),
        StopEvent::StreamsStopped(Err(e)) => (
            active,
            StopActionView::Finish(Err(stream_stop_error(e@))),
        ),
        StopEvent::TranscriptionWaiting(secs) => (
            active,
            if secs >= TRANSCRIPTION_WAIT_MAX_SECS {
                StopActionView::Finalize
            } else {
                StopActionView::KeepWaiting(secs)
            },
        ),
        StopEvent::TranscriptionFinished => (active, StopActionView::Finalize),
        StopEvent::Saved(folder, name) => (
            false,
            match (folder, name) {
                (Some(f), Some(n)) => StopActionView::Announce(Some(f@), Some(n@)),
                _ => StopActionView::Announce(None, None),
            },
        ),
    }
}

/// One step of stopping a recording: nothing to do when none is in
/// progress; otherwise stop the streams (a failure ends the stop with its
/// error, leaving the flag set), wait for the transcription at most
/// `TRANSCRIPTION_WAIT_MAX_SECS`, save, and only then clear the flag and
/// announce the stop with the folder and name when both are known.
pub fn stop_recording_step(active: bool, event: StopEvent) -> (r: (bool, StopAction))
    ensures
        (r.0, action_view(r.1)) == stop_step(active, event),
{
    match event {
        StopEvent::Requested => if active {
            (true, StopAction::StopStreams)
        } else {
            (false, StopAction::Finish(Ok(())))
        },
        StopEvent::StreamsStopped(Ok(())) => (active, StopAction::AwaitTranscription),
        StopEvent::StreamsStopped(Err(e)) => {
            let mut m = copy_str("Failed to stop audio streams: ");
            push_str(&mut m, e.as_str());
            (active, StopAction::Finish(Err(m)))
        },
        StopEvent::TranscriptionWaiting(secs) => {
            if transcription_wait_over(secs) {
                (active, StopAction::Finalize)
            } else {
                (active, StopAction::KeepWaiting(secs))
            }
        },
        StopEvent::TranscriptionFinished => (active, StopAction::Finalize),
        StopEvent::Saved(folder, name) => {
            let (f, n) = stopped_metadata(folder, name);
            (false, StopAction::Announce(f, n))
        },
    }
}

/// Asking to stop when no recording is in progress succeeds at once and
/// leaves the flag cleared.
pub proof fn stopping_nothing_succeeds()
    ensures
        stop_step(false, StopEvent::Requested) == (false, StopActionView::Finish(Ok(()))),
{
}

/// A stop that gets through: the flag stays set while the streams stop and
/// the transcription is awaited, and is cleared only once the recording is
/// saved, when the stop is announced.
pub proof fn stop_clears_flag_only_after_saving(
    elapsed: u64,
    folder: Option<String>,
    name: Option<String>,
)
    ensures
        stop_step(true, StopEvent::Requested) == (true, StopActionView::StopStreams),
        stop_step(true, StopEvent::StreamsStopped(Ok(()))) == (
            true,
            StopActionView::AwaitTranscription,
        ),
        stop_step(true, StopEvent::TranscriptionWaiting(elapsed)).0,
        stop_step(true, StopEvent::TranscriptionFinished) == (true, StopActionView::Finalize),
        !stop_step(true, StopEvent::Saved(folder, name)).0,
        stop_step(true, StopEvent::Saved(folder, name)).1 is Announce,
{
}

/// When the streams fail to stop, the stop ends with their error and the
/// recording flag stays set.
pub proof fn failed_stream_stop_keeps_flag(e: String)
    ensures
        stop_step(true, StopEvent::StreamsStopped(Err(e))) == (
            true,
            StopActionView::Finish(Err(stream_stop_error(e@))),
        ),
{
}

/// The wait for the transcription ends by `TRANSCRIPTION_WAIT_MAX_SECS`:
/// from then on every report moves on to saving.
pub proof fn transcription_wait_is_bounded(active: bool, elapsed: u64)
    requires
        elapsed >= TRANSCRIPTION_WAIT_MAX_SECS,
    ensures
        stop_step(active, StopEvent::TranscriptionWaiting(elapsed)).1 is Finalize,
{
}

} // verus!
