//! The state of an audio recording: recording, pause and reconnection flags,
//! devices, error accounting with the thresholds at which recording stops,
//! chunk statistics and timing. Time comes in as milliseconds of a
//! monotonic clock, read by the caller.
use vstd::prelude::*;
use crate::text::err_str;

verus! {

/// The source an audio chunk comes from.
#[derive(Clone, Copy, Debug, PartialEq, Eq, Structural)]
pub enum DeviceType {
    Microphone,
    System,
    /// Combined microphone and system audio, for the recording file only.
    Mixed,
}

/// Errors of the audio system.
#[derive(Clone, Copy, Debug, PartialEq, Eq, Structural)]
pub enum AudioError {
    DeviceDisconnected,
    StreamFailed,
    ProcessingFailed,
    TranscriptionFailed,
    ChannelClosed,
    InitializationFailed,
    ConfigurationError,
    PermissionDenied,
    BufferOverflow,
    SampleRateUnsupported,
}

/// Errors after which a reconnection may be attempted.
pub open spec fn recoverable(e: AudioError) -> bool {
    match e {
        AudioError::DeviceDisconnected => true,
        AudioError::StreamFailed => true,
        AudioError::ProcessingFailed => true,
        AudioError::TranscriptionFailed => true,
        AudioError::BufferOverflow => true,
        _ => false,
    }
}

/// The message shown to the user for an error.
pub open spec fn message_of(e: AudioError) -> Seq<char> {
    match e {
        AudioError::DeviceDisconnected => "Audio device was disconnected"@,
        AudioError::StreamFailed => "Audio stream encountered an error"@,
        AudioError::ProcessingFailed => "Audio processing failed"@,
        AudioError::TranscriptionFailed => "Speech transcription failed"@,
        AudioError::ChannelClosed => "Audio channel was closed unexpectedly"@,
        AudioError::InitializationFailed => "Failed to initialize audio system"@,
        AudioError::ConfigurationError => "Audio configuration error"@,
        AudioError::PermissionDenied => "Microphone permission denied"@,
        AudioError::BufferOverflow => "Audio buffer overflow"@,
        AudioError::SampleRateUnsupported => "Audio sample rate not supported"@,
    }
}

impl AudioError {
    /// Whether a reconnection may be attempted after this error.
    pub fn is_recoverable(&self) -> (r: bool)
        ensures
            r == recoverable(*self),
    {
        match self {
            AudioError::DeviceDisconnected => true,
            AudioError::StreamFailed => true,
            AudioError::ProcessingFailed => true,
            AudioError::TranscriptionFailed => true,
            AudioError::ChannelClosed => false,
            AudioError::InitializationFailed => false,
            AudioError::ConfigurationError => false,
            AudioError::PermissionDenied => false,
            AudioError::BufferOverflow => true,
            AudioError::SampleRateUnsupported => false,
        }
    }

    /// A message for the user.
    pub fn user_message(&self) -> (r: &'static str)
        ensures
            r@ == message_of(*self),
    {
        match self {
            AudioError::DeviceDisconnected => "Audio device was disconnected",
            AudioError::StreamFailed => "Audio stream encountered an error",
            AudioError::ProcessingFailed => "Audio processing failed",
            AudioError::TranscriptionFailed => "Speech transcription failed",
            AudioError::ChannelClosed => "Audio channel was closed unexpectedly",
            AudioError::InitializationFailed => "Failed to initialize audio system",
            AudioError::ConfigurationError => "Audio configuration error",
            AudioError::PermissionDenied => "Microphone permission denied",
            AudioError::BufferOverflow => "Audio buffer overflow",
            AudioError::SampleRateUnsupported => "Audio sample rate not supported",
        }
    }
}

/// Recoverable errors at which recording stops.
pub const MAX_RECOVERABLE_ERRORS: u32 = 10;

/// Errors of any kind at which recording stops.
pub const MAX_TOTAL_ERRORS: u32 = 15;

/// Chunk statistics of a recording.
#[derive(Clone, Copy)]
pub struct RecordingStats {
    pub chunks_processed: u64,
    /// When the last chunk was sent, in milliseconds.
    pub last_activity_ms: Option<u64>,
}

/// Where an audio chunk goes.
pub enum ChunkRoute {
    /// Paused: the chunk is dropped without error.
    Discard,
    /// Sent down the pipeline.
    Send,
    /// No pipeline to send to.
    NoSender,
}

/// The recording state over devices of type `D` and a pipeline sender of
/// type `S`.
pub struct RecordingState<D, S> {
    pub is_recording: bool,
    pub is_paused: bool,
    pub is_reconnecting: bool,
    pub microphone_device: Option<D>,
    pub system_device: Option<D>,
    /// The device being reconnected, with its kind.
    pub disconnected_device: Option<(D, DeviceType)>,
    pub audio_sender: Option<S>,
    pub error_count: u32,
    pub recoverable_error_count: u32,
    pub last_error: Option<AudioError>,
    pub stats: RecordingStats,
    pub recording_start_ms: Option<u64>,
    pub pause_start_ms: Option<u64>,
    pub total_pause_ms: u64,
    /// Level readings, as the bit patterns of `f32` values.
    pub mic_rms_bits: u32,
    pub sys_rms_bits: u32,
    pub mic_peak_bits: u32,
    pub sys_peak_bits: u32,
}

/// Milliseconds from `start` to `now`, zero when `now` is earlier (as
/// `Instant::elapsed` saturates).
pub open spec fn elapsed(start: u64, now: u64) -> u64 {
    if now >= start {
        (now - start) as u64
    } else {
        0
    }
}

fn elapsed_ms(start: u64, now: u64) -> (r: u64)
    ensures
        r == elapsed(start, now),
{
    if now >= start {
        now - start
    } else {
        0
    }
}

impl<D, S> RecordingState<D, S> {
    /// The state after starting to record at `now`.
    pub open spec fn started(s: Self, now: u64) -> Self {
        RecordingState {
            is_recording: true,
            recording_start_ms: Some(now),
            error_count: 0,
            recoverable_error_count: 0,
            last_error: None,
            ..s
        }
    }

    /// The state after stopping.
    pub open spec fn stopped(s: Self) -> Self {
        RecordingState {
            is_recording: false,
            is_paused: false,
            pause_start_ms: None,
            audio_sender: None,
            microphone_device: None,
            system_device: None,
            disconnected_device: None,
            ..s
        }
    }

    /// The state after a pause that begins at `now`.
    pub open spec fn paused(s: Self, now: u64) -> Self {
        RecordingState { is_paused: true, pause_start_ms: Some(now), ..s }
    }

    /// The state after resuming at `now`.
    pub open spec fn resumed(s: Self, now: u64) -> Self {
        RecordingState {
            is_paused: false,
            pause_start_ms: None,
            total_pause_ms: match s.pause_start_ms {
                Some(p) => (s.total_pause_ms + elapsed(p, now)) as u64,
                None => s.total_pause_ms,
            },
            ..s
        }
    }

    /// Whether accounting for error `e` in state `s` stops the recording.
    pub open spec fn error_stops(s: Self, e: AudioError) -> bool {
        ||| !recoverable(e)
        ||| recoverable(e) && s.recoverable_error_count + 1 >= MAX_RECOVERABLE_ERRORS
        ||| s.error_count + 1 >= MAX_TOTAL_ERRORS
    }

    /// The state after accounting for error `e`.
    pub open spec fn after_error(s: Self, e: AudioError) -> Self {
        let counted = RecordingState {
            error_count: (s.error_count + 1) as u32,
            recoverable_error_count: if recoverable(e) {
                (s.recoverable_error_count + 1) as u32
            } else {
                s.recoverable_error_count
            },
            last_error: Some(e),
            ..s
        };
        if Self::error_stops(s, e) {
            Self::stopped(counted)
        } else {
            counted
        }
    }

    /// The state is consistent: paused only while recording, and a pause
    /// start recorded only while paused.
    pub open spec fn wf(&self) -> bool {
        &&& self.is_paused ==> self.is_recording
        &&& self.pause_start_ms is Some ==> self.is_paused
    }

    /// All flags, devices, counters and timings cleared.
    pub open spec fn is_initial(&self) -> bool {
        &&& !self.is_recording
        &&& !self.is_paused
        &&& !self.is_reconnecting
        &&& self.microphone_device is None
        &&& self.system_device is None
        &&& self.disconnected_device is None
        &&& self.audio_sender is None
        &&& self.error_count == 0
        &&& self.recoverable_error_count == 0
        &&& self.last_error is None
        &&& self.stats.chunks_processed == 0
        &&& self.stats.last_activity_ms is None
        &&& self.recording_start_ms is None
        &&& self.pause_start_ms is None
        &&& self.total_pause_ms == 0
        &&& self.mic_rms_bits == 0
        &&& self.sys_rms_bits == 0
        &&& self.mic_peak_bits == 0
        &&& self.sys_peak_bits == 0
    }

    /// A state with no recording.
    pub fn new() -> (r: Self)
        ensures
            r.is_initial(),
            r.wf(),
    {
        RecordingState {
            is_recording: false,
            is_paused: false,
            is_reconnecting: false,
            microphone_device: None,
            system_device: None,
            disconnected_device: None,
            audio_sender: None,
            error_count: 0,
            recoverable_error_count: 0,
            last_error: None,
            stats: RecordingStats { chunks_processed: 0, last_activity_ms: None },
            recording_start_ms: None,
            pause_start_ms: None,
            total_pause_ms: 0,
            mic_rms_bits: 0,
            sys_rms_bits: 0,
            mic_peak_bits: 0,
            sys_peak_bits: 0,
        }
    }

    /// Starts recording at `now_ms`: the start time is taken and the error
    /// counters and last error are reset.
    pub fn start_recording(&mut self, now_ms: u64)
        requires
            old(self).wf(),
        ensures
            final(self).wf(),
            *final(self) == Self::started(*old(self), now_ms),
            final(self).is_recording,
            final(self).recording_start_ms == Some(now_ms),
            final(self).error_count == 0,
            final(self).recoverable_error_count == 0,
            final(self).last_error is None,
            final(self).is_paused == old(self).is_paused,
            final(self).is_reconnecting == old(self).is_reconnecting,
            final(self).pause_start_ms == old(self).pause_start_ms,
            final(self).total_pause_ms == old(self).total_pause_ms,
            final(self).microphone_device == old(self).microphone_device,
            final(self).system_device == old(self).system_device,
            final(self).disconnected_device == old(self).disconnected_device,
            final(self).audio_sender == old(self).audio_sender,
            final(self).stats == old(self).stats,
    {
        self.is_recording = true;
        self.recording_start_ms = Some(now_ms);
        self.error_count = 0;
        self.recoverable_error_count = 0;
        self.last_error = None;
    }

    /// Stops recording: not recording nor paused, no pause in progress, and
    /// the pipeline sender and device references dropped.
    pub fn stop_recording(&mut self)
        ensures
            final(self).wf(),
            *final(self) == Self::stopped(*old(self)),
            !final(self).is_recording,
            !final(self).is_paused,
            final(self).pause_start_ms is None,
            final(self).audio_sender is None,
            final(self).microphone_device is None,
            final(self).system_device is None,
            final(self).disconnected_device is None,
            final(self).is_reconnecting == old(self).is_reconnecting,
            final(self).error_count == old(self).error_count,
            final(self).recoverable_error_count == old(self).recoverable_error_count,
            final(self).last_error == old(self).last_error,
            final(self).stats == old(self).stats,
            final(self).recording_start_ms == old(self).recording_start_ms,
            final(self).total_pause_ms == old(self).total_pause_ms,
    {
        self.is_recording = false;
        self.is_paused = false;
        self.pause_start_ms = None;
        self.audio_sender = None;
        self.microphone_device = None;
        self.system_device = None;
        self.disconnected_device = None;
    }

    /// Pauses at `now_ms`; refused when not recording or already paused.
    pub fn pause_recording(&mut self, now_ms: u64) -> (r: Result<(), String>)
        requires
            old(self).wf(),
        ensures
            final(self).wf(),
            !old(self).is_recording ==> err_str(r) == Some("Cannot pause when not recording"@)
                && *final(self) == *old(self),
            old(self).is_recording && old(self).is_paused ==> err_str(r) == Some(
                "Recording is already paused"@,
            ) && *final(self) == *old(self),
            old(self).is_recording && !old(self).is_paused ==> r is Ok && *final(self)
                == Self::paused(*old(self), now_ms) && final(self).is_paused
                && final(self).pause_start_ms == Some(now_ms) && final(self).is_recording
                && final(self).total_pause_ms == old(self).total_pause_ms
                && final(self).recording_start_ms == old(self).recording_start_ms,
    {
        if !self.is_recording {
            return Err("Cannot pause when not recording".to_owned());
        }
        if self.is_paused {
            return Err("Recording is already paused".to_owned());
        }
        self.is_paused = true;
        self.pause_start_ms = Some(now_ms);
        Ok(())
    }

    /// Resumes at `now_ms`, adding the time since the pause began to the
    /// total pause; refused when not recording or not paused.
    pub fn resume_recording(&mut self, now_ms: u64) -> (r: Result<(), String>)
        requires
            old(self).wf(),
            old(self).pause_start_ms matches Some(p) ==> old(self).total_pause_ms + elapsed(p, now_ms)
                <= u64::MAX,
        ensures
            final(self).wf(),
            !old(self).is_recording ==> err_str(r) == Some(
                "Cannot resume when not recording"@,
            ) && *final(self) == *old(self),
            old(self).is_recording && !old(self).is_paused ==> err_str(r) == Some(
                "Recording is not paused"@,
            ) && *final(self) == *old(self),
            old(self).is_recording && old(self).is_paused ==> r is Ok && *final(self)
                == Self::resumed(*old(self), now_ms) && !final(self).is_paused
                && final(self).is_recording && final(self).pause_start_ms is None
                && final(self).total_pause_ms == match old(self).pause_start_ms {
                Some(p) => old(self).total_pause_ms + elapsed(p, now_ms),
                None => old(self).total_pause_ms as int,
            } && final(self).recording_start_ms == old(self).recording_start_ms,
    {
        if !self.is_recording {
            return Err("Cannot resume when not recording".to_owned());
        }
        if !self.is_paused {
            return Err("Recording is not paused".to_owned());
        }
        match self.pause_start_ms {
            Some(p) => {
                self.total_pause_ms = self.total_pause_ms + elapsed_ms(p, now_ms);
            },
            None => {},
        }
        self.pause_start_ms = None;
        self.is_paused = false;
        Ok(())
    }

    /// Whether a recording is in progress.
    pub fn is_recording(&self) -> (r: bool)
        ensures
            r == self.is_recording,
    {
        self.is_recording
    }

    /// Whether the recording is paused.
    pub fn is_paused(&self) -> (r: bool)
        ensures
            r == self.is_paused,
    {
        self.is_paused
    }

    /// Recording and not paused.
    pub fn is_active(&self) -> (r: bool)
        ensures
            r == (self.is_recording && !self.is_paused),
    {
        self.is_recording && !self.is_paused
    }

    /// Stores the level readings (as `f32` bit patterns) of the microphone
    /// or the system audio; readings of mixed chunks are ignored.
    pub fn set_audio_level(&mut self, device_type: DeviceType, rms_bits: u32, peak_bits: u32)
        ensures
            device_type == DeviceType::Microphone ==> final(self).mic_rms_bits == rms_bits
                && final(self).mic_peak_bits == peak_bits && final(self).sys_rms_bits == old(
                self,
            ).sys_rms_bits && final(self).sys_peak_bits == old(self).sys_peak_bits,
            device_type == DeviceType::System ==> final(self).sys_rms_bits == rms_bits
                && final(self).sys_peak_bits == peak_bits && final(self).mic_rms_bits == old(
                self,
            ).mic_rms_bits && final(self).mic_peak_bits == old(self).mic_peak_bits,
            device_type == DeviceType::Mixed ==> final(self).mic_rms_bits == old(self).mic_rms_bits
                && final(self).mic_peak_bits == old(self).mic_peak_bits && final(self).sys_rms_bits
                == old(self).sys_rms_bits && final(self).sys_peak_bits == old(self).sys_peak_bits,
            final(self).is_recording == old(self).is_recording,
            final(self).is_paused == old(self).is_paused,
            final(self).pause_start_ms == old(self).pause_start_ms,
    {
        match device_type {
            DeviceType::Microphone => {
                self.mic_rms_bits = rms_bits;
                self.mic_peak_bits = peak_bits;
            },
            DeviceType::System => {
                self.sys_rms_bits = rms_bits;
                self.sys_peak_bits = peak_bits;
            },
            DeviceType::Mixed => {},
        }
    }

    /// The level readings: microphone rms and peak, system rms and peak.
    pub fn get_audio_levels(&self) -> (r: (u32, u32, u32, u32))
        ensures
            r == (self.mic_rms_bits, self.mic_peak_bits, self.sys_rms_bits, self.sys_peak_bits),
    {
        (self.mic_rms_bits, self.mic_peak_bits, self.sys_rms_bits, self.sys_peak_bits)
    }

    /// Claims the reconnection for `device`: true, with the device stored,
    /// when no reconnection was in progress; false, with nothing changed,
    /// otherwise.
    pub fn start_reconnecting(&mut self, device: D, device_type: DeviceType) -> (r: bool)
        ensures
            r == !old(self).is_reconnecting,
            final(self).is_reconnecting,
            r ==> final(self).disconnected_device == Some((device, device_type)),
            r ==> *final(self) == (RecordingState {
                is_reconnecting: true,
                disconnected_device: Some((device, device_type)),
                ..*old(self)
            }),
            !r ==> *final(self) == *old(self),
            (*final(self), r) == reconnect_claim(*old(self), device, device_type),
    {
        if self.is_reconnecting {
            false
        } else {
            self.is_reconnecting = true;
            self.disconnected_device = Some((device, device_type));
            true
        }
    }

    /// Ends the reconnection attempt.
    pub fn stop_reconnecting(&mut self)
        ensures
            !final(self).is_reconnecting,
            final(self).disconnected_device is None,
            final(self).is_recording == old(self).is_recording,
            final(self).is_paused == old(self).is_paused,
            final(self).pause_start_ms == old(self).pause_start_ms,
            final(self).microphone_device == old(self).microphone_device,
            final(self).system_device == old(self).system_device,
            final(self).audio_sender == old(self).audio_sender,
            final(self).error_count == old(self).error_count,
            final(self).last_error == old(self).last_error,
    {
        self.is_reconnecting = false;
        self.disconnected_device = None;
    }

    /// Whether a lost device is being reconnected.
    pub fn is_reconnecting(&self) -> (r: bool)
        ensures
            r == self.is_reconnecting,
    {
        self.is_reconnecting
    }

    /// The device that was lost, with its kind.
    pub fn get_disconnected_device(&self) -> (r: &Option<(D, DeviceType)>)
        ensures
            *r == self.disconnected_device,
    {
        &self.disconnected_device
    }

    /// Sets the microphone.
    pub fn set_microphone_device(&mut self, device: D)
        ensures
            final(self).microphone_device == Some(device),
            final(self).system_device == old(self).system_device,
            final(self).is_recording == old(self).is_recording,
            final(self).is_paused == old(self).is_paused,
            final(self).pause_start_ms == old(self).pause_start_ms,
    {
        self.microphone_device = Some(device);
    }

    /// Sets the system audio device.
    pub fn set_system_device(&mut self, device: D)
        ensures
            final(self).system_device == Some(device),
            final(self).microphone_device == old(self).microphone_device,
            final(self).is_recording == old(self).is_recording,
            final(self).is_paused == old(self).is_paused,
            final(self).pause_start_ms == old(self).pause_start_ms,
    {
        self.system_device = Some(device);
    }

    /// The microphone, if set.
    pub fn get_microphone_device(&self) -> (r: &Option<D>)
        ensures
            *r == self.microphone_device,
    {
        &self.microphone_device
    }

    /// The system audio device, if set.
    pub fn get_system_device(&self) -> (r: &Option<D>)
        ensures
            *r == self.system_device,
    {
        &self.system_device
    }

    /// Installs the pipeline sender.
    pub fn set_audio_sender(&mut self, sender: S)
        ensures
            final(self).audio_sender == Some(sender),
            final(self).is_recording == old(self).is_recording,
            final(self).is_paused == old(self).is_paused,
            final(self).pause_start_ms == old(self).pause_start_ms,
            final(self).stats == old(self).stats,
    {
        self.audio_sender = Some(sender);
    }

    /// Where the next audio chunk goes: dropped while paused, refused
    /// without a pipeline, sent otherwise.
    pub fn chunk_route(&self) -> (r: ChunkRoute)
        ensures
            self.is_paused ==> r is Discard,
            !self.is_paused && self.audio_sender is None ==> r is NoSender,
            !self.is_paused && self.audio_sender is Some ==> r is Send,
    {
        if self.is_paused {
            ChunkRoute::Discard
        } else if self.audio_sender.is_some() {
            ChunkRoute::Send
        } else {
            ChunkRoute::NoSender
        }
    }

    /// Counts a chunk sent at `now_ms`.
    pub fn record_chunk_sent(&mut self, now_ms: u64)
        requires
            old(self).stats.chunks_processed < u64::MAX,
        ensures
            final(self).stats.chunks_processed == old(self).stats.chunks_processed + 1,
            final(self).stats.last_activity_ms == Some(now_ms),
            final(self).is_recording == old(self).is_recording,
            final(self).is_paused == old(self).is_paused,
            final(self).pause_start_ms == old(self).pause_start_ms,
            final(self).audio_sender == old(self).audio_sender,
    {
        self.stats.chunks_processed = self.stats.chunks_processed + 1;
        self.stats.last_activity_ms = Some(now_ms);
    }

    /// Accounts for an error: the total count rises, and the recoverable
    /// count for a recoverable error; the error becomes the last one.
    /// Recording stops on a non-recoverable error, on the tenth recoverable
    /// one, or on the fifteenth error of any kind. The answer tells whether
    /// it stopped.
    pub fn report_error(&mut self, error: AudioError) -> (stopped: bool)
        requires
            old(self).wf(),
            old(self).error_count < u32::MAX,
            old(self).recoverable_error_count < u32::MAX,
        ensures
            final(self).wf(),
            *final(self) == Self::after_error(*old(self), error),
            stopped == Self::error_stops(*old(self), error),
            final(self).error_count == old(self).error_count + 1,
            recoverable(error) ==> final(self).recoverable_error_count == old(
                self,
            ).recoverable_error_count + 1,
            !recoverable(error) ==> final(self).recoverable_error_count == old(
                self,
            ).recoverable_error_count,
            final(self).last_error == Some(error),
            stopped == (!recoverable(error) || final(self).recoverable_error_count
                >= MAX_RECOVERABLE_ERRORS || final(self).error_count >= MAX_TOTAL_ERRORS),
            stopped ==> !final(self).is_recording && !final(self).is_paused
                && final(self).audio_sender is None && final(self).microphone_device is None
                && final(self).system_device is None && final(self).disconnected_device is None,
            !stopped ==> final(self).is_recording == old(self).is_recording && final(self).is_paused
                == old(self).is_paused && final(self).audio_sender == old(self).audio_sender
                && final(self).microphone_device == old(self).microphone_device
                && final(self).system_device == old(self).system_device
                && final(self).disconnected_device == old(self).disconnected_device,
            final(self).is_reconnecting == old(self).is_reconnecting,
            final(self).stats == old(self).stats,
    {
        self.error_count = self.error_count + 1;
        let count = self.error_count;
        let mut should_stop = false;
        if error.is_recoverable() {
            self.recoverable_error_count = self.recoverable_error_count + 1;
            if self.recoverable_error_count >= MAX_RECOVERABLE_ERRORS {
                should_stop = true;
            }
        } else {
            should_stop = true;
        }
        if count >= MAX_TOTAL_ERRORS {
            should_stop = true;
        }
        self.last_error = Some(error);
        if should_stop {
            self.stop_recording();
        }
        should_stop
    }

    /// How many errors were reported.
    pub fn get_error_count(&self) -> (r: u32)
        ensures
            r == self.error_count,
    {
        self.error_count
    }

    /// How many recoverable errors were reported.
    pub fn get_recoverable_error_count(&self) -> (r: u32)
        ensures
            r == self.recoverable_error_count,
    {
        self.recoverable_error_count
    }

    /// The last error reported, if any.
    pub fn get_last_error(&self) -> (r: Option<AudioError>)
        ensures
            r == self.last_error,
    {
        self.last_error
    }

    /// The last error is not recoverable and errors have been counted.
    pub fn has_fatal_error(&self) -> (r: bool)
        ensures
            r == (self.last_error matches Some(e) && !recoverable(e) && self.error_count > 0),
    {
        match self.last_error {
            Some(e) => !e.is_recoverable() && self.error_count > 0,
            None => false,
        }
    }

    /// The statistics of the recording.
    pub fn get_stats(&self) -> (r: RecordingStats)
        ensures
            r == self.stats,
    {
        self.stats
    }

    /// Milliseconds since recording started, if it did.
    pub fn get_recording_duration(&self, now_ms: u64) -> (r: Option<u64>)
        ensures
            r == match self.recording_start_ms {
                Some(s) => Some(elapsed(s, now_ms)),
                None => None,
            },
    {
        match self.recording_start_ms {
            Some(s) => Some(elapsed_ms(s, now_ms)),
            None => None,
        }
    }

    /// Milliseconds of pause accumulated by completed pauses.
    pub fn get_total_pause_duration(&self) -> (r: u64)
        ensures
            r == self.total_pause_ms,
    {
        self.total_pause_ms
    }

    /// Milliseconds of the pause in progress, while paused.
    pub fn get_current_pause_duration(&self, now_ms: u64) -> (r: Option<u64>)
        ensures
            r == if self.is_paused {
                match self.pause_start_ms {
                    Some(p) => Some(elapsed(p, now_ms)),
                    None => None,
                }
            } else {
                None
            },
    {
        if self.is_paused {
            match self.pause_start_ms {
                Some(p) => Some(elapsed_ms(p, now_ms)),
                None => None,
            }
        } else {
            None
        }
    }

    /// Milliseconds of recording without pauses, if recording started: the
    /// elapsed time less the completed pauses and the pause in progress.
    pub fn get_active_recording_duration(&self, now_ms: u64) -> (r: Option<i128>)
        ensures
            r == match self.recording_start_ms {
                Some(s) => Some(
                    (elapsed(s, now_ms) - self.total_pause_ms - if self.is_paused {
                        match self.pause_start_ms {
                            Some(p) => elapsed(p, now_ms) as int,
                            None => 0int,
                        }
                    } else {
                        0int
                    }) as i128,
                ),
                None => None,
            },
    {
        match self.recording_start_ms {
            Some(s) => {
                let total = elapsed_ms(s, now_ms) as i128;
                let current: i128 = if self.is_paused {
                    match self.pause_start_ms {
                        Some(p) => elapsed_ms(p, now_ms) as i128,
                        None => 0,
                    }
                } else {
                    0
                };
                Some(total - self.total_pause_ms as i128 - current)
            },
            None => None,
        }
    }

    /// Stops recording and reconnection and clears devices, pipeline,
    /// errors, statistics and timings (the level readings stay).
    pub fn cleanup(&mut self)
        ensures
            final(self).wf(),
            !final(self).is_recording,
            !final(self).is_paused,
            !final(self).is_reconnecting,
            final(self).microphone_device is None,
            final(self).system_device is None,
            final(self).disconnected_device is None,
            final(self).audio_sender is None,
            final(self).error_count == 0,
            final(self).recoverable_error_count == 0,
            final(self).last_error is None,
            final(self).stats.chunks_processed == 0,
            final(self).stats.last_activity_ms is None,
            final(self).recording_start_ms is None,
            final(self).pause_start_ms is None,
            final(self).total_pause_ms == 0,
            final(self).mic_rms_bits == old(self).mic_rms_bits,
            final(self).sys_rms_bits == old(self).sys_rms_bits,
            final(self).mic_peak_bits == old(self).mic_peak_bits,
            final(self).sys_peak_bits == old(self).sys_peak_bits,
    {
        self.is_recording = false;
        self.is_paused = false;
        self.is_reconnecting = false;
        self.microphone_device = None;
        self.system_device = None;
        self.disconnected_device = None;
        self.audio_sender = None;
        self.last_error = None;
        self.stats = RecordingStats { chunks_processed: 0, last_activity_ms: None };
        self.recording_start_ms = None;
        self.pause_start_ms = None;
        self.total_pause_ms = 0;
        self.error_count = 0;
        self.recoverable_error_count = 0;
    }
}

/// The state after accounting for each error of `es` in turn.
pub open spec fn after_errors<D, S>(s: RecordingState<D, S>, es: Seq<AudioError>) -> RecordingState<
    D,
    S,
>
    decreases es.len(),
{
    if es.len() == 0 {
        s
    } else {
        RecordingState::<D, S>::after_error(after_errors(s, es.drop_last()), es.last())
    }
}

/// A pause followed by a resume leaves the recording running and unpaused,
/// with the time between them added to the total pause and nothing else
/// changed.
pub proof fn pause_resume_roundtrip<D, S>(s: RecordingState<D, S>, t1: u64, t2: u64)
    requires
        s.wf(),
        s.is_recording,
        !s.is_paused,
        t1 <= t2,
        s.total_pause_ms + (t2 - t1) <= u64::MAX,
    ensures
        ({
            let r = RecordingState::<D, S>::resumed(RecordingState::<D, S>::paused(s, t1), t2);
            &&& r.is_recording && !r.is_paused && r.pause_start_ms is None
            &&& r.total_pause_ms == s.total_pause_ms + (t2 - t1)
            &&& r == RecordingState { total_pause_ms: (s.total_pause_ms + (t2 - t1)) as u64, ..s }
        }),
{
    assert(s.pause_start_ms is None);
}

/// Recording survives up to nine recoverable errors after it starts and
/// stops at the tenth.
pub proof fn recording_stops_at_tenth_recoverable_error<D, S>(
    s: RecordingState<D, S>,
    es: Seq<AudioError>,
)
    requires
        s.is_recording,
        s.error_count == 0,
        s.recoverable_error_count == 0,
        es.len() <= MAX_RECOVERABLE_ERRORS,
        forall|i: int| 0 <= i < es.len() ==> recoverable(#[trigger] es[i]),
    ensures
        after_errors(s, es).error_count == es.len(),
        after_errors(s, es).recoverable_error_count == es.len(),
        after_errors(s, es).is_recording == (es.len() < MAX_RECOVERABLE_ERRORS),
    decreases es.len(),
{
    if es.len() > 0 {
        let init = es.drop_last();
        assert forall|i: int| 0 <= i < init.len() implies recoverable(#[trigger] init[i]) by {
            assert(init[i] == es[i]);
        }
        recording_stops_at_tenth_recoverable_error(s, init);
        assert(recoverable(es[es.len() - 1]));
    }
}

/// The state and the answer after one reconnection claim for `device`: the
/// claim is granted, and the device stored, only when no reconnection is in
/// progress; a refused claim changes nothing.
pub open spec fn reconnect_claim<D, S>(s: RecordingState<D, S>, device: D, device_type: DeviceType) -> (
    RecordingState<D, S>,
    bool,
) {
    if s.is_reconnecting {
        (s, false)
    } else {
        (
            RecordingState {
                is_reconnecting: true,
                disconnected_device: Some((device, device_type)),
                ..s
            },
            true,
        )
    }
}

/// The state and the answers after the claims of `calls`, in order, with
/// no end of reconnection between them.
pub open spec fn reconnect_claims<D, S>(s: RecordingState<D, S>, calls: Seq<(D, DeviceType)>) -> (
    RecordingState<D, S>,
    Seq<bool>,
)
    decreases calls.len(),
{
    if calls.len() == 0 {
        (s, Seq::empty())
    } else {
        let one = reconnect_claim(s, calls[0].0, calls[0].1);
        let rest = reconnect_claims(one.0, calls.drop_first());
        (rest.0, seq![one.1] + rest.1)
    }
}

proof fn lemma_claims_while_reconnecting<D, S>(s: RecordingState<D, S>, calls: Seq<(D, DeviceType)>)
    requires
        s.is_reconnecting,
    ensures
        reconnect_claims(s, calls).0 == s,
        reconnect_claims(s, calls).1.len() == calls.len(),
        forall|k: int| 0 <= k < calls.len() ==> !#[trigger] reconnect_claims(s, calls).1[k],
    decreases calls.len(),
{
    if calls.len() > 0 {
        lemma_claims_while_reconnecting(s, calls.drop_first());
        let rest = reconnect_claims(s, calls.drop_first()).1;
        assert forall|k: int| 0 <= k < calls.len() implies !#[trigger] reconnect_claims(
            s,
            calls,
        ).1[k] by {
            if k > 0 {
                assert(reconnect_claims(s, calls).1[k] == rest[k - 1]);
            }
        }
    }
}

/// Of any number of reconnection claims made while none is in progress,
/// with no end of reconnection between them, exactly one is granted, the
/// first: the state then holds its device, and every later claim is refused
/// and changes nothing.
pub proof fn reconnection_is_claimed_once<D, S>(s: RecordingState<D, S>, calls: Seq<(D, DeviceType)>)
    requires
        !s.is_reconnecting,
        calls.len() > 0,
    ensures
        reconnect_claims(s, calls).1.len() == calls.len(),
        reconnect_claims(s, calls).1[0],
        forall|k: int| 1 <= k < calls.len() ==> !#[trigger] reconnect_claims(s, calls).1[k],
        reconnect_claims(s, calls).0 == (RecordingState {
            is_reconnecting: true,
            disconnected_device: Some((calls[0].0, calls[0].1)),
            ..s
        }),
{
    let first = reconnect_claim(s, calls[0].0, calls[0].1);
    lemma_claims_while_reconnecting(first.0, calls.drop_first());
    let rest = reconnect_claims(first.0, calls.drop_first()).1;
    assert forall|k: int| 1 <= k < calls.len() implies !#[trigger] reconnect_claims(s, calls).1[k] by {
        assert(reconnect_claims(s, calls).1[k] == rest[k - 1]);
    }
}

/// A non-recoverable error always stops the recording.
pub proof fn fatal_error_stops_recording<D, S>(s: RecordingState<D, S>, e: AudioError)
    requires
        !recoverable(e),
    ensures
        !RecordingState::<D, S>::after_error(s, e).is_recording,
        RecordingState::<D, S>::after_error(s, e).last_error == Some(e),
{
}

/// The process-wide flag telling whether a recording is in progress.
pub struct RecordingFlag {
    pub active: bool,
}

/// Sets whether a recording is in progress.
pub fn set_recording_flag(flag: &mut RecordingFlag, value: bool)
    ensures
        final(flag).active == value,
{
    flag.active = value;
}

/// Whether a recording is in progress.
pub fn is_recording_active(flag: &RecordingFlag) -> (r: bool)
    ensures
        r == flag.active,
{
    flag.active
}

/// A new recording may start only when none is in progress.
pub fn check_can_start_recording(flag: &RecordingFlag) -> (r: Result<(), String>)
    ensures
        flag.active ==> err_str(r) == Some("Recording already in progress"@),
        !flag.active ==> r is Ok,
{
    if flag.active {
        Err("Recording already in progress".to_owned())
    } else {
        Ok(())
    }
}

/// Pausing and resuming need a recording in progress.
pub fn check_recording_in_progress(flag: &RecordingFlag) -> (r: Result<(), String>)
    ensures
        !flag.active ==> err_str(r) == Some("No recording is currently active"@),
        flag.active ==> r is Ok,
{
    if !flag.active {
        Err("No recording is currently active".to_owned())
    } else {
        Ok(())
    }
}

} // verus!
