//! Values that the dictation pipeline reports to and takes from its host.

use vstd::prelude::*;

verus! {

/// Where the recording state machine stands.
#[derive(Debug, Clone, Copy, PartialEq, Eq, Structural)]
pub enum RecordingState {
    Idle,
    Recording,
    Transcribing,
}

/// A snapshot of the application's state for display.
#[derive(Debug, Clone)]
pub struct AppStatus {
    pub recording_state: RecordingState,
    pub model_ready: bool,
    pub microphone_granted: bool,
    pub accessibility_granted: bool,
    pub last_error: Option<String>,
}

/// Privacy switches of the configuration.
#[derive(Debug, Clone, Copy, PartialEq, Eq, Structural)]
pub struct PrivacyConfig {
    pub telemetry_enabled: bool,
    pub persist_audio_debug: bool,
}

/// The user's settings.
#[derive(Debug, Clone)]
pub struct AppConfig {
    pub hotkey: String,
    pub model_default: String,
    pub command_mode: String,
    pub paste_mode: String,
    pub language: String,
    pub privacy: PrivacyConfig,
}

/// The outcome of one completed dictation: the transcript as recognised and
/// as rewritten, the commands that fired, the time from the start of the
/// capture to delivery, the recogniser's confidence in percent, and how the
/// text was delivered.
#[derive(Debug, Clone)]
pub struct TranscriptionResult {
    pub raw_text: String,
    pub transformed_text: String,
    pub commands_applied: Vec<String>,
    pub latency_ms: u128,
    pub confidence_percent: u8,
    pub delivery: String,
}

} // verus!
