//! The recording session state machine: at most one capture is active, a
//! stop must name the active session, and every stop ends in `Idle`.
//!
//! The capture itself (a worker thread and its stop signal) is the host's,
//! and travels through this machine as the opaque handle `H`. The host holds
//! the machine behind one lock; it begins a capture under that lock, so that
//! the check that a start is legal and the start itself are one step, and
//! never keeps it locked while it finalises, fetches or transcribes.

use vstd::prelude::*;
use crate::command_parser::ParseResult;
use crate::config::default_config;
use crate::model::{is_supported_model, model_file};
use crate::text::same_text;
use crate::transcription::WhisperOutput;
use crate::types::{AppConfig, AppStatus, RecordingState, TranscriptionResult};

verus! {

/// The lower-case hexadecimal digits.
pub open spec fn hex_char(n: nat) -> char {
    seq!['0', '1', '2', '3', '4', '5', '6', '7', '8', '9', 'a', 'b', 'c', 'd', 'e', 'f'][(n % 16) as int]
}

/// The last `count` hexadecimal digits of `v`, most significant first.
pub open spec fn hex_digits(v: nat, count: nat) -> Seq<char>
    decreases count,
{
    if count == 0 {
        seq![]
    } else {
        hex_digits(v / 16, (count - 1) as nat).push(hex_char(v % 16))
    }
}

/// The hyphenated lower-case form of the UUID whose 128 bits, most
/// significant first, are `v`: 8, 4, 4, 4 and 12 hexadecimal digits, joined
/// by hyphens.
pub open spec fn uuid_text(v: u128) -> Seq<char> {
    let d = hex_digits(v as nat, 32);
    d.subrange(0, 8) + seq!['-'] + d.subrange(8, 12) + seq!['-'] + d.subrange(12, 16) + seq!['-']
        + d.subrange(16, 20) + seq!['-'] + d.subrange(20, 32)
}

/// Relies on `uuid::Uuid::new_v4`: a random (version 4) UUID, handed over as
/// its 128 bits through `Uuid::as_u128`.
#[verifier::external_body]
fn fresh_session_id() -> (r: u128) {
    uuid::Uuid::new_v4().as_u128()
}

/// Relies on `uuid::Uuid::from_u128` and the `Display` of `Uuid`, which
/// writes the hyphenated lower-case form.
#[verifier::external_body]
fn session_id_text(id: u128) -> (r: String)
    ensures
        r@ == uuid_text(id),
{
    uuid::Uuid::from_u128(id).to_string()
}

/// The active capture: its identity and the host's handle on it.
pub struct ActiveSession<H> {
    pub id: u128,
    pub handle: H,
}

/// The state that the host keeps behind its lock.
pub struct AppStateInner<H> {
    pub status: AppStatus,
    pub config: AppConfig,
    pub active_session: Option<ActiveSession<H>>,
}

/// The error of a start while a session is recording or being finalised.
pub open spec fn already_active_msg() -> Seq<char> {
    "recording session already active"@
}

/// The error of a stop when no session is active.
pub open spec fn no_session_msg() -> Seq<char> {
    "no active recording session"@
}

/// The error of a stop that names another session than the active one.
pub open spec fn mismatch_msg() -> Seq<char> {
    "session id mismatch"@
}

/// The view of a `Result` whose error is a `String`.
pub open spec fn err_view<T>(r: Result<T, String>) -> Result<T, Seq<char>> {
    match r {
        Ok(v) => Ok(v),
        Err(e) => Err(e@),
    }
}

/// The view of a `Result` of two `String`s.
pub open spec fn text_result_view(r: Result<String, String>) -> Result<Seq<char>, Seq<char>> {
    match r {
        Ok(v) => Ok(v@),
        Err(e) => Err(e@),
    }
}

/// `s` with its recording state set to `state`.
pub open spec fn with_state<H>(s: AppStateInner<H>, state: RecordingState) -> AppStateInner<H> {
    AppStateInner { status: AppStatus { recording_state: state, ..s.status }, ..s }
}

/// A start: legal only in `Idle`. With the capture begun (`begun` holds its
/// handle) the session becomes the active one under identity `id` and the
/// state `Recording`, and the result is the identity's text; a capture that
/// could not begin is reported and changes nothing.
pub open spec fn start_next<H>(s: AppStateInner<H>, begun: Result<H, Seq<char>>, id: u128) -> (
    AppStateInner<H>,
    Result<Seq<char>, Seq<char>>,
) {
    if s.status.recording_state != RecordingState::Idle {
        (s, Err(already_active_msg()))
    } else {
        match begun {
            Err(e) => (s, Err(e)),
            Ok(h) => (
                AppStateInner {
                    active_session: Some(ActiveSession { id, handle: h }),
                    ..with_state(s, RecordingState::Recording)
                },
                Ok(uuid_text(id)),
            ),
        }
    }
}

/// The first half of a stop that names `sid`: the active session is taken
/// out in any case; if it is the one named, it is handed over for
/// finalisation and the state becomes `Transcribing`; otherwise the stop
/// fails and the state returns to `Idle`.
pub open spec fn stop_next<H>(s: AppStateInner<H>, sid: Seq<char>) -> (
    AppStateInner<H>,
    Result<ActiveSession<H>, Seq<char>>,
) {
    match s.active_session {
        None => (s, Err(no_session_msg())),
        Some(a) => if uuid_text(a.id) == sid {
            (
                AppStateInner {
                    active_session: None,
                    ..with_state(s, RecordingState::Transcribing)
                },
                Ok(a),
            )
        } else {
            (
                AppStateInner { active_session: None, ..with_state(s, RecordingState::Idle) },
                Err(mismatch_msg()),
            )
        },
    }
}

/// `s` after a stop has ended with `outcome`: `Idle`, with the outcome's
/// error recorded, if any.
pub open spec fn finished<H>(s: AppStateInner<H>, outcome: Result<TranscriptionResult, String>) -> AppStateInner<H> {
    AppStateInner {
        status: AppStatus {
            last_error: match outcome {
                Ok(_) => None,
                Err(e) => Some(e),
            },
            ..with_state(s, RecordingState::Idle).status
        },
        ..s
    }
}

/// `s` with `message` as its last error.
pub open spec fn with_last_error<H>(s: AppStateInner<H>, message: Option<String>) -> AppStateInner<H> {
    AppStateInner { status: AppStatus { last_error: message, ..s.status }, ..s }
}

/// `s` with `model_id` as the model to transcribe with.
pub open spec fn with_model<H>(s: AppStateInner<H>, model_id: String) -> AppStateInner<H> {
    AppStateInner { config: AppConfig { model_default: model_id, ..s.config }, ..s }
}

/// `s` with `paste_mode` as the way text is delivered.
pub open spec fn with_paste_mode<H>(s: AppStateInner<H>, paste_mode: String) -> AppStateInner<H> {
    AppStateInner { config: AppConfig { paste_mode, ..s.config }, ..s }
}

/// The identity of the active session of `s`, or zero when there is none.
pub open spec fn session_id_of<H>(s: AppStateInner<H>) -> u128 {
    match s.active_session {
        Some(a) => a.id,
        None => 0,
    }
}

impl<H> AppStateInner<H> {
    /// A session is active exactly while the state is `Recording`.
    pub open spec fn wf(&self) -> bool {
        self.active_session is Some <==> self.status.recording_state == RecordingState::Recording
    }

    /// The state at launch: `Idle`, no session, no error, no model known to
    /// be ready, with settings `config` and the permission flags given.
    pub fn new(config: AppConfig, microphone_granted: bool, accessibility_granted: bool) -> (r: Self)
        ensures
            r.wf(),
            r.status.recording_state == RecordingState::Idle,
            r.active_session is None,
            r.config == config,
            !r.status.model_ready,
            r.status.microphone_granted == microphone_granted,
            r.status.accessibility_granted == accessibility_granted,
            r.status.last_error is None,
    {
        AppStateInner {
            status: AppStatus {
                recording_state: RecordingState::Idle,
                model_ready: false,
                microphone_granted,
                accessibility_granted,
                last_error: None,
            },
            config,
            active_session: None,
        }
    }

    /// The launch state with the default settings.
    pub fn with_defaults(microphone_granted: bool, accessibility_granted: bool) -> (r: Self)
        ensures
            r.wf(),
            r.status.recording_state == RecordingState::Idle,
            r.active_session is None,
            crate::config::is_default_config(r.config),
    {
        Self::new(default_config(), microphone_granted, accessibility_granted)
    }

    /// Tells whether a start is legal now.
    pub fn can_start(&self) -> (r: bool)
        ensures
            r == (self.status.recording_state == RecordingState::Idle),
    {
        match self.status.recording_state {
            RecordingState::Idle => true,
            _ => false,
        }
    }

    /// The identity of the active session, as text.
    pub fn active_session_id(&self) -> (r: Option<String>)
        ensures
            r is Some <==> self.active_session is Some,
            r is Some ==> r.unwrap()@ == uuid_text(self.active_session.unwrap().id),
    {
        match &self.active_session {
            Some(a) => Some(session_id_text(a.id)),
            None => None,
        }
    }

    /// Starts a session whose capture `begun` is, or reports why the capture
    /// could not begin. The host begins the capture only when `can_start`
    /// says so, without releasing its lock in between.
    pub fn start_session(&mut self, begun: Result<H, String>) -> (r: Result<String, String>)
        requires
            old(self).wf(),
        ensures
            final(self).wf(),
            (*final(self), text_result_view(r)) == start_next(
                *old(self),
                err_view(begun),
                session_id_of(*final(self)),
            ),
    {
        if !self.can_start() {
            return Err(String::from_str("recording session already active"));
        }
        match begun {
            Err(e) => Err(e),
            Ok(h) => {
                let id = fresh_session_id();
                let text = session_id_text(id);
                self.status.recording_state = RecordingState::Recording;
                self.active_session = Some(ActiveSession { id, handle: h });
                Ok(text)
            },
        }
    }

    /// The first half of a stop that names `session_id`: takes the active
    /// session out and hands it over for finalisation if it is the one named.
    pub fn stop_session(&mut self, session_id: &str) -> (r: Result<ActiveSession<H>, String>)
        requires
            old(self).wf(),
        ensures
            final(self).wf(),
            (*final(self), err_view(r)) == stop_next(*old(self), session_id@),
    {
        match self.active_session.take() {
            None => Err(String::from_str("no active recording session")),
            Some(a) => {
                let text = session_id_text(a.id);
                if same_text(text.as_str(), session_id) {
                    self.status.recording_state = RecordingState::Transcribing;
                    Ok(a)
                } else {
                    self.status.recording_state = RecordingState::Idle;
                    Err(String::from_str("session id mismatch"))
                }
            },
        }
    }

    /// The second half of a stop: whatever came of the finalisation, the
    /// state returns to `Idle` and its error, if any, is recorded.
    pub fn finish_session(&mut self, outcome: &Result<TranscriptionResult, String>)
        requires
            old(self).wf(),
            old(self).active_session is None,
        ensures
            final(self).wf(),
            *final(self) == finished(*old(self), *outcome),
    {
        self.status.recording_state = RecordingState::Idle;
        self.status.last_error = match outcome {
            Ok(_) => None,
            Err(e) => Some(e.clone()),
        };
    }

    /// Records `message` as the last error, or clears it.
    pub fn set_last_error(&mut self, message: Option<String>)
        ensures
            *final(self) == with_last_error(*old(self), message),
    {
        self.status.last_error = message;
    }

    /// Makes `model_id` the model to transcribe with, or fails with "invalid
    /// model id" for an unknown id and changes nothing.
    pub fn set_model(&mut self, model_id: String) -> (r: Result<(), String>)
        ensures
            r is Ok <==> model_file(model_id@) is Some,
            r is Ok ==> *final(self) == with_model(*old(self), model_id),
            r is Err ==> *final(self) == *old(self) && r->Err_0@ == "invalid model id"@,
    {
        if !is_supported_model(model_id.as_str()) {
            return Err(String::from_str("invalid model id"));
        }
        self.config.model_default = model_id;
        Ok(())
    }

    /// Sets how text is delivered, "clipboard" or "auto-paste", or fails with
    /// "invalid paste mode" and changes nothing.
    pub fn set_paste_mode(&mut self, paste_mode: String) -> (r: Result<(), String>)
        ensures
            r is Ok <==> (paste_mode@ == "clipboard"@ || paste_mode@ == "auto-paste"@),
            r is Ok ==> *final(self) == with_paste_mode(*old(self), paste_mode),
            r is Err ==> *final(self) == *old(self) && r->Err_0@ == "invalid paste mode"@,
    {
        if !(same_text(paste_mode.as_str(), "clipboard") || same_text(
            paste_mode.as_str(),
            "auto-paste",
        )) {
            return Err(String::from_str("invalid paste mode"));
        }
        self.config.paste_mode = paste_mode;
        Ok(())
    }
}

/// Puts together the outcome of a completed dictation. Its latency is the
/// time the capture ran plus the time the stop took.
pub fn assemble_result(
    whisper: WhisperOutput,
    parsed: ParseResult,
    delivery: String,
    capture_ms: u128,
    processing_ms: u128,
) -> (r: TranscriptionResult)
    requires
        capture_ms + processing_ms <= u128::MAX,
    ensures
        r.raw_text == whisper.text,
        r.transformed_text == parsed.transformed_text,
        r.commands_applied == parsed.commands_applied,
        r.latency_ms == capture_ms + processing_ms,
        r.confidence_percent == whisper.confidence_percent,
        r.delivery == delivery,
{
    TranscriptionResult {
        raw_text: whisper.text,
        transformed_text: parsed.transformed_text,
        commands_applied: parsed.commands_applied,
        latency_ms: capture_ms + processing_ms,
        confidence_percent: whisper.confidence_percent,
        delivery,
    }
}

/// Only one session at a time: once a start has succeeded, a second start
/// fails with "recording session already active", changes nothing, and the
/// state stays `Recording`.
pub proof fn lemma_single_active_session<H>(
    s: AppStateInner<H>,
    first: Result<H, Seq<char>>,
    first_id: u128,
    second: Result<H, Seq<char>>,
    second_id: u128,
)
    requires
        s.wf(),
        start_next(s, first, first_id).1 is Ok,
    ensures
        ({
            let s1 = start_next(s, first, first_id).0;
            let (s2, r2) = start_next(s1, second, second_id);
            &&& s1.wf()
            &&& r2 == Err::<Seq<char>, Seq<char>>(already_active_msg())
            &&& s2 == s1
            &&& s2.status.recording_state == RecordingState::Recording
        }),
{
}

/// A stop that names another session than the active one fails with
/// "session id mismatch" and leaves no session active and the state `Idle`.
pub proof fn lemma_foreign_stop_rejected<H>(s: AppStateInner<H>, sid: Seq<char>)
    requires
        s.wf(),
        s.active_session is Some,
        sid != uuid_text(s.active_session.unwrap().id),
    ensures
        ({
            let (s1, r) = stop_next(s, sid);
            &&& r == Err::<ActiveSession<H>, Seq<char>>(mismatch_msg())
            &&& s1.active_session is None
            &&& s1.status.recording_state == RecordingState::Idle
            &&& s1.wf()
        }),
{
}

} // verus!
