use openspeak::command_parser::apply_basic_commands;
use openspeak::config::default_config;
use openspeak::session::{assemble_result, AppStateInner};
use openspeak::transcription::WhisperOutput;
use openspeak::types::RecordingState;

fn is_uuid_text(s: &str) -> bool {
    s.len() == 36
        && s.chars().enumerate().all(|(i, c)| {
            if i == 8 || i == 13 || i == 18 || i == 23 {
                c == '-'
            } else {
                c.is_ascii_hexdigit() && !c.is_ascii_uppercase()
            }
        })
}

#[test]
fn start_then_second_start_conflicts() {
    let mut s: AppStateInner<u32> = AppStateInner::new(default_config(), true, false);
    assert!(s.can_start());
    let id = s.start_session(Ok(7)).unwrap();
    assert!(is_uuid_text(&id));
    assert_eq!(s.status.recording_state, RecordingState::Recording);
    let second = s.start_session(Ok(8));
    assert_eq!(second, Err("recording session already active".to_string()));
    assert_eq!(s.status.recording_state, RecordingState::Recording);
    assert_eq!(s.active_session.as_ref().unwrap().handle, 7);
    assert_eq!(s.active_session_id(), Some(id));
}

#[test]
fn failed_capture_start_changes_nothing() {
    let mut s: AppStateInner<u32> = AppStateInner::new(default_config(), true, false);
    let r = s.start_session(Err("no input microphone device found".to_string()));
    assert_eq!(r, Err("no input microphone device found".to_string()));
    assert_eq!(s.status.recording_state, RecordingState::Idle);
    assert!(s.active_session.is_none());
}

#[test]
fn stop_with_fabricated_id_is_rejected() {
    let mut s: AppStateInner<u32> = AppStateInner::new(default_config(), true, false);
    let _id = s.start_session(Ok(1)).unwrap();
    let r = s.stop_session("00000000-0000-0000-0000-000000000000");
    assert_eq!(r.err(), Some("session id mismatch".to_string()));
    assert!(s.active_session.is_none());
    assert_eq!(s.status.recording_state, RecordingState::Idle);
    assert!(s.can_start());
}

#[test]
fn stop_without_session_fails() {
    let mut s: AppStateInner<u32> = AppStateInner::new(default_config(), true, false);
    let r = s.stop_session("anything");
    assert_eq!(r.err(), Some("no active recording session".to_string()));
    assert_eq!(s.status.recording_state, RecordingState::Idle);
}

#[test]
fn full_session_cycle_returns_to_idle() {
    let mut s: AppStateInner<u32> = AppStateInner::new(default_config(), true, false);
    let id = s.start_session(Ok(5)).unwrap();
    let taken = s.stop_session(&id).ok().unwrap();
    assert_eq!(taken.handle, 5);
    assert_eq!(s.status.recording_state, RecordingState::Transcribing);
    // no start while the session is being finalised
    assert!(!s.can_start());
    assert_eq!(
        s.start_session(Ok(6)),
        Err("recording session already active".to_string())
    );
    let parsed = apply_basic_commands("hello comma world");
    let whisper = WhisperOutput { text: "hello comma world".to_string(), confidence_percent: 90 };
    let result = assemble_result(whisper, parsed, "clipboard".to_string(), 1200, 300);
    assert_eq!(result.latency_ms, 1500);
    assert_eq!(result.transformed_text, "hello, world");
    assert_eq!(result.raw_text, "hello comma world");
    assert_eq!(result.confidence_percent, 90);
    assert_eq!(result.delivery, "clipboard");
    let outcome = Ok(result);
    s.finish_session(&outcome);
    assert_eq!(s.status.recording_state, RecordingState::Idle);
    assert!(s.status.last_error.is_none());
}

#[test]
fn failed_finalisation_records_error() {
    let mut s: AppStateInner<u32> = AppStateInner::new(default_config(), true, false);
    let id = s.start_session(Ok(5)).unwrap();
    let _ = s.stop_session(&id).ok().unwrap();
    s.finish_session(&Err("no microphone audio captured".to_string()));
    assert_eq!(s.status.recording_state, RecordingState::Idle);
    assert_eq!(s.status.last_error, Some("no microphone audio captured".to_string()));
}

#[test]
fn toggle_target_follows_active_session() {
    let mut s: AppStateInner<u32> = AppStateInner::new(default_config(), true, false);
    assert_eq!(s.active_session_id(), None);
    let id = s.start_session(Ok(1)).unwrap();
    assert_eq!(s.active_session_id(), Some(id));
}

#[test]
fn model_and_paste_mode_are_validated() {
    let mut s: AppStateInner<u32> = AppStateInner::with_defaults(false, false);
    assert_eq!(s.set_model("huge".to_string()), Err("invalid model id".to_string()));
    assert_eq!(s.config.model_default, "tiny");
    assert_eq!(s.set_model("base".to_string()), Ok(()));
    assert_eq!(s.config.model_default, "base");
    assert_eq!(s.set_paste_mode("typing".to_string()), Err("invalid paste mode".to_string()));
    assert_eq!(s.config.paste_mode, "clipboard");
    assert_eq!(s.set_paste_mode("auto-paste".to_string()), Ok(()));
    assert_eq!(s.config.paste_mode, "auto-paste");
}

#[test]
fn last_error_can_be_set_and_cleared() {
    let mut s: AppStateInner<u32> = AppStateInner::with_defaults(false, false);
    s.set_last_error(Some("boom".to_string()));
    assert_eq!(s.status.last_error, Some("boom".to_string()));
    s.set_last_error(None);
    assert_eq!(s.status.last_error, None);
}
