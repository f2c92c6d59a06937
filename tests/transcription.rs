use openspeak::transcription::{
    clean_whisper_text, text_from_segments, JobStage, TranscribeAction, TranscribeEvent,
    TranscriptionJob, WhisperOutput,
};

fn output(text: &str) -> WhisperOutput {
    WhisperOutput { text: text.to_string(), confidence_percent: 90 }
}

#[test]
fn empty_capture_finishes_without_inference() {
    let (job, action) = TranscriptionJob::start(0);
    assert_eq!(job.stage, JobStage::Done);
    match action {
        TranscribeAction::Finish(Ok(o)) => {
            assert_eq!(o.text, "");
            assert_eq!(o.confidence_percent, 0);
        }
        _ => panic!("expected an immediate empty result"),
    }
}

#[test]
fn first_failure_then_success_recovers() {
    let (mut job, action) = TranscriptionJob::start(16000);
    assert!(matches!(action, TranscribeAction::PrepareModel));
    let a = job.step(TranscribeEvent::ModelReady(Ok("/m/ggml-tiny.en.bin".to_string())));
    assert!(matches!(a, TranscribeAction::RunInference(ref p) if p == "/m/ggml-tiny.en.bin"));
    let a = job.step(TranscribeEvent::InferenceDone(Err("whisper inference failed".to_string())));
    assert!(matches!(a, TranscribeAction::RefreshModel));
    assert!(job.awaits_model());
    let a = job.step(TranscribeEvent::ModelReady(Ok("/m/ggml-tiny.en.bin".to_string())));
    assert!(matches!(a, TranscribeAction::RunInference(_)));
    assert!(job.awaits_inference());
    let a = job.step(TranscribeEvent::InferenceDone(Ok(output("hello"))));
    match a {
        TranscribeAction::Finish(Ok(o)) => assert_eq!(o.text, "hello"),
        _ => panic!("expected success"),
    }
}

#[test]
fn two_failures_give_one_combined_error() {
    let (mut job, _) = TranscriptionJob::start(10);
    job.step(TranscribeEvent::ModelReady(Ok("p".to_string())));
    job.step(TranscribeEvent::InferenceDone(Err("failed to initialize whisper context".to_string())));
    job.step(TranscribeEvent::ModelReady(Ok("p".to_string())));
    let a = job.step(TranscribeEvent::InferenceDone(Err("second".to_string())));
    match a {
        TranscribeAction::Finish(Err(e)) => assert_eq!(
            e,
            "transcription failed after model refresh: failed to initialize whisper context"
        ),
        _ => panic!("expected the combined error"),
    }
    assert_eq!(job.stage, JobStage::Done);
}

#[test]
fn model_failure_ends_the_job() {
    let (mut job, _) = TranscriptionJob::start(10);
    let a = job.step(TranscribeEvent::ModelReady(Err("unknown model id".to_string())));
    match a {
        TranscribeAction::Finish(Err(e)) => assert_eq!(e, "unknown model id"),
        _ => panic!("expected the error"),
    }
}

#[test]
fn blank_markers_are_dropped() {
    assert_eq!(clean_whisper_text("  [BLANK_AUDIO]  hello   world [blank_audio] "), "hello world");
    assert_eq!(clean_whisper_text("[BLANK_AUDIO]"), "");
    assert_eq!(clean_whisper_text("[BLANK_AUDIO]x"), "[BLANK_AUDIO]x");
}

#[test]
fn segments_are_joined_and_cleaned() {
    let segs = vec![" Hello there.".to_string(), "[BLANK_AUDIO]".to_string(), " Bye ".to_string()];
    assert_eq!(text_from_segments(&segs), "Hello there. Bye");
    assert_eq!(text_from_segments(&Vec::new()), "");
}
