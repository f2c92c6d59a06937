use openspeak::config::{config_after_load, default_config, CONFIG_VERSION};
use openspeak::model::{
    downloaded_note, is_model_installed, is_supported_model, join_path, model_filename,
    model_path, model_url, plan_download, DownloadPlan,
};

fn strings(v: &[&str]) -> Vec<String> {
    v.iter().map(|s| s.to_string()).collect()
}

#[test]
fn known_models_have_files_and_sources() {
    assert_eq!(model_filename("tiny"), Some("ggml-tiny.en.bin"));
    assert_eq!(model_filename("base"), Some("ggml-base.en.bin"));
    assert_eq!(model_filename("large"), Some("ggml-large-v3.bin"));
    assert_eq!(model_filename("medium"), None);
    assert_eq!(
        model_url("tiny"),
        Some("https://huggingface.co/ggerganov/whisper.cpp/resolve/main/ggml-tiny.en.bin?download=true")
    );
    assert_eq!(model_url("Tiny"), None);
    assert!(is_supported_model("large"));
    assert!(!is_supported_model(""));
}

#[test]
fn model_paths_join_the_directory() {
    assert_eq!(join_path("/data/models", "a.bin"), "/data/models/a.bin");
    assert_eq!(join_path("/data/models/", "a.bin"), "/data/models/a.bin");
    assert_eq!(join_path("", "a.bin"), "a.bin");
    assert_eq!(model_path("/m", "base"), Ok("/m/ggml-base.en.bin".to_string()));
    assert_eq!(model_path("/m", "nope"), Err("unknown model id".to_string()));
}

#[test]
fn unknown_model_is_never_installed() {
    let present = strings(&["ggml-tiny.en.bin", "nope"]);
    assert!(is_model_installed("tiny", &present));
    assert!(!is_model_installed("base", &present));
    assert!(!is_model_installed("nope", &present));
}

#[test]
fn download_of_installed_model_is_a_no_op() {
    let present = strings(&["ggml-tiny.en.bin"]);
    match plan_download("/m", "tiny", &present) {
        Ok(DownloadPlan::Existing { note }) => assert_eq!(note, "existing-tiny"),
        _ => panic!("expected no download"),
    }
}

#[test]
fn download_of_missing_model_goes_through_a_part_file() {
    let present = strings(&["ggml-tiny.en.bin"]);
    match plan_download("/m", "large", &present) {
        Ok(DownloadPlan::Fetch { url, path, part_path }) => {
            assert_eq!(
                url,
                "https://huggingface.co/ggerganov/whisper.cpp/resolve/main/ggml-large-v3.bin?download=true"
            );
            assert_eq!(path, "/m/ggml-large-v3.bin");
            assert_eq!(part_path, "/m/ggml-large-v3.part");
        }
        _ => panic!("expected a download"),
    }
    assert_eq!(downloaded_note("large"), "downloaded-large");
}

#[test]
fn download_of_unknown_model_fails_at_once() {
    let present = strings(&[]);
    match plan_download("/m", "huge", &present) {
        Err(e) => assert_eq!(e, "unknown model id"),
        _ => panic!("expected an error"),
    }
}

#[test]
fn default_configuration_values() {
    let c = default_config();
    assert_eq!(c.hotkey, "CommandOrControl+Shift+Space");
    assert_eq!(c.model_default, "tiny");
    assert_eq!(c.command_mode, "basic");
    assert_eq!(c.paste_mode, "clipboard");
    assert_eq!(c.language, "en");
    assert!(!c.privacy.telemetry_enabled);
    assert!(!c.privacy.persist_audio_debug);
}

#[test]
fn stale_configuration_version_resets_to_defaults() {
    let mut stored = default_config();
    stored.model_default = "large".to_string();
    let (kept, rewrite) = config_after_load(CONFIG_VERSION, stored.clone());
    assert_eq!(kept.model_default, "large");
    assert!(!rewrite);
    let (reset, rewrite) = config_after_load(CONFIG_VERSION + 1, stored);
    assert_eq!(reset.model_default, "tiny");
    assert!(rewrite);
}
