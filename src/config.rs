//! Default settings, and what a stored configuration is taken for when it is
//! loaded.

use vstd::prelude::*;
use crate::types::{AppConfig, PrivacyConfig};

verus! {

/// The version of the stored configuration layout that this library reads.
pub const CONFIG_VERSION: u32 = 1;

/// The settings that a fresh installation starts from.
pub open spec fn is_default_config(c: AppConfig) -> bool {
    &&& c.hotkey@ == "CommandOrControl+Shift+Space"@
    &&& c.model_default@ == "tiny"@
    &&& c.command_mode@ == "basic"@
    &&& c.paste_mode@ == "clipboard"@
    &&& c.language@ == "en"@
    &&& !c.privacy.telemetry_enabled
    &&& !c.privacy.persist_audio_debug
}

/// The settings that a fresh installation starts from.
pub fn default_config() -> (r: AppConfig)
    ensures
        is_default_config(r),
{
    AppConfig {
        hotkey: String::from_str("CommandOrControl+Shift+Space"),
        model_default: String::from_str("tiny"),
        command_mode: String::from_str("basic"),
        paste_mode: String::from_str("clipboard"),
        language: String::from_str("en"),
        privacy: PrivacyConfig { telemetry_enabled: false, persist_audio_debug: false },
    }
}

/// What a configuration stored under layout `version` is taken for: the
/// stored settings when the version is the current one, and otherwise the
/// defaults, which then have to be written back (the flag).
pub fn config_after_load(version: u32, stored: AppConfig) -> (r: (AppConfig, bool))
    ensures
        version == CONFIG_VERSION ==> r.0 == stored && !r.1,
        version != CONFIG_VERSION ==> is_default_config(r.0) && r.1,
{
    if version == CONFIG_VERSION {
        (stored, false)
    } else {
        (default_config(), true)
    }
}

} // verus!
