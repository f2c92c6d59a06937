//! Push-to-talk dictation core: transcript command rewriting, signal
//! conditioning geometry, model provisioning decisions, the transcription
//! retry policy and the single-session recording state machine.

pub mod command_parser;
pub mod config;
pub mod model;
pub mod session;
pub mod signal;
pub mod text;
pub mod transcription;
pub mod types;
