//! Push-to-talk dictation: the decisions, verified.
pub mod activation;
pub mod clock;
pub mod config;
pub mod pill;
pub mod postprocess;
pub mod secrets;
pub mod session;
pub mod settings_ui;
pub mod text;
pub mod transcribe;
pub mod transcription_run;
pub mod tray;
pub mod update;
