//! Core logic of the EchoType dictation overlay: hotkey parsing, language
//! and audio-format normalisation, the transcription fallback policy, the
//! line protocol of the local transcription worker, and the keyboard events
//! that type a transcript into the focused window.

pub mod text;
pub mod json;
pub mod language;
pub mod shortcut;
pub mod audio;
pub mod settings;
pub mod transcribe;
pub mod worker;
pub mod keyboard;
pub mod desktop;
pub mod permissions;
