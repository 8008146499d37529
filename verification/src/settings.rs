//! The user's settings and the transcription request the overlay sends.

use vstd::prelude::*;

verus! {

/// Which engine transcribes a recording.
#[derive(Clone, Copy, Debug, PartialEq, Eq, Structural)]
pub enum TranscriptionMode {
    /// The cloud engine, with an error that names its failure where no
    /// local fallback can take over.
    Hybrid,
    /// The cloud engine only.
    Cloud,
    /// The local engine only.
    Local,
}

/// The settings the overlay keeps between runs.
#[derive(Clone, Debug)]
pub struct AppSettings {
    pub language: String,
    pub hotkey: String,
    pub transcription_mode: TranscriptionMode,
    pub cloud_provider: String,
    pub api_key: String,
    pub auto_insert: bool,
}

/// A recording to transcribe, as the overlay sends it.
#[derive(Clone, Debug)]
pub struct TranscribeRequest {
    pub audio_base64: String,
    pub mime_type: String,
    pub language: String,
    pub mode: TranscriptionMode,
}

/// The settings used before the user has saved any: American English,
/// `Alt+Space`, hybrid transcription through OpenAI, no API key, and no
/// automatic insertion.
pub fn default_settings() -> (r: AppSettings)
    ensures
        r.language@ == "en-US"@,
        r.hotkey@ == "Alt+Space"@,
        r.transcription_mode == TranscriptionMode::Hybrid,
        r.cloud_provider@ == "openai"@,
        r.api_key@ == Seq::<char>::empty(),
        !r.auto_insert,
{
    AppSettings {
        language: String::from_str("en-US"),
        hotkey: String::from_str("Alt+Space"),
        transcription_mode: TranscriptionMode::Hybrid,
        cloud_provider: String::from_str("openai"),
        api_key: String::new(),
        auto_insert: false,
    }
}

} // verus!
