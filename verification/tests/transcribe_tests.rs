use echotype::transcribe::cloud_answer;
use echotype::settings::{default_settings, TranscribeRequest, TranscriptionMode};
use echotype::transcribe::{
    cloud_failure_message, cloud_transcript, engine_for, finish_transcription, local_recording, openai_request, Engine,
    TranscriptResult,
};

fn request(audio: &str, mime: &str, language: &str, mode: TranscriptionMode) -> TranscribeRequest {
    TranscribeRequest {
        audio_base64: audio.to_string(),
        mime_type: mime.to_string(),
        language: language.to_string(),
        mode,
    }
}

fn transcript(text: &str, engine: Engine) -> TranscriptResult {
    TranscriptResult { text: text.to_string(), engine }
}

#[test]
fn default_settings_values() {
    let s = default_settings();
    assert_eq!(s.language, "en-US");
    assert_eq!(s.hotkey, "Alt+Space");
    assert_eq!(s.transcription_mode, TranscriptionMode::Hybrid);
    assert_eq!(s.cloud_provider, "openai");
    assert_eq!(s.api_key, "");
    assert!(!s.auto_insert);
}

#[test]
fn hybrid_tries_the_cloud_and_reports_its_failure() {
    assert_eq!(engine_for(TranscriptionMode::Hybrid), Engine::Cloud);
    assert_eq!(
        finish_transcription(TranscriptionMode::Hybrid, Err("offline".to_string())).err(),
        Some(
            "Cloud transcription failed: offline. Local fallback failed: full offline speech recognition is not implemented yet"
                .to_string()
        )
    );
}

#[test]
fn hybrid_returns_the_cloud_transcript() {
    let t = finish_transcription(TranscriptionMode::Hybrid, Ok(transcript("hello", Engine::Cloud))).ok().unwrap();
    assert_eq!(t.text, "hello");
    assert_eq!(t.engine, Engine::Cloud);
}

#[test]
fn single_engine_modes_pass_the_outcome_on() {
    assert_eq!(engine_for(TranscriptionMode::Cloud), Engine::Cloud);
    assert_eq!(engine_for(TranscriptionMode::Local), Engine::Local);
    assert_eq!(finish_transcription(TranscriptionMode::Cloud, Err("offline".to_string())).err(), Some("offline".to_string()));
    assert_eq!(finish_transcription(TranscriptionMode::Local, Err("no python".to_string())).err(), Some("no python".to_string()));
    let t = finish_transcription(TranscriptionMode::Local, Ok(transcript("hi", Engine::Local))).ok().unwrap();
    assert_eq!(t.text, "hi");
}

#[test]
fn engine_names() {
    assert_eq!(Engine::Cloud.name(), "cloud");
    assert_eq!(Engine::Local.name(), "local");
}

#[test]
fn cloud_request_needs_an_api_key() {
    let r = openai_request(&request("aGVsbG8=", "", "en-US", TranscriptionMode::Cloud), "   ");
    assert_eq!(r.err(), Some("Add an OpenAI API key in settings to use cloud transcription.".to_string()));
}

#[test]
fn cloud_request_key_is_checked_before_the_audio() {
    let r = openai_request(&request("", "", "en-US", TranscriptionMode::Cloud), "");
    assert_eq!(r.err(), Some("Add an OpenAI API key in settings to use cloud transcription.".to_string()));
}

#[test]
fn cloud_request_carries_the_decoded_recording() {
    let r = openai_request(&request("aGVsbG8=", "audio/mp4", "en-GB", TranscriptionMode::Cloud), " sk-test ")
        .ok()
        .unwrap();
    assert_eq!(r.api_key, "sk-test");
    assert_eq!(r.file.file_name(), "echotype-recording.mp4");
    assert_eq!(r.file.mime_type(), "audio/mp4");
    assert_eq!(r.language, Some("en".to_string()));
    assert_eq!(r.model, "gpt-4o-mini-transcribe");
    assert_eq!(r.response_format, "json");
    assert_eq!(r.endpoint, "https://api.openai.com/v1/audio/transcriptions");
    let auto = openai_request(&request("aGVsbG8=", "", "auto", TranscriptionMode::Cloud), "k").ok().unwrap();
    assert_eq!(auto.language, None);
}

#[test]
fn cloud_request_refuses_bad_audio() {
    let empty = openai_request(&request("", "", "en-US", TranscriptionMode::Cloud), "k");
    assert_eq!(empty.err(), Some("Recording was empty. No audio bytes were received.".to_string()));
    assert!(openai_request(&request("%%%%", "", "en-US", TranscriptionMode::Cloud), "k").is_err());
}

#[test]
fn cloud_failure_messages() {
    assert_eq!(cloud_failure_message("401 Unauthorized", Some("bad key".to_string())), "status 401 Unauthorized: bad key");
    assert_eq!(
        cloud_failure_message("500 Internal Server Error", None),
        "status 500 Internal Server Error: No error body returned."
    );
}

#[test]
fn cloud_transcript_is_trimmed_and_required() {
    let t = cloud_transcript(Some("  hello there \n".to_string())).ok().unwrap();
    assert_eq!(t.text, "hello there");
    assert_eq!(t.engine, Engine::Cloud);
    assert_eq!(cloud_transcript(Some("   ".to_string())).err(), Some("Cloud transcription returned no text.".to_string()));
    assert_eq!(cloud_transcript(None).err(), Some("Cloud transcription returned no text.".to_string()));
}

#[test]
fn local_recording_keeps_the_extension_of_the_mime_type() {
    let r = local_recording(&request("aGVsbG8=", "audio/wav", "en-US", TranscriptionMode::Local)).ok().unwrap();
    assert_eq!(r.bytes, b"hello".to_vec());
    assert_eq!(r.extension, "wav");
    let e = local_recording(&request("", "audio/wav", "en-US", TranscriptionMode::Local));
    assert_eq!(e.err(), Some("Recording was empty. No audio bytes were received.".to_string()));
}

#[test]
fn cloud_request_refuses_an_invalid_content_type() {
    let r = openai_request(&request("aGVsbG8=", "not a mime type", "en-US", TranscriptionMode::Cloud), "k");
    assert_eq!(r.err(), Some("builder error".to_string()));
}

#[test]
fn cloud_answer_reads_the_text_field() {
    let ok = |s: &str| Ok::<String, String>(s.to_string());
    let t = cloud_answer(ok("{\"text\": \" hello world \", \"usage\": {}}")).ok().unwrap();
    assert_eq!(t.text, "hello world");
    assert_eq!(t.engine, Engine::Cloud);
    assert_eq!(cloud_answer(ok("{\"text\": \"  \"}")).err(), Some("Cloud transcription returned no text.".to_string()));
    assert_eq!(cloud_answer(ok("{\"text\": 5}")).err(), Some("Cloud transcription returned no text.".to_string()));
    assert_eq!(cloud_answer(ok("{}")).err(), Some("Cloud transcription returned no text.".to_string()));
    assert_eq!(
        cloud_answer(Err("error decoding response body".to_string())).err(),
        Some("error decoding response body".to_string())
    );
    assert_eq!(
        cloud_answer(ok("<html>")).err(),
        Some(serde_json::from_str::<serde_json::Value>("<html>").unwrap_err().to_string())
    );
}
