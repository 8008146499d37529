//! The transcription policy: which engine runs for each mode, what the
//! hybrid mode reports when the cloud engine is unavailable, and what the
//! cloud engine is sent and what its answers mean.

use vstd::prelude::*;
use crate::audio::{mime_refusal, audio_part, base64_decoded, decode_recording, recording_from, upload_file_name, upload_mime, AudioPart};
use crate::language::{cloud_language, openai_language_code};
use crate::settings::{TranscriptionMode, TranscribeRequest};
use crate::json::{json_error, json_parse_failure, json_text, json_text_field};
use crate::text::{trim, trimmed};

verus! {

/// A transcription engine.
#[derive(Clone, Copy, Debug, PartialEq, Eq, Structural)]
pub enum Engine {
    /// OpenAI's hosted transcription model.
    Cloud,
    /// The local Whisper worker.
    Local,
}

impl Engine {
    /// The name the overlay shows for the engine.
    pub open spec fn label(self) -> Seq<char> {
        match self {
            Engine::Cloud => "cloud"@,
            Engine::Local => "local"@,
        }
    }

    /// The name the overlay shows for the engine.
    pub fn name(&self) -> (r: &'static str)
        ensures
            r@ == self.label(),
    {
        match self {
            Engine::Cloud => "cloud",
            Engine::Local => "local",
        }
    }
}

/// A transcript and the engine that produced it.
#[derive(Clone, Debug)]
pub struct TranscriptResult {
    pub text: String,
    pub engine: Engine,
}

/// Why the hybrid mode does not fall back to the local engine.
pub open spec fn local_fallback_unavailable() -> Seq<char> {
    "full offline speech recognition is not implemented yet"@
}

/// The error of the hybrid mode when the cloud engine is unavailable: it
/// names the cloud engine's failure and that no local fallback exists.
pub open spec fn hybrid_fallback_message(cloud: Seq<char>) -> Seq<char> {
    "Cloud transcription failed: "@ + cloud + ". Local fallback failed: "@ + local_fallback_unavailable()
}

/// The engine a mode runs: the local engine in the local mode, the cloud
/// engine in the cloud and hybrid modes.
pub open spec fn engine_of(mode: TranscriptionMode) -> Engine {
    match mode {
        TranscriptionMode::Local => Engine::Local,
        _ => Engine::Cloud,
    }
}

/// The engine that transcribes in `mode`.
pub fn engine_for(mode: TranscriptionMode) -> (r: Engine)
    ensures
        r == engine_of(mode),
{
    match mode {
        TranscriptionMode::Local => Engine::Local,
        _ => Engine::Cloud,
    }
}

/// What a transcription in `mode` gives for the outcome of its engine: a
/// transcript as it is; in the hybrid mode a cloud failure becomes the
/// fallback error that names it; in the other modes an engine's error as it is.
pub open spec fn transcription_outcome(mode: TranscriptionMode, outcome: Result<Seq<char>, Seq<char>>) -> Result<
    Seq<char>,
    Seq<char>,
> {
    match outcome {
        Ok(t) => Ok(t),
        Err(e) => if mode == TranscriptionMode::Hybrid {
            Err(hybrid_fallback_message(e))
        } else {
            Err(e)
        },
    }
}

/// Ends a transcription in `mode` with the outcome of its engine.
pub fn finish_transcription(mode: TranscriptionMode, outcome: Result<TranscriptResult, String>) -> (r: Result<
    TranscriptResult,
    String,
>)
    ensures
        match (outcome, r) {
            (Ok(t), Ok(u)) => u.text@ == t.text@ && u.engine == t.engine,
            (Err(e), Err(f)) => transcription_outcome(mode, Err(e@)) == Err::<Seq<char>, Seq<char>>(f@),
            _ => false,
        },
{
    match outcome {
        Ok(t) => Ok(t),
        Err(e) => match mode {
            TranscriptionMode::Hybrid => {
                let mut message = String::from_str("Cloud transcription failed: ");
                message.append(e.as_str());
                message.append(". Local fallback failed: ");
                message.append("full offline speech recognition is not implemented yet");
                Err(message)
            },
            _ => Err(e),
        },
    }
}

/// The hybrid mode tries the cloud engine first and, when that fails,
/// reports an error that names the cloud engine's failure; it never returns
/// anything but the cloud engine's transcript. The cloud and local modes run
/// their own engine and pass its outcome on.
pub proof fn law_hybrid_reports_cloud_failure(mode: TranscriptionMode, outcome: Result<Seq<char>, Seq<char>>)
    ensures
        mode == TranscriptionMode::Hybrid ==> engine_of(mode) == Engine::Cloud,
        mode == TranscriptionMode::Hybrid ==> (outcome matches Err(e) ==> transcription_outcome(mode, outcome)
            matches Err(f) && f.subrange(28, 28 + e.len() as int) == e),
        mode != TranscriptionMode::Hybrid ==> transcription_outcome(mode, outcome) == outcome,
        outcome is Ok ==> transcription_outcome(mode, outcome) == outcome,
{
    reveal_strlit("Cloud transcription failed: ");
    if let Err(e) = outcome {
        if mode == TranscriptionMode::Hybrid {
            let f = hybrid_fallback_message(e);
            assert(f.subrange(28, 28 + e.len() as int) =~= e);
        }
    }
}

/// The error for a cloud transcription without an API key.
pub open spec fn missing_api_key_message() -> Seq<char> {
    "Add an OpenAI API key in settings to use cloud transcription."@
}

/// What is sent to the cloud engine.
pub struct CloudRequest {
    /// The transcription endpoint.
    pub endpoint: String,
    /// The model that transcribes.
    pub model: String,
    /// The format of the answer.
    pub response_format: String,
    /// The bearer token, trimmed.
    pub api_key: String,
    /// The recording.
    pub file: AudioPart,
    /// The language of the recording, where it is not to be detected.
    pub language: Option<String>,
}

/// The cloud request for a transcription request, or why there is none: a
/// key that is blank once trimmed, a recording that does not decode to any
/// bytes, or a content type that is no MIME type.
pub open spec fn cloud_request_refusal(request_audio: Seq<char>, mime: Seq<char>, api_key: Seq<char>) -> Option<
    Seq<char>,
> {
    if trimmed(api_key).len() == 0 {
        Some(missing_api_key_message())
    } else {
        match recording_from(base64_decoded(request_audio)) {
            Err(e) => Some(e),
            Ok(_) => mime_refusal(upload_mime(mime)),
        }
    }
}

/// The cloud request is refused for a blank key, for a recording that does
/// not decode to at least one byte, and for a content type that `reqwest`
/// does not take as a MIME type, and for nothing else: any other request is
/// built. Each refusal carries the error of its cause.
pub proof fn law_cloud_request_refusals(audio: Seq<char>, mime: Seq<char>, key: Seq<char>)
    ensures
        cloud_request_refusal(audio, mime, key) is None <==> {
            &&& trimmed(key).len() > 0
            &&& recording_from(base64_decoded(audio)) is Ok
            &&& mime_refusal(upload_mime(mime)) is None
        },
        trimmed(key).len() == 0 ==> cloud_request_refusal(audio, mime, key) == Some(
            "Add an OpenAI API key in settings to use cloud transcription."@,
        ),
        cloud_request_refusal(audio, mime, key) matches Some(e) ==> {
            ||| e == "Add an OpenAI API key in settings to use cloud transcription."@
            ||| recording_from(base64_decoded(audio)) == Err::<Seq<u8>, Seq<char>>(e)
            ||| mime_refusal(upload_mime(mime)) == Some(e)
        },
{
}

/// Prepares the request to OpenAI's transcription endpoint: the trimmed API
/// key, the decoded recording under the right file name and content type,
/// and the language code where the setting names one.
pub fn openai_request(request: &TranscribeRequest, api_key: &str) -> (r: Result<CloudRequest, String>)
    ensures
        match r {
            Err(e) => cloud_request_refusal(request.audio_base64@, request.mime_type@, api_key@) == Some(e@),
            Ok(c) => {
                &&& cloud_request_refusal(request.audio_base64@, request.mime_type@, api_key@) is None
                &&& recording_from(base64_decoded(request.audio_base64@)) == Ok::<Seq<u8>, Seq<char>>(c.file.bytes())
                &&& c.api_key@ == trimmed(api_key@)
                &&& c.file.mime_type_view() == upload_mime(request.mime_type@)
                &&& c.file.file_name_view() == upload_file_name(request.mime_type@)
                &&& c.endpoint@ == "https://api.openai.com/v1/audio/transcriptions"@
                &&& c.model@ == "gpt-4o-mini-transcribe"@
                &&& c.response_format@ == "json"@
                &&& match c.language {
                    Some(code) => cloud_language(request.language@) == Some(code@),
                    None => cloud_language(request.language@) is None,
                }
            },
        },
{
    let key = trim(api_key);
    if key.unicode_len() == 0 {
        return Err(String::from_str("Add an OpenAI API key in settings to use cloud transcription."));
    }
    let bytes = match decode_recording(request.audio_base64.as_str()) {
        Ok(bytes) => bytes,
        Err(e) => return Err(e),
    };
    let file = match audio_part(bytes, request.mime_type.as_str()) {
        Ok(file) => file,
        Err(e) => return Err(e),
    };
    let language = openai_language_code(request.language.as_str());
    Ok(CloudRequest {
        endpoint: String::from_str("https://api.openai.com/v1/audio/transcriptions"),
        model: String::from_str("gpt-4o-mini-transcribe"),
        response_format: String::from_str("json"),
        api_key: String::from_str(key),
        file,
        language,
    })
}

/// The error for an answer of the cloud engine with a failure status.
pub open spec fn cloud_failure(status: Seq<char>, body: Option<Seq<char>>) -> Seq<char> {
    "status "@ + status + ": "@ + match body {
        Some(b) => b,
        None => "No error body returned."@,
    }
}

/// Describes a failure status of the cloud engine with the body of its
/// answer, where the body could be read.
pub fn cloud_failure_message(status: &str, body: Option<String>) -> (r: String)
    ensures
        r@ == cloud_failure(status@, match body {
            Some(b) => Some(b@),
            None => None,
        }),
{
    let mut message = String::from_str("status ");
    message.append(status);
    message.append(": ");
    match body {
        Some(b) => message.append(b.as_str()),
        None => message.append("No error body returned."),
    }
    message
}

/// The transcript in a text field of an engine's answer: the trimmed text,
/// refused with `empty_error` where it is blank or missing.
pub open spec fn transcript_from(text: Option<Seq<char>>, empty_error: Seq<char>) -> Result<Seq<char>, Seq<char>> {
    let t = trimmed(match text {
        Some(t) => t,
        None => Seq::empty(),
    });
    if t.len() == 0 {
        Err(empty_error)
    } else {
        Ok(t)
    }
}

/// The transcript of the `text` field of an answer, trimmed, for `engine`;
/// a blank or missing text gives `empty_error`.
pub fn transcript_of(text: Option<String>, engine: Engine, empty_error: &str) -> (r: Result<TranscriptResult, String>)
    ensures
        match r {
            Ok(t) => t.engine == engine && transcript_from(match text {
                Some(s) => Some(s@),
                None => None,
            }, empty_error@) == Ok::<Seq<char>, Seq<char>>(t.text@),
            Err(e) => transcript_from(match text {
                Some(s) => Some(s@),
                None => None,
            }, empty_error@) == Err::<Seq<char>, Seq<char>>(e@),
        },
{
    let raw = match &text {
        Some(s) => s.as_str(),
        None => "",
    };
    proof {
        reveal_strlit("");
    }
    let t = trim(raw);
    if t.unicode_len() == 0 {
        Err(String::from_str(empty_error))
    } else {
        Ok(TranscriptResult { text: String::from_str(t), engine })
    }
}

/// The error for a cloud answer without text.
pub open spec fn cloud_empty_message() -> Seq<char> {
    "Cloud transcription returned no text."@
}

/// The transcript in the `text` field of a successful cloud answer.
pub fn cloud_transcript(text: Option<String>) -> (r: Result<TranscriptResult, String>)
    ensures
        match r {
            Ok(t) => t.engine == Engine::Cloud && transcript_from(match text {
                Some(s) => Some(s@),
                None => None,
            }, cloud_empty_message()) == Ok::<Seq<char>, Seq<char>>(t.text@),
            Err(e) => transcript_from(match text {
                Some(s) => Some(s@),
                None => None,
            }, cloud_empty_message()) == Err::<Seq<char>, Seq<char>>(e@),
        },
{
    transcript_of(text, Engine::Cloud, "Cloud transcription returned no text.")
}

/// What a successful answer of the cloud engine gives, from its decoded
/// JSON document (written out) or the error of decoding its body: that error,
/// or the transcript in the document's `text` field.
pub open spec fn cloud_answer_result(payload: Result<Seq<char>, Seq<char>>) -> Result<Seq<char>, Seq<char>> {
    match payload {
        Err(e) => Err(e),
        Ok(doc) => match json_parse_failure(doc) {
            Some(e) => Err(e),
            None => transcript_from(json_text_field(doc, "text"@), cloud_empty_message()),
        },
    }
}

/// Reads a successful cloud answer, given its JSON document as text or the
/// error of decoding its body: the trimmed `text` field is the transcript.
pub fn cloud_answer(payload: Result<String, String>) -> (r: Result<TranscriptResult, String>)
    ensures
        match r {
            Ok(t) => t.engine == Engine::Cloud && cloud_answer_result(match payload {
                Ok(d) => Ok(d@),
                Err(e) => Err(e@),
            }) == Ok::<Seq<char>, Seq<char>>(t.text@),
            Err(e) => cloud_answer_result(match payload {
                Ok(d) => Ok(d@),
                Err(e) => Err(e@),
            }) == Err::<Seq<char>, Seq<char>>(e@),
        },
{
    let doc = match payload {
        Ok(doc) => doc,
        Err(e) => return Err(e),
    };
    match json_error(doc.as_str()) {
        Some(e) => Err(e),
        None => cloud_transcript(json_text(doc.as_str(), "text")),
    }
}

/// A recording ready for the local engine: its bytes and the extension of
/// the file that holds it.
pub struct LocalRecording {
    pub bytes: Vec<u8>,
    pub extension: &'static str,
}

/// Prepares a recording for the local engine; an undecodable or empty one is
/// refused.
pub fn local_recording(request: &TranscribeRequest) -> (r: Result<LocalRecording, String>)
    ensures
        match r {
            Ok(l) => recording_from(base64_decoded(request.audio_base64@)) == Ok::<Seq<u8>, Seq<char>>(l.bytes@)
                && l.extension@ == crate::audio::extension_for(request.mime_type@),
            Err(e) => recording_from(base64_decoded(request.audio_base64@)) == Err::<Seq<u8>, Seq<char>>(e@),
        },
{
    let bytes = match decode_recording(request.audio_base64.as_str()) {
        Ok(bytes) => bytes,
        Err(e) => return Err(e),
    };
    let extension = crate::audio::audio_extension(request.mime_type.as_str());
    Ok(LocalRecording { bytes, extension })
}

} // verus!
