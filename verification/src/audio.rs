//! Recorded audio as the overlay hands it over: a Base64 text and a MIME
//! type. This module decodes the recording and derives the file names and
//! content types under which it is uploaded or stored.

use vstd::prelude::*;
use base64::Engine as _;
use crate::text::{has_char, is_white_space, leading_end, lemma_leading_end, lemma_trailing_start, lemma_split_first_stable, lemma_split_on_whole, lemma_trimmed_before, lemma_trimmed_idempotent, lemma_trimmed_unchanged, push_char, split_on, split_on_char, trim, trimmed, lemma_split_on_nonempty, same_text};

verus! {

/// The essence of a MIME type: the trimmed text before its first `;`.
pub open spec fn mime_essence(mime: Seq<char>) -> Seq<char> {
    split_on(trimmed(mime), ';')[0]
}

/// The file extension for a recording of the given MIME type; `webm` where
/// the type is not one of those the recorder produces.
pub open spec fn extension_for(mime: Seq<char>) -> Seq<char> {
    let essence = mime_essence(mime);
    if essence == "audio/webm"@ {
        "webm"@
    } else if essence == "audio/mp4"@ {
        "mp4"@
    } else if essence == "audio/mpeg"@ || essence == "audio/mp3"@ {
        "mp3"@
    } else if essence == "audio/wav"@ || essence == "audio/x-wav"@ {
        "wav"@
    } else if essence == "audio/ogg"@ {
        "ogg"@
    } else {
        "webm"@
    }
}

/// The file extension for a recording of the given MIME type; parameters
/// such as `;codecs=opus` are ignored.
pub fn audio_extension(mime_type: &str) -> (r: &'static str)
    ensures
        r@ == extension_for(mime_type@),
{
    let pieces = split_on_char(trim(mime_type), ';');
    proof {
        lemma_split_on_nonempty(trimmed(mime_type@), ';');
    }
    let essence = pieces[0].as_str();
    if same_text(essence, "audio/webm") {
        "webm"
    } else if same_text(essence, "audio/mp4") {
        "mp4"
    } else if same_text(essence, "audio/mpeg") || same_text(essence, "audio/mp3") {
        "mp3"
    } else if same_text(essence, "audio/wav") || same_text(essence, "audio/x-wav") {
        "wav"
    } else if same_text(essence, "audio/ogg") {
        "ogg"
    } else {
        "webm"
    }
}

/// The content type under which a recording is uploaded: the trimmed MIME
/// type, or `audio/webm` where none was given.
pub open spec fn upload_mime(mime: Seq<char>) -> Seq<char> {
    if trimmed(mime).len() == 0 {
        "audio/webm"@
    } else {
        trimmed(mime)
    }
}

/// The file name under which a recording of the given content type is uploaded.
pub open spec fn upload_file_name(mime: Seq<char>) -> Seq<char> {
    "echotype-recording."@ + extension_for(upload_mime(mime))
}

#[verifier::external_type_specification]
#[verifier::external_body]
pub struct ExMultipartPart(reqwest::blocking::multipart::Part);

/// The message of the error that `reqwest`'s `Part::mime_str` gives for a
/// content type that does not parse as a MIME type, or `None` where it parses.
pub uninterp spec fn mime_refusal(mime_type: Seq<char>) -> Option<Seq<char>>;

/// The file part of the transcription upload, with the file name and content
/// type it was built with.
pub struct AudioPart {
    part: reqwest::blocking::multipart::Part,
    file_name: String,
    mime_type: String,
    bytes: Ghost<Seq<u8>>,
}

impl AudioPart {
    /// The bytes the part carries.
    pub closed spec fn bytes(&self) -> Seq<u8> {
        self.bytes@
    }

    /// The file name the part carries.
    pub closed spec fn file_name_view(&self) -> Seq<char> {
        self.file_name@
    }

    /// The content type the part carries.
    pub closed spec fn mime_type_view(&self) -> Seq<char> {
        self.mime_type@
    }

    /// The file name the part carries.
    pub fn file_name(&self) -> (r: &str)
        ensures
            r@ == self.file_name_view(),
    {
        self.file_name.as_str()
    }

    /// The content type the part carries.
    pub fn mime_type(&self) -> (r: &str)
        ensures
            r@ == self.mime_type_view(),
    {
        self.mime_type.as_str()
    }

    /// The `reqwest` part, for the multipart form.
    pub fn into_part(self) -> reqwest::blocking::multipart::Part {
        self.part
    }
}

/// Builds the part with `reqwest::blocking::multipart::Part::bytes`, names
/// the file with `Part::file_name` and sets the content type with
/// `Part::mime_str`, rendering its error with `Display`. The contract records
/// what the part was built from and names a refusal of the content type as
/// [`mime_refusal`].
#[verifier::external_body]
fn multipart_part(bytes: Vec<u8>, file_name: String, mime_type: String) -> (r: Result<AudioPart, String>)
    ensures
        match r {
            Ok(p) => {
                &&& mime_refusal(mime_type@) is None
                &&& p.bytes() == bytes@
                &&& p.file_name_view() == file_name@
                &&& p.mime_type_view() == mime_type@
            },
            Err(e) => mime_refusal(mime_type@) == Some(e@),
        },
{
    let ghost content = bytes@;
    let part = reqwest::blocking::multipart::Part::bytes(bytes)
        .file_name(file_name.clone())
        .mime_str(&mime_type)
        .map_err(|error| error.to_string())?;
    Ok(AudioPart { part, file_name, mime_type, bytes: Ghost(content) })
}

/// Builds the upload of a recording: its bytes, a file name whose extension
/// matches the content type, and the content type itself, which must parse
/// as a MIME type.
pub fn audio_part(audio_bytes: Vec<u8>, mime_type: &str) -> (r: Result<AudioPart, String>)
    ensures
        match r {
            Ok(p) => {
                &&& mime_refusal(upload_mime(mime_type@)) is None
                &&& p.bytes() == audio_bytes@
                &&& p.mime_type_view() == upload_mime(mime_type@)
                &&& p.file_name_view() == upload_file_name(mime_type@)
            },
            Err(e) => mime_refusal(upload_mime(mime_type@)) == Some(e@),
        },
{
    let trimmed_mime = trim(mime_type);
    let normalized = if trimmed_mime.unicode_len() == 0 {
        "audio/webm"
    } else {
        trimmed_mime
    };
    let extension = audio_extension(normalized);
    proof {
        reveal_strlit("audio/webm");
        assert(trimmed(normalized@) == normalized@) by {
            lemma_trimmed_idempotent(mime_type@);
            if trimmed_mime@.len() == 0 {
                lemma_trimmed_literal_webm();
            }
        }
    }
    let mut file_name = String::from_str("echotype-recording.");
    file_name.append(extension);
    multipart_part(audio_bytes, file_name, String::from_str(normalized))
}

/// The default content type has no white space to trim.
proof fn lemma_trimmed_literal_webm()
    ensures
        trimmed("audio/webm"@) == "audio/webm"@,
{
    reveal_strlit("audio/webm");
    lemma_trimmed_unchanged("audio/webm"@);
}

/// The character for a decimal digit.
pub open spec fn digit_char(d: int) -> char {
    if d == 0 { '0' }
    else if d == 1 { '1' }
    else if d == 2 { '2' }
    else if d == 3 { '3' }
    else if d == 4 { '4' }
    else if d == 5 { '5' }
    else if d == 6 { '6' }
    else if d == 7 { '7' }
    else if d == 8 { '8' }
    else { '9' }
}

/// The decimal notation of `n`, without leading zeros.
pub open spec fn decimal(n: nat) -> Seq<char>
    decreases n,
{
    if n < 10 {
        seq![digit_char(n as int)]
    } else {
        decimal(n / 10).push(digit_char((n % 10) as int))
    }
}

fn digit(d: u128) -> (r: char)
    requires
        d < 10,
    ensures
        r == digit_char(d as int),
{
    if d == 0 { '0' }
    else if d == 1 { '1' }
    else if d == 2 { '2' }
    else if d == 3 { '3' }
    else if d == 4 { '4' }
    else if d == 5 { '5' }
    else if d == 6 { '6' }
    else if d == 7 { '7' }
    else if d == 8 { '8' }
    else { '9' }
}

/// Writes `n` in decimal.
pub fn decimal_string(n: u128) -> (r: String)
    ensures
        r@ == decimal(n as nat),
    decreases n,
{
    if n < 10 {
        let mut s = String::new();
        push_char(&mut s, digit(n));
        s
    } else {
        let mut s = decimal_string(n / 10);
        push_char(&mut s, digit(n % 10));
        s
    }
}

/// The name of the temporary file that holds a recording for the local
/// engine, stamped with the time in milliseconds.
pub open spec fn recording_file_name(timestamp_millis: nat, extension: Seq<char>) -> Seq<char> {
    "echotype-recording-"@ + decimal(timestamp_millis) + "."@ + extension
}

/// Names the temporary file for a recording made at `timestamp_millis`.
pub fn temp_audio_file_name(timestamp_millis: u128, extension: &str) -> (r: String)
    ensures
        r@ == recording_file_name(timestamp_millis as nat, extension@),
{
    let mut name = String::from_str("echotype-recording-");
    let stamp = decimal_string(timestamp_millis);
    name.append(stamp.as_str());
    name.append(".");
    name.append(extension);
    name
}

/// What the standard Base64 engine of the `base64` crate (padded, canonical
/// alphabet) decodes the text to, or the message of its decoding error.
pub uninterp spec fn base64_decoded(text: Seq<char>) -> Result<Seq<u8>, Seq<char>>;

/// Calls `Engine::decode` of `base64::engine::general_purpose::STANDARD` on
/// the bytes of the text and renders a decoding error with its `Display`.
/// The contract names the outcome as [`base64_decoded`] of the text and says
/// nothing more of it.
#[verifier::external_body]
fn decode_base64(text: &str) -> (r: Result<Vec<u8>, String>)
    ensures
        match r {
            Ok(bytes) => base64_decoded(text@) == Ok::<Seq<u8>, Seq<char>>(bytes@),
            Err(e) => base64_decoded(text@) == Err::<Seq<u8>, Seq<char>>(e@),
        },
{
    base64::engine::general_purpose::STANDARD.decode(text).map_err(|error| error.to_string())
}

/// The error for a recording that decodes to no bytes.
pub open spec fn empty_recording_message() -> Seq<char> {
    "Recording was empty. No audio bytes were received."@
}

/// What a decoding outcome gives: its bytes where there are some, its error,
/// or the empty-recording error.
pub open spec fn recording_from(decoded: Result<Seq<u8>, Seq<char>>) -> Result<Seq<u8>, Seq<char>> {
    match decoded {
        Err(e) => Err(e),
        Ok(bytes) => if bytes.len() == 0 {
            Err(empty_recording_message())
        } else {
            Ok(bytes)
        },
    }
}

/// Refuses a decoded recording that holds no bytes.
pub fn check_recording(decoded: Result<Vec<u8>, String>) -> (r: Result<Vec<u8>, String>)
    ensures
        match (r, decoded) {
            (Ok(out), Ok(bytes)) => bytes@.len() > 0 && out@ == bytes@,
            (Err(e), Ok(bytes)) => bytes@.len() == 0 && e@ == empty_recording_message(),
            (Err(e), Err(d)) => e@ == d@,
            (Ok(_), Err(_)) => false,
        },
{
    match decoded {
        Err(e) => Err(e),
        Ok(bytes) => if bytes.len() == 0 {
            Err(String::from_str("Recording was empty. No audio bytes were received."))
        } else {
            Ok(bytes)
        },
    }
}

/// Decodes the Base64 recording; an undecodable or empty one is refused.
pub fn decode_recording(audio_base64: &str) -> (r: Result<Vec<u8>, String>)
    ensures
        match r {
            Ok(bytes) => recording_from(base64_decoded(audio_base64@)) == Ok::<Seq<u8>, Seq<char>>(bytes@),
            Err(e) => recording_from(base64_decoded(audio_base64@)) == Err::<Seq<u8>, Seq<char>>(e@),
        },
{
    check_recording(decode_base64(audio_base64))
}

/// Parameters after a `;` do not change the extension: for a type without a
/// `;` that does not end in white space, the extension of the type followed
/// by `;` and any parameter text is the extension of the type alone (so
/// `audio/mp4;codecs=mp4a.40.2` gets `mp4`, as `audio/mp4` does).
pub proof fn law_extension_ignores_parameters(m: Seq<char>, p: Seq<char>)
    requires
        !has_char(m, ';'),
        m.len() > 0 ==> !is_white_space(m[m.len() - 1]),
    ensures
        extension_for(m.push(';') + p) == extension_for(m),
{
    let tm = trimmed(m);
    let t = trimmed(m.push(';') + p);
    lemma_trimmed_before(m, ';', p);
    let a = leading_end(m, 0);
    lemma_leading_end(m, 0);
    lemma_trailing_start(m, a, m.len() as int);
    assert(!has_char(tm, ';')) by {
        if has_char(tm, ';') {
            let i = choose|i: int| 0 <= i < tm.len() && tm[i] == ';';
            assert(tm[i] == m[a + i]);
        }
    }
    lemma_split_on_whole(tm, ';');
    assert(tm.push(';').drop_last() =~= tm);
    assert(split_on(tm.push(';'), ';') == seq![tm].push(Seq::<char>::empty()));
    let rest = t.skip((tm.len() + 1) as int);
    assert(t =~= tm.push(';') + rest);
    lemma_split_first_stable(tm.push(';'), rest, ';');
    assert(mime_essence(m.push(';') + p) == tm);
    assert(mime_essence(m) == tm);
}

/// Every recording gets one of the five extensions the engines read.
pub proof fn law_extension_is_known(mime: Seq<char>)
    ensures
        extension_for(mime) == "webm"@ || extension_for(mime) == "mp4"@ || extension_for(mime) == "mp3"@
            || extension_for(mime) == "wav"@ || extension_for(mime) == "ogg"@,
{
}

/// The extension names the container of the type's essence: `mp4` for
/// `audio/mp4`, `mp3` for `audio/mpeg` and `audio/mp3`, `wav` for
/// `audio/wav` and `audio/x-wav`, `ogg` for `audio/ogg`, and `webm` for
/// `audio/webm` and every other type.
pub proof fn law_extension_names_the_container(mime: Seq<char>)
    ensures
        extension_for(mime) == "mp4"@ <==> mime_essence(mime) == "audio/mp4"@,
        extension_for(mime) == "mp3"@ <==> (mime_essence(mime) == "audio/mpeg"@ || mime_essence(mime)
            == "audio/mp3"@),
        extension_for(mime) == "wav"@ <==> (mime_essence(mime) == "audio/wav"@ || mime_essence(mime)
            == "audio/x-wav"@),
        extension_for(mime) == "ogg"@ <==> mime_essence(mime) == "audio/ogg"@,
        extension_for(mime) == "webm"@ <==> !(mime_essence(mime) == "audio/mp4"@ || mime_essence(mime)
            == "audio/mpeg"@ || mime_essence(mime) == "audio/mp3"@ || mime_essence(mime) == "audio/wav"@
            || mime_essence(mime) == "audio/x-wav"@ || mime_essence(mime) == "audio/ogg"@),
{
    reveal_strlit("mp4");
    reveal_strlit("mp3");
    reveal_strlit("wav");
    reveal_strlit("ogg");
    reveal_strlit("webm");
    reveal_strlit("audio/webm");
    reveal_strlit("audio/mp4");
    reveal_strlit("audio/mpeg");
    reveal_strlit("audio/mp3");
    reveal_strlit("audio/wav");
    reveal_strlit("audio/x-wav");
    reveal_strlit("audio/ogg");
    assert("webm"@.len() == 4 && "mp4"@.len() == 3 && "mp3"@.len() == 3 && "wav"@.len() == 3 && "ogg"@.len() == 3);
    assert("audio/webm"@.len() == 10 && "audio/mpeg"@.len() == 10 && "audio/x-wav"@.len() == 11);
    assert("audio/mp4"@.len() == 9 && "audio/mp3"@.len() == 9 && "audio/wav"@.len() == 9 && "audio/ogg"@.len() == 9);
    assert("audio/webm"@[6] != "audio/mpeg"@[6]);
    assert("audio/mp4"@[8] != "audio/mp3"@[8] && "audio/mp4"@[6] != "audio/wav"@[6] && "audio/mp4"@[6] != "audio/ogg"@[6]);
    assert("audio/mp3"@[6] != "audio/wav"@[6] && "audio/mp3"@[6] != "audio/ogg"@[6] && "audio/wav"@[6] != "audio/ogg"@[6]);
    assert("mp4"@[2] != "mp3"@[2] && "mp4"@[0] != "wav"@[0] && "mp4"@[0] != "ogg"@[0]);
    assert("mp3"@[0] != "wav"@[0] && "mp3"@[0] != "ogg"@[0] && "wav"@[0] != "ogg"@[0]);
}

/// A recording is uploaded under `echotype-recording.` and the extension of
/// the type it was given: a blank type counts as `audio/webm`, and white
/// space around the type changes nothing.
pub proof fn law_upload_name_follows_the_type(mime: Seq<char>)
    ensures
        upload_file_name(mime) == "echotype-recording."@ + extension_for(mime),
{
    if trimmed(mime).len() == 0 {
        reveal_strlit("audio/webm");
        lemma_trimmed_unchanged("audio/webm"@);
        let w = "audio/webm"@;
        assert(!has_char(w, ';'));
        lemma_split_on_whole(w, ';');
        assert(trimmed(w) == w);
        assert(mime_essence(w) == w);
        assert(split_on(trimmed(mime), ';') == seq![Seq::<char>::empty()]);
        assert(mime_essence(mime).len() == 0);
        reveal_strlit("webm");
        reveal_strlit("audio/mp4");
        reveal_strlit("audio/mpeg");
        reveal_strlit("audio/mp3");
        reveal_strlit("audio/wav");
        reveal_strlit("audio/x-wav");
        reveal_strlit("audio/ogg");
        assert(w.len() == 10 && "audio/mp4"@.len() == 9 && "audio/mpeg"@.len() == 10 && "audio/mp3"@.len() == 9);
        assert("audio/wav"@.len() == 9 && "audio/x-wav"@.len() == 11 && "audio/ogg"@.len() == 9);
        assert(extension_for(w) == "webm"@);
        assert(extension_for(mime) == "webm"@);
    } else {
        lemma_trimmed_idempotent(mime);
    }
}

} // verus!
