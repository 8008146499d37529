use echotype::audio::{audio_extension, audio_part, check_recording, decimal_string, decode_recording, temp_audio_file_name};

#[test]
fn extension_follows_the_mime_essence() {
    assert_eq!(audio_extension("audio/webm;codecs=opus"), "webm");
    assert_eq!(audio_extension("  audio/mp4 "), "mp4");
    assert_eq!(audio_extension("audio/mpeg"), "mp3");
    assert_eq!(audio_extension("audio/mp3"), "mp3");
    assert_eq!(audio_extension("audio/wav"), "wav");
    assert_eq!(audio_extension("audio/x-wav"), "wav");
    assert_eq!(audio_extension("audio/ogg;codecs=opus"), "ogg");
}

#[test]
fn unknown_mime_types_fall_back_to_webm() {
    assert_eq!(audio_extension("video/mp4"), "webm");
    assert_eq!(audio_extension(""), "webm");
    assert_eq!(audio_extension("AUDIO/MP4"), "webm");
    assert_eq!(audio_extension("audio/mp4 ;codecs=x"), "webm");
}

#[test]
fn upload_part_normalises_the_content_type() {
    let part = audio_part(vec![1, 2, 3], "   ").ok().unwrap();
    assert_eq!(part.mime_type(), "audio/webm");
    assert_eq!(part.file_name(), "echotype-recording.webm");
    let part = audio_part(vec![9], " audio/ogg; codecs=opus ").ok().unwrap();
    assert_eq!(part.mime_type(), "audio/ogg; codecs=opus");
    assert_eq!(part.file_name(), "echotype-recording.ogg");
}

#[test]
fn upload_part_refuses_a_content_type_that_is_no_mime_type() {
    assert_eq!(audio_part(vec![1], "webm audio").err(), Some("builder error".to_string()));
}

#[test]
fn decimal_rendering() {
    assert_eq!(decimal_string(0), "0");
    assert_eq!(decimal_string(7), "7");
    assert_eq!(decimal_string(1700000000123), "1700000000123");
    assert_eq!(decimal_string(u128::MAX), u128::MAX.to_string());
}

#[test]
fn temporary_file_name_is_stamped() {
    assert_eq!(temp_audio_file_name(1700000000123, "wav"), "echotype-recording-1700000000123.wav");
    assert_eq!(temp_audio_file_name(0, "webm"), "echotype-recording-0.webm");
}

#[test]
fn recording_decodes_from_base64() {
    assert_eq!(decode_recording("aGVsbG8="), Ok(b"hello".to_vec()));
}

#[test]
fn empty_recording_is_refused() {
    assert_eq!(decode_recording(""), Err("Recording was empty. No audio bytes were received.".to_string()));
    assert_eq!(check_recording(Ok(Vec::new())), Err("Recording was empty. No audio bytes were received.".to_string()));
}

#[test]
fn undecodable_recording_reports_the_decoder_error() {
    let error = decode_recording("@@@@").unwrap_err();
    assert_eq!(error, "Invalid symbol 64, offset 0.");
    assert!(decode_recording("aGVsbG8").is_err());
    assert_eq!(check_recording(Err("bad".to_string())), Err("bad".to_string()));
    assert_eq!(check_recording(Ok(vec![0])), Ok(vec![0]));
}
