use echotype::keyboard::{after_copy, after_typing, begin_insert, InsertStep};
use echotype::desktop::{overlay_size, pick_script, script_candidates, tray_action, ScriptChoice, ScriptLocation, TrayAction};
use echotype::keyboard::{encode_utf16, send_outcome, unicode_key_events, KeyEvent, SendOutcome};
use echotype::permissions::scrub_media_permissions;

#[test]
fn utf16_matches_the_standard_library() {
    let text = "a\u{20ac}\u{1f600}z";
    assert_eq!(encode_utf16(text), text.encode_utf16().collect::<Vec<u16>>());
    assert_eq!(encode_utf16(text), vec![0x61, 0x20ac, 0xd83d, 0xde00, 0x7a]);
    assert_eq!(encode_utf16(""), Vec::<u16>::new());
    let max = "\u{10ffff}\u{10000}\u{ffff}";
    assert_eq!(encode_utf16(max), max.encode_utf16().collect::<Vec<u16>>());
}

#[test]
fn every_unit_is_pressed_then_released() {
    assert_eq!(
        unicode_key_events("h\u{1f600}"),
        vec![
            KeyEvent { unit: 0x68, key_up: false },
            KeyEvent { unit: 0x68, key_up: true },
            KeyEvent { unit: 0xd83d, key_up: false },
            KeyEvent { unit: 0xd83d, key_up: true },
            KeyEvent { unit: 0xde00, key_up: false },
            KeyEvent { unit: 0xde00, key_up: true },
        ]
    );
    assert!(unicode_key_events("").is_empty());
}

#[test]
fn partial_sends_fall_back_to_posting_characters() {
    assert_eq!(send_outcome(0, 0), SendOutcome::Typed);
    assert_eq!(send_outcome(4, 4), SendOutcome::Typed);
    assert_eq!(send_outcome(4, 2), SendOutcome::PostCharacters);
    assert_eq!(send_outcome(4, 0), SendOutcome::PostCharacters);
}

#[test]
fn overlay_sizes() {
    assert_eq!(overlay_size(true), (380, 78));
    assert_eq!(overlay_size(false), (920, 420));
}

#[test]
fn tray_entries() {
    assert_eq!(tray_action("show"), Some(TrayAction::Show));
    assert_eq!(tray_action("minimize"), Some(TrayAction::Minimize));
    assert_eq!(tray_action("quit"), Some(TrayAction::Quit));
    assert_eq!(tray_action("Quit"), None);
}

#[test]
fn script_search_order() {
    assert_eq!(
        script_candidates(true, true),
        vec![
            ScriptLocation::Relative,
            ScriptLocation::CurrentDir,
            ScriptLocation::CurrentDirParent,
            ScriptLocation::ExeDir,
            ScriptLocation::ExeDirUp3,
        ]
    );
    assert_eq!(script_candidates(false, true), vec![ScriptLocation::Relative, ScriptLocation::ExeDir, ScriptLocation::ExeDirUp3]);
    assert_eq!(script_candidates(false, false), vec![ScriptLocation::Relative]);
}

#[test]
fn first_existing_script_is_picked() {
    assert_eq!(pick_script(true, &vec![true]), ScriptChoice::Override);
    assert_eq!(pick_script(false, &vec![false, false, true, true]), ScriptChoice::Candidate(2));
    assert_eq!(pick_script(false, &vec![false, false]), ScriptChoice::Candidate(0));
    assert_eq!(pick_script(false, &vec![true, true]), ScriptChoice::Candidate(0));
}

#[test]
fn media_permissions_are_scrubbed() {
    let prefs = r#"{"profile":{"content_settings":{"exceptions":{"media_stream_mic":{"a":1},"media_stream_camera":{},"cookies":{"b":2}},"permission_actions":{"mic_stream":[1],"camera_stream":[2],"notifications":[3]}}},"other":true}"#;
    let out = scrub_media_permissions(prefs).unwrap();
    assert_eq!(
        out,
        r#"{"other":true,"profile":{"content_settings":{"exceptions":{"cookies":{"b":2}},"permission_actions":{"notifications":[3]}}}}"#
    );
}

#[test]
fn preferences_without_those_sections_are_rewritten_unchanged() {
    assert_eq!(scrub_media_permissions(r#"{"a": [1, 2.5, null]}"#).unwrap(), r#"{"a":[1,2.5,null]}"#);
    assert!(scrub_media_permissions("{broken").is_err());
}

#[test]
fn utf16_length_counts_supplementary_characters_twice() {
    let text = "ab\u{1f600}\u{1f601}c";
    assert_eq!(encode_utf16(text).len(), 5 + 2);
    assert_eq!(unicode_key_events(text).len(), 2 * 7);
}

#[test]
fn insertion_types_then_falls_back_to_the_clipboard() {
    assert!(matches!(begin_insert(true), InsertStep::Type));
    assert!(matches!(begin_insert(false), InsertStep::CopyToClipboard));
    assert!(matches!(after_typing(true), InsertStep::Finish(Ok(true))));
    assert!(matches!(after_typing(false), InsertStep::CopyToClipboard));
    assert!(matches!(after_copy(Ok(true)), InsertStep::Finish(Ok(false))));
    assert!(matches!(after_copy(Err("no clipboard".to_string())), InsertStep::Finish(Err(ref e)) if e == "no clipboard"));
}

#[test]
fn preferences_floats_keep_their_single_rewrite() {
    let prefs = r#"{"zoom":0.1,"profile":{"content_settings":{"exceptions":{"media_stream_mic":1}}}}"#;
    let value: serde_json::Value = serde_json::from_str(prefs).unwrap();
    let mut expected = value.clone();
    expected
        .pointer_mut("/profile/content_settings/exceptions")
        .unwrap()
        .as_object_mut()
        .unwrap()
        .remove("media_stream_mic");
    assert_eq!(scrub_media_permissions(prefs).unwrap(), serde_json::to_string(&expected).unwrap());
}
