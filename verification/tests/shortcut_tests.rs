use echotype::shortcut::{parse_shortcut, parse_shortcut_tokens, KeyCode, Modifiers, Shortcut};

fn mods(control: bool, alt: bool, shift: bool, super_key: bool) -> Modifiers {
    Modifiers { control, alt, shift, super_key }
}

#[test]
fn default_hotkey_parses_to_alt_space() {
    assert_eq!(
        parse_shortcut("Alt+Space"),
        Ok(Shortcut { modifiers: mods(false, true, false, false), key: KeyCode::Space })
    );
}

#[test]
fn tokens_are_trimmed_and_case_insensitive() {
    assert_eq!(
        parse_shortcut(" ctrl + SHIFT +  k "),
        Ok(Shortcut { modifiers: mods(true, false, true, false), key: KeyCode::KeyK })
    );
    assert_eq!(
        parse_shortcut("CMD+ENTER"),
        Ok(Shortcut { modifiers: mods(false, false, false, true), key: KeyCode::Enter })
    );
}

#[test]
fn every_modifier_alias_is_recognised() {
    assert_eq!(
        parse_shortcut("Control+Alt+Shift+Win+F12"),
        Ok(Shortcut { modifiers: mods(true, true, true, true), key: KeyCode::F12 })
    );
    assert_eq!(
        parse_shortcut("super+tab"),
        Ok(Shortcut { modifiers: mods(false, false, false, true), key: KeyCode::Tab })
    );
}

#[test]
fn repeated_modifiers_are_idempotent_and_order_free() {
    assert_eq!(parse_shortcut("Alt+Ctrl+Alt+F1"), parse_shortcut("Ctrl+Alt+F1"));
}

#[test]
fn last_key_wins() {
    assert_eq!(
        parse_shortcut("A+B"),
        Ok(Shortcut { modifiers: mods(false, false, false, false), key: KeyCode::KeyB })
    );
    assert_eq!(
        parse_shortcut("Space+Alt"),
        Ok(Shortcut { modifiers: mods(false, true, false, false), key: KeyCode::Space })
    );
}

#[test]
fn a_key_is_required() {
    assert_eq!(parse_shortcut("Alt"), Err("Shortcut needs a key, such as Alt+Space.".to_string()));
    assert_eq!(parse_shortcut("Ctrl+Shift"), Err("Shortcut needs a key, such as Alt+Space.".to_string()));
}

#[test]
fn a_non_letter_character_clears_the_key() {
    assert_eq!(parse_shortcut("Alt+A+1"), Err("Shortcut needs a key, such as Alt+Space.".to_string()));
    assert_eq!(
        parse_shortcut("Alt+1+Z"),
        Ok(Shortcut { modifiers: mods(false, true, false, false), key: KeyCode::KeyZ })
    );
}

#[test]
fn unsupported_tokens_are_reported() {
    assert_eq!(parse_shortcut("Alt+Foo"), Err("Unsupported shortcut token: foo.".to_string()));
    assert_eq!(parse_shortcut("Alt++Space"), Err("Unsupported shortcut token: .".to_string()));
    assert_eq!(parse_shortcut(""), Err("Unsupported shortcut token: .".to_string()));
    assert_eq!(parse_shortcut("Alt+F13+Bar"), Err("Unsupported shortcut token: f13.".to_string()));
}

#[test]
fn first_unsupported_token_wins_over_a_missing_key() {
    assert_eq!(parse_shortcut("Foo+Bar"), Err("Unsupported shortcut token: foo.".to_string()));
}

#[test]
fn unicode_lowercasing_is_applied() {
    // KELVIN SIGN lowercases to the ASCII letter k.
    assert_eq!(
        parse_shortcut("Alt+\u{212A}"),
        Ok(Shortcut { modifiers: mods(false, true, false, false), key: KeyCode::KeyK })
    );
    // A non-ASCII letter is neither a modifier nor a key.
    assert_eq!(parse_shortcut("Alt+\u{e9}"), Err("Unsupported shortcut token: \u{e9}.".to_string()));
}

#[test]
fn normalised_tokens_parse_directly() {
    let tokens = vec!["ctrl".to_string(), "f5".to_string()];
    assert_eq!(
        parse_shortcut_tokens(&tokens),
        Ok(Shortcut { modifiers: mods(true, false, false, false), key: KeyCode::F5 })
    );
    let unnormalised = vec!["Ctrl".to_string(), "f5".to_string()];
    assert_eq!(parse_shortcut_tokens(&unnormalised), Err("Unsupported shortcut token: Ctrl.".to_string()));
    assert_eq!(parse_shortcut_tokens(&Vec::new()), Err("Shortcut needs a key, such as Alt+Space.".to_string()));
}

#[test]
fn every_letter_maps_to_its_key() {
    let letters = "abcdefghijklmnopqrstuvwxyz";
    let keys = [
        KeyCode::KeyA, KeyCode::KeyB, KeyCode::KeyC, KeyCode::KeyD, KeyCode::KeyE, KeyCode::KeyF,
        KeyCode::KeyG, KeyCode::KeyH, KeyCode::KeyI, KeyCode::KeyJ, KeyCode::KeyK, KeyCode::KeyL,
        KeyCode::KeyM, KeyCode::KeyN, KeyCode::KeyO, KeyCode::KeyP, KeyCode::KeyQ, KeyCode::KeyR,
        KeyCode::KeyS, KeyCode::KeyT, KeyCode::KeyU, KeyCode::KeyV, KeyCode::KeyW, KeyCode::KeyX,
        KeyCode::KeyY, KeyCode::KeyZ,
    ];
    for (letter, key) in letters.chars().zip(keys.iter()) {
        let hotkey = format!("Shift+{}", letter.to_ascii_uppercase());
        assert_eq!(
            parse_shortcut(&hotkey),
            Ok(Shortcut { modifiers: mods(false, false, true, false), key: *key })
        );
    }
}

#[test]
fn every_function_key_maps() {
    let keys = [
        KeyCode::F1, KeyCode::F2, KeyCode::F3, KeyCode::F4, KeyCode::F5, KeyCode::F6,
        KeyCode::F7, KeyCode::F8, KeyCode::F9, KeyCode::F10, KeyCode::F11, KeyCode::F12,
    ];
    for (i, key) in keys.iter().enumerate() {
        let hotkey = format!("F{}", i + 1);
        assert_eq!(parse_shortcut(&hotkey), Ok(Shortcut { modifiers: mods(false, false, false, false), key: *key }));
    }
}

#[test]
fn ascii_case_does_not_matter() {
    assert_eq!(parse_shortcut("ALT+SPACE"), parse_shortcut("alt+space"));
    assert_eq!(parse_shortcut("Ctrl+Foo"), parse_shortcut("CTRL+FOO"));
    assert_eq!(parse_shortcut("Ctrl+Foo"), Err("Unsupported shortcut token: foo.".to_string()));
}

#[test]
fn white_space_around_pieces_is_ignored() {
    assert_eq!(parse_shortcut(" Ctrl\t+ \u{3000}K "), parse_shortcut("Ctrl+K"));
    assert_eq!(parse_shortcut("Alt+ Foo "), parse_shortcut("Alt+Foo"));
}

#[test]
fn modifiers_form_a_set_around_the_key() {
    let expected = parse_shortcut("Ctrl+Shift+K");
    assert!(expected.is_ok());
    assert_eq!(parse_shortcut("K+Shift+Ctrl"), expected);
    assert_eq!(parse_shortcut("Shift+K+Ctrl+Shift+Ctrl"), expected);
    assert_eq!(parse_shortcut("Alt+Foo+Alt"), parse_shortcut("Foo+Alt"));
}
