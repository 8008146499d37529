use echotype::language::{local_language_code, openai_language_code};
use echotype::text::{first_tag_segment, same_text, split_on_char, trim};

#[test]
fn trim_removes_unicode_white_space() {
    assert_eq!(trim("  \t hello world \n"), "hello world");
    assert_eq!(trim("\u{3000}\u{a0}x\u{2029}"), "x");
    assert_eq!(trim("   "), "");
    assert_eq!(trim(""), "");
    assert_eq!(trim("\u{200b}x"), "\u{200b}x");
}

#[test]
fn split_keeps_empty_pieces() {
    assert_eq!(split_on_char("a+b", '+'), vec!["a".to_string(), "b".to_string()]);
    assert_eq!(split_on_char("+", '+'), vec!["".to_string(), "".to_string()]);
    assert_eq!(split_on_char("", '+'), vec!["".to_string()]);
    assert_eq!(split_on_char("a++b+", '+'), "a++b+".split('+').map(String::from).collect::<Vec<_>>());
}

#[test]
fn same_text_compares_characters() {
    assert!(same_text("alt", "alt"));
    assert!(!same_text("alt", "Alt"));
    assert!(!same_text("alt", "alte"));
}

#[test]
fn first_segment_stops_at_dash_or_underscore() {
    assert_eq!(first_tag_segment("pt_BR"), "pt");
    assert_eq!(first_tag_segment("zh-Hant-TW"), "zh");
    assert_eq!(first_tag_segment("de"), "de");
    assert_eq!(first_tag_segment("-US"), "");
}

#[test]
fn local_codes_follow_the_table_then_the_primary_subtag() {
    assert_eq!(local_language_code("auto"), "auto");
    assert_eq!(local_language_code("en-US"), "en");
    assert_eq!(local_language_code("en-GB"), "en");
    assert_eq!(local_language_code("th-TH"), "th");
    assert_eq!(local_language_code("fr-FR"), "fr");
    assert_eq!(local_language_code("pt_BR"), "pt");
    assert_eq!(local_language_code("de"), "de");
    assert_eq!(local_language_code("-x"), "auto");
    assert_eq!(local_language_code(""), "auto");
}

#[test]
fn cloud_codes_leave_detection_to_the_engine() {
    assert_eq!(openai_language_code("auto"), None);
    assert_eq!(openai_language_code("en-US"), Some("en".to_string()));
    assert_eq!(openai_language_code("th-TH"), Some("th".to_string()));
    assert_eq!(openai_language_code("fr_CA"), Some("fr".to_string()));
    assert_eq!(openai_language_code(""), None);
    assert_eq!(openai_language_code("_x"), None);
}

#[test]
fn engines_agree_on_every_language() {
    for l in ["auto", "en-US", "en-GB", "th-TH", "es-MX", "ja", "", "-", "x_y", "AUTO"] {
        let local = local_language_code(l);
        let cloud = openai_language_code(l).unwrap_or_else(|| "auto".to_string());
        assert_eq!(local, cloud, "setting {l:?}");
    }
}
