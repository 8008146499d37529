//! Normalisation of the interface language setting (a BCP 47 style tag such
//! as `en-US`) into the codes that the two transcription engines accept.

use vstd::prelude::*;
use crate::text::{has_char, lemma_segment_end, first_segment, segment_end, first_tag_segment, same_text};

verus! {

/// The language code sent to the cloud engine for the setting `l`; `None`
/// lets the engine detect the language.
pub open spec fn cloud_language(l: Seq<char>) -> Option<Seq<char>> {
    if l == "auto"@ {
        None
    } else if l == "en-US"@ || l == "en-GB"@ {
        Some("en"@)
    } else if l == "th-TH"@ {
        Some("th"@)
    } else if first_segment(l).len() == 0 {
        None
    } else {
        Some(first_segment(l))
    }
}

/// The language code sent to the local engine for the setting `l`.
pub open spec fn local_language(l: Seq<char>) -> Seq<char> {
    if l == "auto"@ {
        "auto"@
    } else if l == "en-US"@ || l == "en-GB"@ {
        "en"@
    } else if l == "th-TH"@ {
        "th"@
    } else if first_segment(l).len() == 0 {
        "auto"@
    } else {
        first_segment(l)
    }
}

/// The code the local engine gets for the language setting: `auto`, or the
/// primary subtag (the text before the first `-` or `_`).
pub fn local_language_code(language: &str) -> (r: String)
    ensures
        r@ == local_language(language@),
{
    if same_text(language, "auto") {
        String::from_str("auto")
    } else if same_text(language, "en-US") || same_text(language, "en-GB") {
        String::from_str("en")
    } else if same_text(language, "th-TH") {
        String::from_str("th")
    } else {
        let segment = first_tag_segment(language);
        if segment.unicode_len() == 0 {
            String::from_str("auto")
        } else {
            String::from_str(segment)
        }
    }
}

/// The code the cloud engine gets for the language setting, or `None` where
/// the engine is to detect the language itself.
pub fn openai_language_code(language: &str) -> (r: Option<String>)
    ensures
        r matches Some(code) ==> cloud_language(language@) == Some(code@),
        r is None ==> cloud_language(language@) is None,
{
    if same_text(language, "auto") {
        None
    } else if same_text(language, "en-US") || same_text(language, "en-GB") {
        Some(String::from_str("en"))
    } else if same_text(language, "th-TH") {
        Some(String::from_str("th"))
    } else {
        let segment = first_tag_segment(language);
        if segment.unicode_len() == 0 {
            None
        } else {
            Some(String::from_str(segment))
        }
    }
}

/// The two engines agree on every setting: the local code is the cloud code,
/// with `auto` where the cloud engine is left to detect the language.
pub proof fn law_engines_agree_on_language(l: Seq<char>)
    ensures
        local_language(l) == (match cloud_language(l) {
            Some(code) => code,
            None => "auto"@,
        }),
{
}

/// The named regional settings follow the general rule: every setting other
/// than `auto` maps to its primary subtag, or to detection where that subtag
/// is empty.
pub proof fn law_cloud_language_is_primary_subtag(l: Seq<char>)
    ensures
        cloud_language(l) == (if l == "auto"@ || first_segment(l).len() == 0 {
            None
        } else {
            Some(first_segment(l))
        }),
{
    reveal_strlit("en-US");
    reveal_strlit("en-GB");
    reveal_strlit("th-TH");
    reveal_strlit("en");
    reveal_strlit("th");
    if l == "en-US"@ || l == "en-GB"@ {
        assert(segment_end(l, 2) == 2);
        assert(segment_end(l, 1) == 2);
        assert(segment_end(l, 0) == 2);
        assert(first_segment(l) =~= "en"@);
    } else if l == "th-TH"@ {
        assert(segment_end(l, 2) == 2);
        assert(segment_end(l, 1) == 2);
        assert(segment_end(l, 0) == 2);
        assert(first_segment(l) =~= "th"@);
    }
}

/// The local engine always gets a code without `-` or `_`, never an empty
/// one: `auto`, `en`, `th`, or the text of the setting before its first
/// separator.
pub proof fn law_local_code_is_a_primary_subtag(l: Seq<char>)
    ensures
        !has_char(local_language(l), '-'),
        !has_char(local_language(l), '_'),
        local_language(l).len() > 0,
        local_language(l) == "auto"@ || local_language(l) == "en"@ || local_language(l) == "th"@
            || l.take(local_language(l).len() as int) == local_language(l),
{
    reveal_strlit("auto");
    reveal_strlit("en");
    reveal_strlit("th");
    lemma_segment_end(l, 0);
    let c = local_language(l);
    assert forall|i: int| 0 <= i < c.len() implies c[i] != '-' && c[i] != '_' by {
        if c == first_segment(l) {
            assert(c[i] == l[i]);
        }
    }
    if c == first_segment(l) {
        assert(l.take(c.len() as int) =~= c);
    }
}

} // verus!
