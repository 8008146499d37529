//! The calls into `serde_json` that the library makes, each behind a trusted
//! wrapper whose contract names its outcome.

use vstd::prelude::*;

verus! {

/// The message `serde_json` gives when the text is no JSON document (parsed
/// as a `serde_json::Value`), or `None` when it is one.
pub uninterp spec fn json_parse_failure(text: Seq<char>) -> Option<Seq<char>>;

/// Calls `serde_json::from_str::<serde_json::Value>` and renders its error
/// with `Display`. The contract names the outcome as [`json_parse_failure`].
#[verifier::external_body]
pub(crate) fn json_error(text: &str) -> (r: Option<String>)
    ensures
        match r {
            Some(e) => json_parse_failure(text@) == Some(e@),
            None => json_parse_failure(text@) is None,
        },
{
    serde_json::from_str::<serde_json::Value>(text).err().map(|error| error.to_string())
}

/// The boolean under `key` in the JSON document `text`, where the document
/// parses, is an object, and holds a boolean there.
pub uninterp spec fn json_bool_field(text: Seq<char>, key: Seq<char>) -> Option<bool>;

/// Parses the text with `serde_json::from_str::<serde_json::Value>` and reads
/// `key` with `Value::get` and `Value::as_bool`. The contract names the
/// outcome as [`json_bool_field`].
#[verifier::external_body]
pub(crate) fn json_bool(text: &str, key: &str) -> (r: Option<bool>)
    ensures
        r == json_bool_field(text@, key@),
{
    serde_json::from_str::<serde_json::Value>(text).ok().and_then(|value| value.get(key).and_then(|field| field.as_bool()))
}

/// The string under `key` in the JSON document `text`, where the document
/// parses, is an object, and holds a string there.
pub uninterp spec fn json_text_field(text: Seq<char>, key: Seq<char>) -> Option<Seq<char>>;

/// Parses the text with `serde_json::from_str::<serde_json::Value>` and reads
/// `key` with `Value::get` and `Value::as_str`. The contract names the
/// outcome as [`json_text_field`].
#[verifier::external_body]
pub(crate) fn json_text(text: &str, key: &str) -> (r: Option<String>)
    ensures
        match r {
            Some(s) => json_text_field(text@, key@) == Some(s@),
            None => json_text_field(text@, key@) is None,
        },
{
    serde_json::from_str::<serde_json::Value>(text).ok().and_then(|value| value.get(key).and_then(|field| field.as_str()).map(|s| s.to_string()))
}

/// The compact rendering (`Display`) of the JSON document `text` once parsed
/// as a `serde_json::Value`; empty where the text does not parse.
pub uninterp spec fn json_compact(text: Seq<char>) -> Seq<char>;

/// Parses the text with `serde_json::from_str::<serde_json::Value>` and
/// renders the value with `Display`. The contract names the outcome as
/// [`json_compact`].
#[verifier::external_body]
pub(crate) fn json_rendering(text: &str) -> (r: String)
    ensures
        r@ == json_compact(text@),
{
    match serde_json::from_str::<serde_json::Value>(text) {
        Ok(value) => value.to_string(),
        Err(_) => String::new(),
    }
}

/// The lowercase hexadecimal digit for `d` (0 to 15).
pub open spec fn hex_digit(d: int) -> char {
    if d < 10 {
        ((d + 0x30) as u32) as char
    } else {
        ((d - 10 + 0x61) as u32) as char
    }
}

/// How `serde_json` writes one character inside a string literal: quote and
/// backslash behind a backslash, the five control characters that JSON
/// names by letter as `\b`, `\t`, `\n`, `\f`, `\r`, the other control
/// characters below U+0020 as `\u00` and two lowercase hex digits, and
/// every other character as itself.
pub open spec fn json_escape_char(c: char) -> Seq<char> {
    let n = c as u32;
    if c == '"' {
        seq!['\\', '"']
    } else if c == '\\' {
        seq!['\\', '\\']
    } else if n == 0x08 {
        seq!['\\', 'b']
    } else if n == 0x09 {
        seq!['\\', 't']
    } else if n == 0x0a {
        seq!['\\', 'n']
    } else if n == 0x0c {
        seq!['\\', 'f']
    } else if n == 0x0d {
        seq!['\\', 'r']
    } else if n < 0x20 {
        seq!['\\', 'u', '0', '0', hex_digit((n / 16) as int), hex_digit((n % 16) as int)]
    } else {
        seq![c]
    }
}

/// The characters of `s`, each written as [`json_escape_char`] writes it.
pub open spec fn json_escaped(s: Seq<char>) -> Seq<char>
    decreases s.len(),
{
    if s.len() == 0 {
        Seq::empty()
    } else {
        json_escaped(s.drop_last()) + json_escape_char(s.last())
    }
}

/// The JSON string literal for `s`: its escaped characters between quotes.
pub open spec fn json_string_literal(s: Seq<char>) -> Seq<char> {
    seq!['"'] + json_escaped(s) + seq!['"']
}

/// A text with no quote, no backslash and no control character is written
/// between quotes as it stands; escaping never shortens a text.
pub proof fn law_plain_text_is_written_as_is(s: Seq<char>)
    ensures
        json_escaped(s).len() >= s.len(),
        (forall|i: int| 0 <= i < s.len() ==> #[trigger] s[i] != '"' && s[i] != '\\' && (s[i] as u32) >= 0x20)
            ==> json_escaped(s) == s && json_string_literal(s) == seq!['"'] + s + seq!['"'],
    decreases s.len(),
{
    if s.len() > 0 {
        law_plain_text_is_written_as_is(s.drop_last());
        if forall|i: int| 0 <= i < s.len() ==> #[trigger] s[i] != '"' && s[i] != '\\' && (s[i] as u32) >= 0x20 {
            assert forall|i: int| 0 <= i < s.drop_last().len() implies #[trigger] s.drop_last()[i] != '"'
                && s.drop_last()[i] != '\\' && (s.drop_last()[i] as u32) >= 0x20 by {
                assert(s.drop_last()[i] == s[i]);
            }
            let c = s[s.len() - 1];
            assert(c != '"' && c != '\\' && (c as u32) >= 0x20);
            assert(c == s.last());
            assert(json_escape_char(s.last()) == seq![s.last()]);
            assert(json_escaped(s.drop_last()) == s.drop_last());
            assert(s.drop_last().push(s.last()) =~= s);
            assert(json_escaped(s) =~= s);
        }
    } else {
        assert(json_escaped(s) =~= s);
    }
}

/// Writes a string slice as a JSON string with `Display` of
/// `serde_json::Value::String`, which serialises it as `serde_json`'s
/// `format_escaped_str` does: between quotes, with the escapes that
/// [`json_escape_char`] lists.
#[verifier::external_body]
pub(crate) fn json_quote(s: &str) -> (r: String)
    ensures
        r@ == json_string_literal(s@),
{
    serde_json::Value::String(s.to_string()).to_string()
}

/// The JSON document `doc`, once `serde_json` has parsed it into a
/// `serde_json::Value`, with each `(pointer, key)` of `removals` applied in
/// turn (the key removed from the object that the JSON pointer designates,
/// where there is such an object), written compactly by
/// `serde_json::to_string`; or the message of the error that writing gave.
pub uninterp spec fn json_without_keys(doc: Seq<char>, removals: Seq<(Seq<char>, Seq<char>)>) -> Result<
    Seq<char>,
    Seq<char>,
>;

#[verifier::external_type_specification]
#[verifier::external_body]
pub struct ExJsonValue(serde_json::Value);

/// A parsed JSON document, with the text it was parsed from and the keys
/// removed from it since, in order.
pub struct JsonDocument {
    value: serde_json::Value,
    source: Ghost<Seq<char>>,
    removals: Ghost<Seq<(Seq<char>, Seq<char>)>>,
}

impl JsonDocument {
    /// The text the document was parsed from.
    pub closed spec fn source(&self) -> Seq<char> {
        self.source@
    }

    /// The `(pointer, key)` removals made since parsing, in order.
    pub closed spec fn removals(&self) -> Seq<(Seq<char>, Seq<char>)> {
        self.removals@
    }
}

/// Calls `serde_json::from_str::<serde_json::Value>` and renders its error
/// with `Display`. The contract names a failure as [`json_parse_failure`];
/// a parsed document records its text and no removals.
#[verifier::external_body]
pub(crate) fn parse_json_document(doc: &str) -> (r: Result<JsonDocument, String>)
    ensures
        match r {
            Ok(d) => json_parse_failure(doc@) is None && d.source() == doc@ && d.removals() == Seq::<
                (Seq<char>, Seq<char>),
            >::empty(),
            Err(e) => json_parse_failure(doc@) == Some(e@),
        },
{
    match serde_json::from_str::<serde_json::Value>(doc) {
        Ok(value) => Ok(JsonDocument { value, source: Ghost(doc@), removals: Ghost(Seq::empty()) }),
        Err(error) => Err(error.to_string()),
    }
}

/// Finds the object at the JSON pointer with `Value::pointer_mut` and
/// `Value::as_object_mut` and, where there is one, removes the key with
/// `Map::remove`. The contract records the removal.
#[verifier::external_body]
pub(crate) fn remove_json_key(d: &mut JsonDocument, pointer: &str, key: &str)
    ensures
        final(d).source() == old(d).source(),
        final(d).removals() == old(d).removals().push((pointer@, key@)),
{
    if let Some(object) = d.value.pointer_mut(pointer).and_then(|target| target.as_object_mut()) {
        object.remove(key);
    }
}

/// Writes the document with `serde_json::to_string`, rendering an error with
/// `Display`. The contract names the outcome as [`json_without_keys`] of the
/// document's text and removals.
#[verifier::external_body]
pub(crate) fn write_json_document(d: &JsonDocument) -> (r: Result<String, String>)
    ensures
        match r {
            Ok(s) => json_without_keys(d.source(), d.removals()) == Ok::<Seq<char>, Seq<char>>(s@),
            Err(e) => json_without_keys(d.source(), d.removals()) == Err::<Seq<char>, Seq<char>>(e@),
        },
{
    serde_json::to_string(&d.value).map_err(|error| error.to_string())
}

} // verus!
