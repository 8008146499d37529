//! Forgetting the microphone and camera decisions that the embedded web view
//! stored in its preferences file, so that it asks again.

use vstd::prelude::*;
use crate::json::{json_parse_failure, json_without_keys, parse_json_document, remove_json_key, write_json_document};

verus! {

/// The pointer to the per-site permission exceptions.
pub open spec fn exceptions_pointer() -> Seq<char> {
    "/profile/content_settings/exceptions"@
}

/// The pointer to the recorded permission prompts.
pub open spec fn actions_pointer() -> Seq<char> {
    "/profile/content_settings/permission_actions"@
}

/// The keys removed, each with the pointer to the object that holds it: the
/// microphone and camera exceptions, then the microphone and camera prompt
/// outcomes.
pub open spec fn media_permission_keys() -> Seq<(Seq<char>, Seq<char>)> {
    seq![
        (exceptions_pointer(), "media_stream_mic"@),
        (exceptions_pointer(), "media_stream_camera"@),
        (actions_pointer(), "mic_stream"@),
        (actions_pointer(), "camera_stream"@),
    ]
}

/// The preferences without the stored microphone and camera exceptions and
/// prompt outcomes, or the error of reading or writing them.
pub open spec fn scrubbed_preferences(doc: Seq<char>) -> Result<Seq<char>, Seq<char>> {
    match json_parse_failure(doc) {
        Some(e) => Err(e),
        None => json_without_keys(doc, media_permission_keys()),
    }
}

/// Removes the stored microphone and camera decisions from the web view's
/// preferences (`media_stream_mic` and `media_stream_camera` among the
/// content-setting exceptions, `mic_stream` and `camera_stream` among the
/// permission actions), parsing the document once and writing it once.
pub fn scrub_media_permissions(contents: &str) -> (r: Result<String, String>)
    ensures
        match r {
            Ok(d) => scrubbed_preferences(contents@) == Ok::<Seq<char>, Seq<char>>(d@),
            Err(e) => scrubbed_preferences(contents@) == Err::<Seq<char>, Seq<char>>(e@),
        },
{
    let mut document = match parse_json_document(contents) {
        Ok(document) => document,
        Err(e) => return Err(e),
    };
    let exceptions = "/profile/content_settings/exceptions";
    let actions = "/profile/content_settings/permission_actions";
    remove_json_key(&mut document, exceptions, "media_stream_mic");
    remove_json_key(&mut document, exceptions, "media_stream_camera");
    remove_json_key(&mut document, actions, "mic_stream");
    remove_json_key(&mut document, actions, "camera_stream");
    assert(document.removals() =~= media_permission_keys());
    write_json_document(&document)
}

/// The rewritten preferences are the parsed document with four keys taken
/// out and nothing else: `media_stream_mic` and `media_stream_camera` from the
/// exceptions object, `mic_stream` and `camera_stream` from the permission
/// actions object, in that order. Any other key at any place, such as the
/// `notifications` exceptions, is not among those removed, so it is kept.
pub proof fn law_only_media_decisions_are_removed(doc: Seq<char>, pointer: Seq<char>, key: Seq<char>)
    ensures
        scrubbed_preferences(doc) == (match json_parse_failure(doc) {
            Some(e) => Err::<Seq<char>, Seq<char>>(e),
            None => json_without_keys(
                doc,
                seq![
                    ("/profile/content_settings/exceptions"@, "media_stream_mic"@),
                    ("/profile/content_settings/exceptions"@, "media_stream_camera"@),
                    ("/profile/content_settings/permission_actions"@, "mic_stream"@),
                    ("/profile/content_settings/permission_actions"@, "camera_stream"@),
                ],
            ),
        }),
        (exists|i: int| 0 <= i < media_permission_keys().len() && media_permission_keys()[i] == (pointer, key))
            <==> ((pointer == "/profile/content_settings/exceptions"@ && (key == "media_stream_mic"@ || key
            == "media_stream_camera"@)) || (pointer == "/profile/content_settings/permission_actions"@ && (key
            == "mic_stream"@ || key == "camera_stream"@))),
{
    let ks = media_permission_keys();
    if (pointer == exceptions_pointer() && (key == "media_stream_mic"@ || key == "media_stream_camera"@)) || (
    pointer == actions_pointer() && (key == "mic_stream"@ || key == "camera_stream"@)) {
        if pointer == exceptions_pointer() && key == "media_stream_mic"@ {
            assert(ks[0] == (pointer, key));
        } else if pointer == exceptions_pointer() && key == "media_stream_camera"@ {
            assert(ks[1] == (pointer, key));
        } else if pointer == actions_pointer() && key == "mic_stream"@ {
            assert(ks[2] == (pointer, key));
        } else {
            assert(ks[3] == (pointer, key));
        }
    }
}

} // verus!
