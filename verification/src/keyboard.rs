//! Typing a transcript into the focused window: the text is encoded as
//! UTF-16 and every code unit becomes a key press and a key release of a
//! Unicode keyboard event.

use vstd::prelude::*;

verus! {

/// The UTF-16 code units of one character.
pub open spec fn utf16_of_char(c: char) -> Seq<u16> {
    let n = c as u32;
    if n < 0x10000 {
        seq![n as u16]
    } else {
        let m = n - 0x10000;
        seq![(0xd800 + m / 0x400) as u16, (0xdc00 + m % 0x400) as u16]
    }
}

/// The UTF-16 encoding of a text, as `str::encode_utf16` yields it.
pub open spec fn utf16(s: Seq<char>) -> Seq<u16>
    decreases s.len(),
{
    if s.len() == 0 {
        Seq::empty()
    } else {
        utf16(s.drop_last()) + utf16_of_char(s.last())
    }
}

/// Encodes a text as UTF-16 code units.
pub fn encode_utf16(text: &str) -> (r: Vec<u16>)
    ensures
        r@ == utf16(text@),
{
    let n = text.unicode_len();
    let mut units: Vec<u16> = Vec::new();
    let mut i: usize = 0;
    assert(text@.take(0) =~= Seq::<char>::empty());
    while i < n
        invariant
            n == text@.len(),
            0 <= i <= n,
            units@ == utf16(text@.take(i as int)),
        decreases n - i,
    {
        let c = text.get_char(i);
        let code = c as u32;
        assert(text@.take(i + 1).drop_last() =~= text@.take(i as int));
        assert(text@.take(i + 1).last() == c);
        let ghost before = units@;
        if code < 0x10000 {
            units.push(code as u16);
            assert(units@ =~= before + utf16_of_char(c));
        } else {
            let m = code - 0x10000;
            assert(m < 0x100000) by {
                assert(code <= 0x10ffff);
            }
            units.push((0xd800 + m / 0x400) as u16);
            units.push((0xdc00 + m % 0x400) as u16);
            assert(units@ =~= before + utf16_of_char(c));
        }
        i = i + 1;
    }
    assert(text@.take(n as int) =~= text@);
    units
}

/// One keyboard event that types a UTF-16 code unit: its press, or its release.
#[derive(Clone, Copy, Debug, PartialEq, Eq, Structural)]
pub struct KeyEvent {
    pub unit: u16,
    pub key_up: bool,
}

/// The events that type the code units: a press and a release for each unit,
/// in order.
pub open spec fn typing_events(units: Seq<u16>) -> Seq<KeyEvent>
    decreases units.len(),
{
    if units.len() == 0 {
        Seq::empty()
    } else {
        typing_events(units.drop_last()) + seq![
            KeyEvent { unit: units.last(), key_up: false },
            KeyEvent { unit: units.last(), key_up: true },
        ]
    }
}

/// The keyboard events that type `text` into the focused window.
pub fn unicode_key_events(text: &str) -> (r: Vec<KeyEvent>)
    ensures
        r@ == typing_events(utf16(text@)),
{
    let units = encode_utf16(text);
    let n = units.len();
    let mut events: Vec<KeyEvent> = Vec::new();
    let mut i: usize = 0;
    assert(units@.take(0) =~= Seq::<u16>::empty());
    while i < n
        invariant
            n == units@.len(),
            0 <= i <= n,
            events@ == typing_events(units@.take(i as int)),
        decreases n - i,
    {
        let unit = units[i];
        let ghost before = events@;
        assert(units@.take(i + 1).drop_last() =~= units@.take(i as int));
        events.push(KeyEvent { unit, key_up: false });
        events.push(KeyEvent { unit, key_up: true });
        assert(events@ =~= before + seq![
            KeyEvent { unit, key_up: false },
            KeyEvent { unit, key_up: true },
        ]);
        i = i + 1;
    }
    assert(units@.take(n as int) =~= units@);
    events
}

/// How typing went, and what remains to do.
#[derive(Clone, Copy, Debug, PartialEq, Eq, Structural)]
pub enum SendOutcome {
    /// The text was typed (or there was nothing to type).
    Typed,
    /// Not every event was taken: post the code units as characters to the
    /// foreground window instead.
    PostCharacters,
}

/// Judges a batch of `events` typing events of which the system took `sent`.
pub fn send_outcome(events: usize, sent: u32) -> (r: SendOutcome)
    ensures
        r == (if events == 0 || sent == events as u32 {
            SendOutcome::Typed
        } else {
            SendOutcome::PostCharacters
        }),
{
    if events == 0 {
        SendOutcome::Typed
    } else if sent == events as u32 {
        SendOutcome::Typed
    } else {
        SendOutcome::PostCharacters
    }
}

/// What to do next while inserting a transcript into the window that had
/// the focus.
#[derive(Debug)]
pub enum InsertStep {
    /// Type the text with keyboard events, then report with [`after_typing`].
    Type,
    /// Put the text on the clipboard, then report with [`after_copy`].
    CopyToClipboard,
    /// Done: `true` where the text was typed, `false` where it was only
    /// copied to the clipboard.
    Finish(Result<bool, String>),
}

/// The first step of inserting a transcript: typing where the platform can
/// send keyboard events, else the clipboard.
pub fn begin_insert(can_type: bool) -> (r: InsertStep)
    ensures
        can_type ==> r is Type,
        !can_type ==> r is CopyToClipboard,
{
    if can_type {
        InsertStep::Type
    } else {
        InsertStep::CopyToClipboard
    }
}

/// After typing: a typed text is inserted; otherwise the text goes to the
/// clipboard instead.
pub fn after_typing(typed: bool) -> (r: InsertStep)
    ensures
        typed ==> r matches InsertStep::Finish(Ok(true)),
        !typed ==> r is CopyToClipboard,
{
    if typed {
        InsertStep::Finish(Ok(true))
    } else {
        InsertStep::CopyToClipboard
    }
}

/// After copying to the clipboard: the insertion ends with `false`, or with
/// the clipboard's error.
pub fn after_copy(outcome: Result<bool, String>) -> (r: InsertStep)
    ensures
        outcome is Ok ==> r matches InsertStep::Finish(Ok(false)),
        outcome matches Err(e) ==> (r matches InsertStep::Finish(Err(f)) && f@ == e@),
{
    match outcome {
        Ok(_) => InsertStep::Finish(Ok(false)),
        Err(e) => InsertStep::Finish(Err(e)),
    }
}

/// Every character is one code unit, or two where it lies beyond the basic
/// multilingual plane.
pub proof fn law_utf16_length(s: Seq<char>)
    ensures
        utf16(s).len() == s.len() + s.filter(|c: char| (c as u32) >= 0x10000).len(),
    decreases s.len(),
{
    if s.len() > 0 {
        law_utf16_length(s.drop_last());
        reveal_with_fuel(Seq::<char>::filter, 1);
    } else {
        reveal_with_fuel(Seq::<char>::filter, 1);
    }
}

/// Typing presses and releases every code unit in turn: two events per unit.
pub proof fn law_press_then_release(units: Seq<u16>)
    ensures
        typing_events(units).len() == 2 * units.len(),
        forall|i: int|
            0 <= i < units.len() ==> #[trigger] typing_events(units)[2 * i] == (KeyEvent {
                unit: units[i],
                key_up: false,
            }) && typing_events(units)[2 * i + 1] == (KeyEvent { unit: units[i], key_up: true }),
    decreases units.len(),
{
    if units.len() > 0 {
        let prev = units.drop_last();
        law_press_then_release(prev);
        assert forall|i: int| 0 <= i < units.len() implies #[trigger] typing_events(units)[2 * i] == (KeyEvent {
            unit: units[i],
            key_up: false,
        }) && typing_events(units)[2 * i + 1] == (KeyEvent { unit: units[i], key_up: true }) by {
            if i < prev.len() {
                assert(typing_events(prev)[2 * i] == (KeyEvent { unit: prev[i], key_up: false }));
            }
        }
    }
}

} // verus!
