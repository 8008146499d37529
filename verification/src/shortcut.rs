//! The global hotkey setting: a `+`-separated list of modifier names and one
//! key name, such as `Alt+Space` or `ctrl + shift + K`.

use vstd::prelude::*;
use crate::text::{has_char, join_with, lemma_split_join, all_white_space, lemma_trimmed_padded, all_ascii, ascii_lowercase, ascii_lower_char, lemma_ascii_lower_char_keeps, lemma_ascii_lowercase_idempotent, lemma_split_on_ascii, lemma_split_on_map, lemma_trimmed_ascii, lemma_trimmed_map, lowercase, lowercase_of, same_text, split_on, split_on_char, trim, trimmed, views};

verus! {

/// The keys a hotkey can end in.
#[derive(Clone, Copy, Debug, PartialEq, Eq, Structural)]
pub enum KeyCode {
    Space,
    Enter,
    Tab,
    F1,
    F2,
    F3,
    F4,
    F5,
    F6,
    F7,
    F8,
    F9,
    F10,
    F11,
    F12,
    KeyA,
    KeyB,
    KeyC,
    KeyD,
    KeyE,
    KeyF,
    KeyG,
    KeyH,
    KeyI,
    KeyJ,
    KeyK,
    KeyL,
    KeyM,
    KeyN,
    KeyO,
    KeyP,
    KeyQ,
    KeyR,
    KeyS,
    KeyT,
    KeyU,
    KeyV,
    KeyW,
    KeyX,
    KeyY,
    KeyZ,
}

/// The modifier keys held with the hotkey.
#[derive(Clone, Copy, Debug, PartialEq, Eq, Structural)]
pub struct Modifiers {
    pub control: bool,
    pub alt: bool,
    pub shift: bool,
    pub super_key: bool,
}

/// A parsed hotkey: modifiers and one key.
#[derive(Clone, Copy, Debug, PartialEq, Eq, Structural)]
pub struct Shortcut {
    pub modifiers: Modifiers,
    pub key: KeyCode,
}

/// One modifier key.
#[derive(Clone, Copy, Debug, PartialEq, Eq, Structural)]
pub enum ModifierKey {
    Control,
    Alt,
    Shift,
    Super,
}

/// What one (trimmed, lowercased) token of a hotkey means.
#[derive(Clone, Copy, Debug, PartialEq, Eq, Structural)]
pub enum Token {
    /// Adds a modifier.
    Modifier(ModifierKey),
    /// Sets the key.
    Key(KeyCode),
    /// A single ASCII character that is no letter: it clears the key.
    NoKey,
    /// Anything else: the hotkey is refused.
    Unsupported,
}

impl Modifiers {
    /// No modifier held.
    pub open spec fn none() -> Modifiers {
        Modifiers { control: false, alt: false, shift: false, super_key: false }
    }

    /// These modifiers with `m` added.
    pub open spec fn with(self, m: ModifierKey) -> Modifiers {
        match m {
            ModifierKey::Control => Modifiers { control: true, ..self },
            ModifierKey::Alt => Modifiers { alt: true, ..self },
            ModifierKey::Shift => Modifiers { shift: true, ..self },
            ModifierKey::Super => Modifiers { super_key: true, ..self },
        }
    }

    /// Whether `m` is among these modifiers.
    pub open spec fn holds(self, m: ModifierKey) -> bool {
        match m {
            ModifierKey::Control => self.control,
            ModifierKey::Alt => self.alt,
            ModifierKey::Shift => self.shift,
            ModifierKey::Super => self.super_key,
        }
    }
}

/// The key for the letter with the given alphabet position (0 for A).
pub open spec fn letter_at(i: int) -> KeyCode {
    if i == 0 { KeyCode::KeyA }
    else if i == 1 { KeyCode::KeyB }
    else if i == 2 { KeyCode::KeyC }
    else if i == 3 { KeyCode::KeyD }
    else if i == 4 { KeyCode::KeyE }
    else if i == 5 { KeyCode::KeyF }
    else if i == 6 { KeyCode::KeyG }
    else if i == 7 { KeyCode::KeyH }
    else if i == 8 { KeyCode::KeyI }
    else if i == 9 { KeyCode::KeyJ }
    else if i == 10 { KeyCode::KeyK }
    else if i == 11 { KeyCode::KeyL }
    else if i == 12 { KeyCode::KeyM }
    else if i == 13 { KeyCode::KeyN }
    else if i == 14 { KeyCode::KeyO }
    else if i == 15 { KeyCode::KeyP }
    else if i == 16 { KeyCode::KeyQ }
    else if i == 17 { KeyCode::KeyR }
    else if i == 18 { KeyCode::KeyS }
    else if i == 19 { KeyCode::KeyT }
    else if i == 20 { KeyCode::KeyU }
    else if i == 21 { KeyCode::KeyV }
    else if i == 22 { KeyCode::KeyW }
    else if i == 23 { KeyCode::KeyX }
    else if i == 24 { KeyCode::KeyY }
    else { KeyCode::KeyZ }
}

/// The key of an ASCII letter of either case (the character is upper-cased
/// as `char::to_ascii_uppercase` does); `None` for any other character.
pub open spec fn letter_key(c: char) -> Option<KeyCode> {
    let n = c as u32;
    if 0x61 <= n <= 0x7a {
        Some(letter_at(n - 0x61))
    } else if 0x41 <= n <= 0x5a {
        Some(letter_at(n - 0x41))
    } else {
        None
    }
}

/// What a normalised token means.
#[verifier::opaque]
pub open spec fn token_meaning(t: Seq<char>) -> Token {
    if t == "ctrl"@ || t == "control"@ {
        Token::Modifier(ModifierKey::Control)
    } else if t == "alt"@ {
        Token::Modifier(ModifierKey::Alt)
    } else if t == "shift"@ {
        Token::Modifier(ModifierKey::Shift)
    } else if t == "cmd"@ || t == "win"@ || t == "super"@ {
        Token::Modifier(ModifierKey::Super)
    } else if t == "space"@ {
        Token::Key(KeyCode::Space)
    } else if t == "enter"@ {
        Token::Key(KeyCode::Enter)
    } else if t == "tab"@ {
        Token::Key(KeyCode::Tab)
    } else if t == "f1"@ {
        Token::Key(KeyCode::F1)
    } else if t == "f2"@ {
        Token::Key(KeyCode::F2)
    } else if t == "f3"@ {
        Token::Key(KeyCode::F3)
    } else if t == "f4"@ {
        Token::Key(KeyCode::F4)
    } else if t == "f5"@ {
        Token::Key(KeyCode::F5)
    } else if t == "f6"@ {
        Token::Key(KeyCode::F6)
    } else if t == "f7"@ {
        Token::Key(KeyCode::F7)
    } else if t == "f8"@ {
        Token::Key(KeyCode::F8)
    } else if t == "f9"@ {
        Token::Key(KeyCode::F9)
    } else if t == "f10"@ {
        Token::Key(KeyCode::F10)
    } else if t == "f11"@ {
        Token::Key(KeyCode::F11)
    } else if t == "f12"@ {
        Token::Key(KeyCode::F12)
    } else if t.len() == 1 && (t[0] as u32) < 0x80 {
        match letter_key(t[0]) {
            Some(k) => Token::Key(k),
            None => Token::NoKey,
        }
    } else {
        Token::Unsupported
    }
}

/// The error for a token that names neither a modifier nor a key.
pub open spec fn unsupported_message(t: Seq<char>) -> Seq<char> {
    "Unsupported shortcut token: "@ + t + "."@
}

/// The error for a hotkey without a key.
pub open spec fn missing_key_message() -> Seq<char> {
    "Shortcut needs a key, such as Alt+Space."@
}

/// Modifiers and key gathered from a prefix of the tokens.
pub struct Progress {
    pub modifiers: Modifiers,
    pub key: Option<KeyCode>,
}

/// The effect of one token on what was gathered before it.
pub open spec fn step(p: Progress, t: Seq<char>) -> Result<Progress, Seq<char>> {
    match token_meaning(t) {
        Token::Modifier(m) => Ok(Progress { modifiers: p.modifiers.with(m), key: p.key }),
        Token::Key(k) => Ok(Progress { modifiers: p.modifiers, key: Some(k) }),
        Token::NoKey => Ok(Progress { modifiers: p.modifiers, key: None }),
        Token::Unsupported => Err(unsupported_message(t)),
    }
}

/// The tokens read from left to right; the first unsupported token stops the
/// reading with its error.
pub open spec fn gather(tokens: Seq<Seq<char>>) -> Result<Progress, Seq<char>>
    decreases tokens.len(),
{
    if tokens.len() == 0 {
        Ok(Progress { modifiers: Modifiers::none(), key: None })
    } else {
        match gather(tokens.drop_last()) {
            Err(e) => Err(e),
            Ok(p) => step(p, tokens.last()),
        }
    }
}

/// The shortcut that normalised tokens describe, or the error for them.
pub open spec fn shortcut_of_tokens(tokens: Seq<Seq<char>>) -> Result<Shortcut, Seq<char>> {
    match gather(tokens) {
        Err(e) => Err(e),
        Ok(p) => match p.key {
            None => Err(missing_key_message()),
            Some(k) => Ok(Shortcut { modifiers: p.modifiers, key: k }),
        },
    }
}

/// The normalised tokens of a hotkey: its `+`-separated pieces, trimmed and
/// lowercased.
pub open spec fn hotkey_tokens(hotkey: Seq<char>) -> Seq<Seq<char>> {
    split_on(hotkey, '+').map_values(|p: Seq<char>| lowercase_of(trimmed(p)))
}

/// The tokens of a hotkey written in ASCII: its `+`-separated pieces,
/// trimmed and ASCII-lowercased.
pub open spec fn ascii_hotkey_tokens(hotkey: Seq<char>) -> Seq<Seq<char>> {
    split_on(hotkey, '+').map_values(|p: Seq<char>| ascii_lowercase(trimmed(p)))
}

/// The shortcut a hotkey setting describes, or the error for it.
pub open spec fn shortcut_of(hotkey: Seq<char>) -> Result<Shortcut, Seq<char>> {
    shortcut_of_tokens(hotkey_tokens(hotkey))
}

/// The key for the letter with the given alphabet position.
fn letter_at_index(i: u32) -> (r: KeyCode)
    requires
        i < 26,
    ensures
        r == letter_at(i as int),
{
    if i == 0 {
        KeyCode::KeyA
    } else if i == 1 {
        KeyCode::KeyB
    } else if i == 2 {
        KeyCode::KeyC
    } else if i == 3 {
        KeyCode::KeyD
    } else if i == 4 {
        KeyCode::KeyE
    } else if i == 5 {
        KeyCode::KeyF
    } else if i == 6 {
        KeyCode::KeyG
    } else if i == 7 {
        KeyCode::KeyH
    } else if i == 8 {
        KeyCode::KeyI
    } else if i == 9 {
        KeyCode::KeyJ
    } else if i == 10 {
        KeyCode::KeyK
    } else if i == 11 {
        KeyCode::KeyL
    } else if i == 12 {
        KeyCode::KeyM
    } else if i == 13 {
        KeyCode::KeyN
    } else if i == 14 {
        KeyCode::KeyO
    } else if i == 15 {
        KeyCode::KeyP
    } else if i == 16 {
        KeyCode::KeyQ
    } else if i == 17 {
        KeyCode::KeyR
    } else if i == 18 {
        KeyCode::KeyS
    } else if i == 19 {
        KeyCode::KeyT
    } else if i == 20 {
        KeyCode::KeyU
    } else if i == 21 {
        KeyCode::KeyV
    } else if i == 22 {
        KeyCode::KeyW
    } else if i == 23 {
        KeyCode::KeyX
    } else if i == 24 {
        KeyCode::KeyY
    } else {
        KeyCode::KeyZ
    }
}

/// The key of an ASCII letter of either case.
pub fn ascii_letter_key(c: char) -> (r: Option<KeyCode>)
    ensures
        r == letter_key(c),
{
    let n = c as u32;
    if 0x61 <= n && n <= 0x7a {
        Some(letter_at_index(n - 0x61))
    } else if 0x41 <= n && n <= 0x5a {
        Some(letter_at_index(n - 0x41))
    } else {
        None
    }
}

/// What a normalised token means.
pub fn classify_token(t: &str) -> (r: Token)
    ensures
        r == token_meaning(t@),
{
    reveal(token_meaning);
    if same_text(t, "ctrl") || same_text(t, "control") {
        Token::Modifier(ModifierKey::Control)
    } else if same_text(t, "alt") {
        Token::Modifier(ModifierKey::Alt)
    } else if same_text(t, "shift") {
        Token::Modifier(ModifierKey::Shift)
    } else if same_text(t, "cmd") || same_text(t, "win") || same_text(t, "super") {
        Token::Modifier(ModifierKey::Super)
    } else if same_text(t, "space") {
        Token::Key(KeyCode::Space)
    } else if same_text(t, "enter") {
        Token::Key(KeyCode::Enter)
    } else if same_text(t, "tab") {
        Token::Key(KeyCode::Tab)
    } else if same_text(t, "f1") {
        Token::Key(KeyCode::F1)
    } else if same_text(t, "f2") {
        Token::Key(KeyCode::F2)
    } else if same_text(t, "f3") {
        Token::Key(KeyCode::F3)
    } else if same_text(t, "f4") {
        Token::Key(KeyCode::F4)
    } else if same_text(t, "f5") {
        Token::Key(KeyCode::F5)
    } else if same_text(t, "f6") {
        Token::Key(KeyCode::F6)
    } else if same_text(t, "f7") {
        Token::Key(KeyCode::F7)
    } else if same_text(t, "f8") {
        Token::Key(KeyCode::F8)
    } else if same_text(t, "f9") {
        Token::Key(KeyCode::F9)
    } else if same_text(t, "f10") {
        Token::Key(KeyCode::F10)
    } else if same_text(t, "f11") {
        Token::Key(KeyCode::F11)
    } else if same_text(t, "f12") {
        Token::Key(KeyCode::F12)
    } else if t.unicode_len() == 1 && (t.get_char(0) as u32) < 0x80 {
        match ascii_letter_key(t.get_char(0)) {
            Some(k) => Token::Key(k),
            None => Token::NoKey,
        }
    } else {
        Token::Unsupported
    }
}

/// Adds one modifier.
fn add_modifier(mods: Modifiers, m: ModifierKey) -> (r: Modifiers)
    ensures
        r == mods.with(m),
{
    match m {
        ModifierKey::Control => Modifiers { control: true, ..mods },
        ModifierKey::Alt => Modifiers { alt: true, ..mods },
        ModifierKey::Shift => Modifiers { shift: true, ..mods },
        ModifierKey::Super => Modifiers { super_key: true, ..mods },
    }
}

/// Parses hotkey tokens that are already trimmed and lowercased: modifier
/// names add modifiers, key names set the key (a later one replaces an
/// earlier one), and the first token that is neither is refused.
pub fn parse_shortcut_tokens(tokens: &Vec<String>) -> (r: Result<Shortcut, String>)
    ensures
        match r {
            Ok(s) => shortcut_of_tokens(views(tokens@)) == Ok::<Shortcut, Seq<char>>(s),
            Err(e) => shortcut_of_tokens(views(tokens@)) == Err::<Shortcut, Seq<char>>(e@),
        },
{
    let ghost ts = views(tokens@);
    let mut mods = Modifiers { control: false, alt: false, shift: false, super_key: false };
    let mut key: Option<KeyCode> = None;
    let n = tokens.len();
    let mut i: usize = 0;
    assert(ts.take(0) =~= Seq::<Seq<char>>::empty());
    while i < n
        invariant
            n == tokens@.len(),
            ts == views(tokens@),
            0 <= i <= n,
            gather(ts.take(i as int)) == Ok::<Progress, Seq<char>>(Progress { modifiers: mods, key }),
        decreases n - i,
    {
        let t = tokens[i].as_str();
        assert(ts.take(i + 1).drop_last() =~= ts.take(i as int));
        assert(ts.take(i + 1).last() == t@);
        match classify_token(t) {
            Token::Modifier(m) => {
                mods = add_modifier(mods, m);
            },
            Token::Key(k) => {
                key = Some(k);
            },
            Token::NoKey => {
                key = None;
            },
            Token::Unsupported => {
                let mut e = String::from_str("Unsupported shortcut token: ");
                e.append(t);
                e.append(".");
                proof {
                    lemma_gather_stops(ts, i as int);
                }
                return Err(e);
            },
        }
        i = i + 1;
    }
    assert(ts.take(n as int) =~= ts);
    match key {
        Some(k) => Ok(Shortcut { modifiers: mods, key: k }),
        None => Err(String::from_str("Shortcut needs a key, such as Alt+Space.")),
    }
}

/// Once the tokens up to position `i` are refused, so is every longer list.
proof fn lemma_gather_stops(ts: Seq<Seq<char>>, i: int)
    requires
        0 <= i < ts.len(),
        gather(ts.take(i + 1)) is Err,
    ensures
        gather(ts) == gather(ts.take(i + 1)),
    decreases ts.len() - i,
{
    if i + 1 < ts.len() {
        assert(ts.take(i + 2).drop_last() =~= ts.take(i + 1));
        lemma_gather_stops(ts, i + 1);
    } else {
        assert(ts.take(i + 1) =~= ts);
    }
}

/// Parses a hotkey setting such as `Alt+Space`: it is split on `+`, each
/// piece is trimmed and lowercased, and the pieces are read as
/// [`parse_shortcut_tokens`] reads them.
pub fn parse_shortcut(hotkey: &str) -> (r: Result<Shortcut, String>)
    ensures
        match r {
            Ok(s) => shortcut_of(hotkey@) == Ok::<Shortcut, Seq<char>>(s),
            Err(e) => shortcut_of(hotkey@) == Err::<Shortcut, Seq<char>>(e@),
        },
        all_ascii(hotkey@) ==> match r {
            Ok(s) => shortcut_of_tokens(ascii_hotkey_tokens(hotkey@)) == Ok::<Shortcut, Seq<char>>(s),
            Err(e) => shortcut_of_tokens(ascii_hotkey_tokens(hotkey@)) == Err::<Shortcut, Seq<char>>(e@),
        },
{
    let pieces = split_on_char(hotkey, '+');
    proof {
        if all_ascii(hotkey@) {
            lemma_split_on_ascii(hotkey@, '+');
        }
    }
    let mut tokens: Vec<String> = Vec::new();
    let n = pieces.len();
    let mut i: usize = 0;
    while i < n
        invariant
            n == pieces@.len(),
            views(pieces@) == split_on(hotkey@, '+'),
            0 <= i <= n,
            tokens@.len() == i,
            forall|k: int| 0 <= k < i ==> #[trigger] tokens@[k]@ == lowercase_of(trimmed(pieces@[k]@)),
            all_ascii(hotkey@) ==> forall|k: int| 0 <= k < n ==> all_ascii(#[trigger] split_on(hotkey@, '+')[k]),
            all_ascii(hotkey@) ==> forall|k: int| 0 <= k < i ==> #[trigger] tokens@[k]@ == ascii_lowercase(trimmed(pieces@[k]@)),
        decreases n - i,
    {
        proof {
            if all_ascii(hotkey@) {
                assert(pieces@[i as int]@ == split_on(hotkey@, '+')[i as int]);
                lemma_trimmed_ascii(pieces@[i as int]@);
            }
        }
        let token = lowercase(trim(pieces[i].as_str()));
        tokens.push(token);
        i = i + 1;
    }
    assert(views(tokens@) =~= hotkey_tokens(hotkey@));
    proof {
        if all_ascii(hotkey@) {
            assert(views(tokens@) =~= ascii_hotkey_tokens(hotkey@));
        }
    }
    parse_shortcut_tokens(&tokens)
}

/// Every gathered modifier was named by some token, and every named modifier
/// was gathered.
proof fn lemma_gather_modifiers(ts: Seq<Seq<char>>, m: ModifierKey)
    ensures
        gather(ts) matches Ok(p) ==> (p.modifiers.holds(m) <==> exists|i: int|
            0 <= i < ts.len() && #[trigger] token_meaning(ts[i]) == Token::Modifier(m)),
    decreases ts.len(),
{
    if ts.len() > 0 {
        let prev = ts.drop_last();
        lemma_gather_modifiers(prev, m);
        if let Ok(p) = gather(ts) {
            let last = ts.len() - 1;
            assert(forall|i: int| 0 <= i < prev.len() ==> prev[i] == ts[i]);
            if p.modifiers.holds(m) {
                if token_meaning(ts[last]) != Token::Modifier(m) {
                    let i = choose|i: int|
                        0 <= i < prev.len() && #[trigger] token_meaning(prev[i]) == Token::Modifier(m);
                    assert(token_meaning(ts[i]) == Token::Modifier(m));
                }
            } else {
                assert forall|i: int| 0 <= i < ts.len() implies #[trigger] token_meaning(ts[i])
                    != Token::Modifier(m) by {
                    if i < last {
                        assert(prev[i] == ts[i]);
                    }
                }
            }
        }
    }
}

/// A gathered key comes from the last token that set or cleared the key.
proof fn lemma_gather_key_set(ts: Seq<Seq<char>>)
    ensures
        gather(ts) matches Ok(p) ==> (p.key matches Some(k) ==> exists|i: int|
            0 <= i < ts.len() && #[trigger] token_meaning(ts[i]) == Token::Key(k) && forall|j: int|
                i < j < ts.len() ==> #[trigger] token_meaning(ts[j]) is Modifier),
    decreases ts.len(),
{
    if ts.len() > 0 {
        let prev = ts.drop_last();
        let last = ts.len() - 1;
        lemma_gather_key_set(prev);
        if let Ok(p) = gather(ts) {
            if let Some(k) = p.key {
                if token_meaning(ts[last]) != Token::Key(k) {
                    assert(token_meaning(ts[last]) is Modifier);
                    let i = choose|i: int|
                        0 <= i < prev.len() && #[trigger] token_meaning(prev[i]) == Token::Key(k)
                            && forall|j: int|
                            i < j < prev.len() ==> #[trigger] token_meaning(prev[j]) is Modifier;
                    assert(prev[i] == ts[i]);
                    assert forall|j: int| i < j < ts.len() implies #[trigger] token_meaning(ts[j])
                        is Modifier by {
                        if j < last {
                            assert(prev[j] == ts[j]);
                        }
                    }
                }
            }
        }
    }
}

/// When no key is gathered, every key-setting token is followed by a token
/// that clears the key.
proof fn lemma_gather_key_cleared(ts: Seq<Seq<char>>)
    ensures
        gather(ts) matches Ok(p) ==> (p.key is None ==> forall|i: int|
            0 <= i < ts.len() && #[trigger] token_meaning(ts[i]) is Key ==> exists|j: int|
                i < j < ts.len() && #[trigger] token_meaning(ts[j]) is NoKey),
    decreases ts.len(),
{
    if ts.len() > 0 {
        let prev = ts.drop_last();
        let last = ts.len() - 1;
        lemma_gather_key_cleared(prev);
        if let Ok(p) = gather(ts) {
            if p.key is None {
                assert forall|i: int|
                    0 <= i < ts.len() && #[trigger] token_meaning(ts[i]) is Key implies exists|j: int|
                    i < j < ts.len() && #[trigger] token_meaning(ts[j]) is NoKey by {
                    if token_meaning(ts[last]) is NoKey {
                        assert(token_meaning(ts[last]) is NoKey);
                    } else {
                        assert(token_meaning(ts[last]) is Modifier);
                        assert(i < last);
                        assert(prev[i] == ts[i]);
                        let j = choose|j: int|
                            i < j < prev.len() && #[trigger] token_meaning(prev[j]) is NoKey;
                        assert(prev[j] == ts[j]);
                    }
                }
            }
        }
    }
}

/// The tokens are accepted exactly when none is unsupported; otherwise the
/// first unsupported one is named in the error.
proof fn lemma_gather_refusal(ts: Seq<Seq<char>>)
    ensures
        gather(ts) is Ok <==> forall|i: int| 0 <= i < ts.len() ==> !(#[trigger] token_meaning(ts[i]) is Unsupported),
        forall|i: int|
            0 <= i < ts.len() && #[trigger] token_meaning(ts[i]) is Unsupported && (forall|j: int|
                0 <= j < i ==> !(#[trigger] token_meaning(ts[j]) is Unsupported)) ==> gather(ts)
                == Err::<Progress, Seq<char>>(unsupported_message(ts[i])),
    decreases ts.len(),
{
    if ts.len() > 0 {
        let prev = ts.drop_last();
        let last = ts.len() - 1;
        lemma_gather_refusal(prev);
        assert(forall|i: int| 0 <= i < prev.len() ==> prev[i] == ts[i]);
        if gather(prev) is Ok {
            assert(forall|i: int| 0 <= i < prev.len() ==> !(#[trigger] token_meaning(prev[i]) is Unsupported));
        } else {
            let i = choose|i: int| 0 <= i < prev.len() && #[trigger] token_meaning(prev[i]) is Unsupported;
            assert(token_meaning(ts[i]) is Unsupported);
        }
        assert forall|i: int|
            0 <= i < ts.len() && #[trigger] token_meaning(ts[i]) is Unsupported && (forall|j: int|
                0 <= j < i ==> !(#[trigger] token_meaning(ts[j]) is Unsupported)) implies gather(ts)
            == Err::<Progress, Seq<char>>(unsupported_message(ts[i])) by {
            if i < last {
                assert(prev[i] == ts[i]);
                assert forall|j: int| 0 <= j < i implies !(#[trigger] token_meaning(prev[j]) is Unsupported) by {
                    assert(prev[j] == ts[j]);
                }
            } else {
                assert forall|j: int| 0 <= j < prev.len() implies !(#[trigger] token_meaning(prev[j]) is Unsupported) by {
                    assert(prev[j] == ts[j]);
                }
            }
        }
    }
}

/// A parsed shortcut holds a modifier exactly when some token names it.
pub proof fn law_modifiers_are_those_named(tokens: Seq<Seq<char>>, m: ModifierKey)
    ensures
        shortcut_of_tokens(tokens) matches Ok(s) ==> (s.modifiers.holds(m) <==> exists|i: int|
            0 <= i < tokens.len() && #[trigger] token_meaning(tokens[i]) == Token::Modifier(m)),
{
    lemma_gather_modifiers(tokens, m);
}

/// The key of a parsed shortcut is the one named by the last token that
/// names a key: only modifier names follow it.
pub proof fn law_last_key_wins(tokens: Seq<Seq<char>>)
    ensures
        shortcut_of_tokens(tokens) matches Ok(s) ==> exists|i: int|
            0 <= i < tokens.len() && #[trigger] token_meaning(tokens[i]) == Token::Key(s.key) && forall|j: int|
                i < j < tokens.len() ==> #[trigger] token_meaning(tokens[j]) is Modifier,
{
    lemma_gather_key_set(tokens);
}

/// A hotkey in which no token names a key is refused.
pub proof fn law_key_is_required(tokens: Seq<Seq<char>>)
    requires
        forall|i: int| 0 <= i < tokens.len() ==> !(#[trigger] token_meaning(tokens[i]) is Key),
    ensures
        shortcut_of_tokens(tokens) is Err,
{
    lemma_gather_key_set(tokens);
}

/// A hotkey is refused, naming the first token that is neither a modifier
/// nor a key, as soon as it holds such a token.
pub proof fn law_first_unsupported_token_is_reported(tokens: Seq<Seq<char>>, i: int)
    requires
        0 <= i < tokens.len(),
        token_meaning(tokens[i]) is Unsupported,
        forall|j: int| 0 <= j < i ==> !(#[trigger] token_meaning(tokens[j]) is Unsupported),
    ensures
        shortcut_of_tokens(tokens) == Err::<Shortcut, Seq<char>>(unsupported_message(tokens[i])),
{
    lemma_gather_refusal(tokens);
}

/// A hotkey whose tokens are all modifiers or keys, with at least one key
/// after the last cleared key, is accepted.
pub proof fn law_well_formed_hotkey_is_accepted(tokens: Seq<Seq<char>>, i: int)
    requires
        0 <= i < tokens.len(),
        token_meaning(tokens[i]) is Key,
        forall|j: int| 0 <= j < tokens.len() ==> !(#[trigger] token_meaning(tokens[j]) is Unsupported),
        forall|j: int| i < j < tokens.len() ==> !(#[trigger] token_meaning(tokens[j]) is NoKey),
    ensures
        shortcut_of_tokens(tokens) is Ok,
{
    lemma_gather_refusal(tokens);
    lemma_gather_key_cleared(tokens);
}

/// Tokens that agree from position `k` on, after prefixes gathered alike,
/// are gathered alike.
proof fn lemma_gather_same_suffix(ts: Seq<Seq<char>>, us: Seq<Seq<char>>, k: int)
    requires
        0 <= k <= ts.len(),
        ts.len() == us.len(),
        gather(ts.take(k)) == gather(us.take(k)),
        forall|j: int| k <= j < ts.len() ==> ts[j] == us[j],
    ensures
        gather(ts) == gather(us),
    decreases ts.len() - k,
{
    if k == ts.len() {
        assert(ts.take(k) =~= ts);
        assert(us.take(k) =~= us);
    } else {
        assert(ts.take(k + 1).drop_last() =~= ts.take(k));
        assert(us.take(k + 1).drop_last() =~= us.take(k));
        assert(ts.take(k + 1).last() == us.take(k + 1).last());
        lemma_gather_same_suffix(ts, us, k + 1);
    }
}

/// The order in which two adjacent modifiers are named does not matter.
pub proof fn law_modifier_order_is_free(tokens: Seq<Seq<char>>, i: int)
    requires
        0 <= i,
        i + 1 < tokens.len(),
        token_meaning(tokens[i]) is Modifier,
        token_meaning(tokens[i + 1]) is Modifier,
    ensures
        shortcut_of_tokens(tokens) == shortcut_of_tokens(tokens.update(i, tokens[i + 1]).update(i + 1, tokens[i])),
{
    let us = tokens.update(i, tokens[i + 1]).update(i + 1, tokens[i]);
    let k = i + 2;
    assert(tokens.take(k).drop_last().drop_last() =~= tokens.take(i));
    assert(us.take(k).drop_last().drop_last() =~= tokens.take(i));
    assert(tokens.take(k).drop_last() =~= tokens.take(i + 1));
    assert(us.take(k).drop_last() =~= us.take(i + 1));
    assert(us.take(i + 1).drop_last() =~= tokens.take(i));
    assert(tokens.take(i + 1).drop_last() =~= tokens.take(i));
    assert(tokens.take(k).last() == tokens[i + 1]);
    assert(tokens.take(i + 1).last() == tokens[i]);
    assert(us.take(k).last() == tokens[i]);
    assert(us.take(i + 1).last() == tokens[i + 1]);
    let m1 = token_meaning(tokens[i])->Modifier_0;
    let m2 = token_meaning(tokens[i + 1])->Modifier_0;
    assert(us[i] == tokens[i + 1]);
    assert(us[i + 1] == tokens[i]);
    match gather(tokens.take(i)) {
        Err(e) => {
            assert(gather(tokens.take(i + 1)) == Err::<Progress, Seq<char>>(e));
            assert(gather(us.take(i + 1)) == Err::<Progress, Seq<char>>(e));
        },
        Ok(p) => {
            let a = Progress { modifiers: p.modifiers.with(m1), key: p.key };
            let b = Progress { modifiers: p.modifiers.with(m2), key: p.key };
            assert(gather(tokens.take(i + 1)) == step(p, tokens[i]));
            assert(step(p, tokens[i]) == Ok::<Progress, Seq<char>>(a));
            assert(gather(us.take(i + 1)) == step(p, tokens[i + 1]));
            assert(step(p, tokens[i + 1]) == Ok::<Progress, Seq<char>>(b));
            assert(gather(tokens.take(k)) == step(a, tokens[i + 1]));
            assert(gather(us.take(k)) == step(b, tokens[i]));
            assert(p.modifiers.with(m1).with(m2) == p.modifiers.with(m2).with(m1));
        },
    }
    assert(gather(tokens.take(k)) == gather(us.take(k)));
    lemma_gather_same_suffix(tokens, us, k);
}

/// The ASCII tokens of a hotkey are those of its lowercase form.
proof fn lemma_ascii_tokens_of_lowercase(hotkey: Seq<char>)
    ensures
        ascii_hotkey_tokens(ascii_lowercase(hotkey)) == ascii_hotkey_tokens(hotkey),
{
    let f = |c: char| ascii_lower_char(c);
    assert forall|c: char| (#[trigger] f(c) == '+') == (c == '+') by {
        lemma_ascii_lower_char_keeps(c);
    }
    assert forall|c: char| crate::text::is_white_space(#[trigger] f(c)) == crate::text::is_white_space(c) by {
        lemma_ascii_lower_char_keeps(c);
    }
    lemma_split_on_map(hotkey, '+', f);
    let pieces = split_on(hotkey, '+');
    let lowered = split_on(ascii_lowercase(hotkey), '+');
    assert(ascii_lowercase(hotkey) == hotkey.map_values(f));
    assert(lowered == pieces.map_values(|p: Seq<char>| p.map_values(f)));
    assert forall|k: int| 0 <= k < pieces.len() implies #[trigger] ascii_hotkey_tokens(ascii_lowercase(hotkey))[k]
        == ascii_hotkey_tokens(hotkey)[k] by {
        let p = pieces[k];
        assert(lowered[k] == p.map_values(f));
        lemma_trimmed_map(p, f);
        assert(trimmed(p.map_values(f)) == ascii_lowercase(trimmed(p)));
        lemma_ascii_lowercase_idempotent(trimmed(p));
    }
    assert(ascii_hotkey_tokens(ascii_lowercase(hotkey)) =~= ascii_hotkey_tokens(hotkey));
}

/// Case does not matter in a hotkey written in ASCII: two settings that agree
/// once lowercased describe the same shortcut (or are refused alike).
pub proof fn law_ascii_case_is_ignored(first: Seq<char>, second: Seq<char>)
    requires
        ascii_lowercase(first) == ascii_lowercase(second),
    ensures
        shortcut_of_tokens(ascii_hotkey_tokens(first)) == shortcut_of_tokens(ascii_hotkey_tokens(second)),
{
    lemma_ascii_tokens_of_lowercase(first);
    lemma_ascii_tokens_of_lowercase(second);
}

/// White space around the pieces of a hotkey does not matter: a setting
/// whose pieces are those of another, each with white space added before and
/// after it, describes the same shortcut (or is refused alike).
pub proof fn law_white_space_around_pieces_is_ignored(
    first: Seq<char>,
    second: Seq<char>,
    pads: Seq<(Seq<char>, Seq<char>)>,
)
    requires
        split_on(second, '+').len() == split_on(first, '+').len(),
        pads.len() == split_on(first, '+').len(),
        forall|k: int|
            0 <= k < pads.len() ==> all_white_space(#[trigger] pads[k].0) && all_white_space(pads[k].1)
                && split_on(second, '+')[k] == pads[k].0 + split_on(first, '+')[k] + pads[k].1,
    ensures
        shortcut_of(second) == shortcut_of(first),
{
    assert forall|k: int| 0 <= k < pads.len() implies #[trigger] hotkey_tokens(second)[k] == hotkey_tokens(first)[k] by {
        lemma_trimmed_padded(pads[k].0, split_on(first, '+')[k], pads[k].1);
    }
    assert(hotkey_tokens(second) =~= hotkey_tokens(first));
}

/// Whether every token but the one at `odd` (if any) names a modifier.
pub open spec fn modifiers_except(tokens: Seq<Seq<char>>, odd: Option<int>) -> bool {
    &&& odd matches Some(i) ==> 0 <= i < tokens.len()
    &&& forall|j: int|
        0 <= j < tokens.len() && odd != Some(j) ==> #[trigger] token_meaning(tokens[j]) is Modifier
}

/// Whether some token names the modifier `m`.
pub open spec fn names_modifier(tokens: Seq<Seq<char>>, m: ModifierKey) -> bool {
    exists|i: int| 0 <= i < tokens.len() && #[trigger] token_meaning(tokens[i]) == Token::Modifier(m)
}

/// Tokens that are all modifiers but one are refused exactly when that one
/// is unsupported, with its error.
proof fn lemma_single_odd_refusal(ts: Seq<Seq<char>>, odd: Option<int>)
    requires
        modifiers_except(ts, odd),
    ensures
        match odd {
            Some(i) => if token_meaning(ts[i]) is Unsupported {
                gather(ts) == Err::<Progress, Seq<char>>(unsupported_message(ts[i]))
            } else {
                gather(ts) is Ok
            },
            None => gather(ts) is Ok,
        },
{
    lemma_gather_refusal(ts);
    if let Some(i) = odd {
        if token_meaning(ts[i]) is Unsupported {
            assert(forall|j: int| 0 <= j < i ==> !(#[trigger] token_meaning(ts[j]) is Unsupported));
        } else {
            assert(forall|j: int| 0 <= j < ts.len() ==> !(#[trigger] token_meaning(ts[j]) is Unsupported));
        }
    } else {
        assert(forall|j: int| 0 <= j < ts.len() ==> !(#[trigger] token_meaning(ts[j]) is Unsupported));
    }
}

/// Tokens that are all modifiers but one gather the key of that one, if it
/// names a key.
proof fn lemma_single_odd_key(ts: Seq<Seq<char>>, odd: Option<int>)
    requires
        modifiers_except(ts, odd),
        gather(ts) is Ok,
    ensures
        gather(ts)->Ok_0.key == (match odd {
            Some(i) => match token_meaning(ts[i]) {
                Token::Key(k) => Some(k),
                _ => None,
            },
            None => None,
        }),
{
    let p = gather(ts)->Ok_0;
    if let Some(k2) = p.key {
        lemma_gather_key_set(ts);
        let j = choose|j: int|
            0 <= j < ts.len() && #[trigger] token_meaning(ts[j]) == Token::Key(k2) && forall|q: int|
                j < q < ts.len() ==> #[trigger] token_meaning(ts[q]) is Modifier;
        assert(odd == Some(j));
    } else {
        if let Some(i) = odd {
            if token_meaning(ts[i]) is Key {
                lemma_gather_key_cleared(ts);
                let j = choose|j: int| i < j < ts.len() && #[trigger] token_meaning(ts[j]) is NoKey;
                assert(token_meaning(ts[j]) is Modifier);
            }
        }
    }
}

/// Where every token but at most one names a modifier, only the set of
/// modifiers named and that one token matter: modifiers may come in any
/// order, be repeated, and stand before or after the key.
pub proof fn law_modifiers_form_a_set(ts: Seq<Seq<char>>, ts_odd: Option<int>, us: Seq<Seq<char>>, us_odd: Option<int>)
    requires
        modifiers_except(ts, ts_odd),
        modifiers_except(us, us_odd),
        ts_odd is Some <==> us_odd is Some,
        ts_odd matches Some(i) ==> us[us_odd->0] == ts[i],
        forall|m: ModifierKey| names_modifier(ts, m) == names_modifier(us, m),
    ensures
        shortcut_of_tokens(ts) == shortcut_of_tokens(us),
{
    lemma_single_odd_refusal(ts, ts_odd);
    lemma_single_odd_refusal(us, us_odd);
    if let (Ok(p), Ok(q)) = (gather(ts), gather(us)) {
        lemma_single_odd_key(ts, ts_odd);
        lemma_single_odd_key(us, us_odd);
        assert forall|m: ModifierKey| p.modifiers.holds(m) == q.modifiers.holds(m) by {
            lemma_gather_modifiers(ts, m);
            lemma_gather_modifiers(us, m);
            assert(names_modifier(ts, m) == names_modifier(us, m));
        }
        assert(p.modifiers.holds(ModifierKey::Control) == q.modifiers.holds(ModifierKey::Control));
        assert(p.modifiers.holds(ModifierKey::Alt) == q.modifiers.holds(ModifierKey::Alt));
        assert(p.modifiers.holds(ModifierKey::Shift) == q.modifiers.holds(ModifierKey::Shift));
        assert(p.modifiers.holds(ModifierKey::Super) == q.modifiers.holds(ModifierKey::Super));
        assert(p.modifiers == q.modifiers);
    }
}

/// The normalised tokens of a list of hotkey pieces.
pub open spec fn normalised(pieces: Seq<Seq<char>>) -> Seq<Seq<char>> {
    pieces.map_values(|p: Seq<char>| lowercase_of(trimmed(p)))
}

/// How a hotkey is spelt does not matter: a second setting whose pieces are
/// those of the first with the case of ASCII letters changed and white space
/// added around them (next to a `+` or at either end) describes the same
/// shortcut, or is refused with the same error. (For an ASCII setting,
/// [`parse_shortcut`] returns `shortcut_of_tokens(ascii_hotkey_tokens(..))`.)
pub proof fn law_hotkey_spelling_is_ignored(
    first: Seq<char>,
    second: Seq<char>,
    cased: Seq<Seq<char>>,
    pads: Seq<(Seq<char>, Seq<char>)>,
)
    requires
        split_on(second, '+').len() == split_on(first, '+').len(),
        cased.len() == split_on(first, '+').len(),
        pads.len() == split_on(first, '+').len(),
        forall|k: int|
            0 <= k < pads.len() ==> {
                &&& all_white_space(#[trigger] pads[k].0)
                &&& all_white_space(pads[k].1)
                &&& ascii_lowercase(cased[k]) == ascii_lowercase(split_on(first, '+')[k])
                &&& split_on(second, '+')[k] == pads[k].0 + cased[k] + pads[k].1
            },
    ensures
        shortcut_of_tokens(ascii_hotkey_tokens(second)) == shortcut_of_tokens(ascii_hotkey_tokens(first)),
{
    let f = |c: char| ascii_lower_char(c);
    assert forall|c: char| crate::text::is_white_space(#[trigger] f(c)) == crate::text::is_white_space(c) by {
        lemma_ascii_lower_char_keeps(c);
    }
    assert forall|k: int| 0 <= k < pads.len() implies #[trigger] ascii_hotkey_tokens(second)[k]
        == ascii_hotkey_tokens(first)[k] by {
        let p = split_on(first, '+')[k];
        let c = cased[k];
        lemma_trimmed_padded(pads[k].0, c, pads[k].1);
        lemma_trimmed_map(c, f);
        lemma_trimmed_map(p, f);
        assert(ascii_lowercase(c) == c.map_values(f));
        assert(ascii_lowercase(p) == p.map_values(f));
        assert(ascii_lowercase(trimmed(c)) == trimmed(ascii_lowercase(c)));
        assert(ascii_lowercase(trimmed(p)) == trimmed(ascii_lowercase(p)));
    }
    assert(ascii_hotkey_tokens(second) =~= ascii_hotkey_tokens(first));
}

/// Two hotkeys written as `+`-joined tokens, in each of which every token but
/// at most one names a modifier once normalised, describe the same shortcut
/// (or are refused alike) when they name the same modifiers and the same
/// remaining token: modifiers may be reordered or repeated, and the key may
/// stand anywhere among them.
pub proof fn law_joined_modifiers_form_a_set(
    first: Seq<Seq<char>>,
    first_odd: Option<int>,
    second: Seq<Seq<char>>,
    second_odd: Option<int>,
)
    requires
        first.len() >= 1,
        second.len() >= 1,
        forall|k: int| 0 <= k < first.len() ==> !has_char(#[trigger] first[k], '+'),
        forall|k: int| 0 <= k < second.len() ==> !has_char(#[trigger] second[k], '+'),
        modifiers_except(normalised(first), first_odd),
        modifiers_except(normalised(second), second_odd),
        first_odd is Some <==> second_odd is Some,
        first_odd matches Some(i) ==> normalised(second)[second_odd->0] == normalised(first)[i],
        forall|m: ModifierKey| names_modifier(normalised(first), m) == names_modifier(normalised(second), m),
    ensures
        shortcut_of(join_with(first, '+')) == shortcut_of(join_with(second, '+')),
{
    lemma_split_join(first, '+');
    lemma_split_join(second, '+');
    assert(hotkey_tokens(join_with(first, '+')) =~= normalised(first));
    assert(hotkey_tokens(join_with(second, '+')) =~= normalised(second));
    law_modifiers_form_a_set(normalised(first), first_odd, normalised(second), second_odd);
}

/// The names a hotkey token may have besides a single character: the
/// modifier names and the named keys.
pub open spec fn is_token_name(t: Seq<char>) -> bool {
    ||| t == "ctrl"@ || t == "control"@ || t == "alt"@ || t == "shift"@
    ||| t == "cmd"@ || t == "win"@ || t == "super"@
    ||| t == "space"@ || t == "enter"@ || t == "tab"@
    ||| t == "f1"@ || t == "f2"@ || t == "f3"@ || t == "f4"@ || t == "f5"@ || t == "f6"@
    ||| t == "f7"@ || t == "f8"@ || t == "f9"@ || t == "f10"@ || t == "f11"@ || t == "f12"@
}

/// Only a named key or a single character sets or clears the key, only a
/// modifier name adds a modifier, and a token of any other length that is no
/// name is unsupported: a hotkey holding one is refused with
/// `Unsupported shortcut token: <token>.`
pub proof fn law_only_names_and_single_characters_are_read(tokens: Seq<Seq<char>>, i: int)
    requires
        0 <= i < tokens.len(),
    ensures
        (token_meaning(tokens[i]) is Key || token_meaning(tokens[i]) is NoKey) ==> ((tokens[i].len() == 1
            && (tokens[i][0] as u32) < 0x80) || is_token_name(tokens[i])),
        token_meaning(tokens[i]) is Modifier ==> is_token_name(tokens[i]) && tokens[i].len() > 1,
        tokens[i].len() != 1 && !is_token_name(tokens[i]) ==> token_meaning(tokens[i]) is Unsupported,
        tokens[i].len() != 1 && !is_token_name(tokens[i]) && (forall|j: int|
            0 <= j < i ==> (tokens[j].len() == 1 && (tokens[j][0] as u32) < 0x80) || #[trigger] is_token_name(
                tokens[j],
            )) ==> shortcut_of_tokens(tokens)
            == Err::<Shortcut, Seq<char>>("Unsupported shortcut token: "@ + tokens[i] + "."@),
{
    reveal(token_meaning);
    reveal_strlit("ctrl");
    reveal_strlit("control");
    reveal_strlit("alt");
    reveal_strlit("shift");
    reveal_strlit("cmd");
    reveal_strlit("win");
    reveal_strlit("super");
    if tokens[i].len() != 1 && !is_token_name(tokens[i]) && (forall|j: int|
        0 <= j < i ==> (tokens[j].len() == 1 && (tokens[j][0] as u32) < 0x80) || #[trigger] is_token_name(tokens[j])) {
        assert forall|j: int| 0 <= j < i implies !(#[trigger] token_meaning(tokens[j]) is Unsupported) by {
            assert((tokens[j].len() == 1 && (tokens[j][0] as u32) < 0x80) || is_token_name(tokens[j]));
        }
        law_first_unsupported_token_is_reported(tokens, i);
    }
}

} // verus!
