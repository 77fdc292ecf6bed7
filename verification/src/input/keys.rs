//! Key parsing for input events.
//!
//! Parses raw bytes into structured key events with modifiers.

use vstd::prelude::*;
use crate::text::{char_string, owned};

verus! {

/// A parsed key event with optional modifiers.
#[derive(Debug, Clone, PartialEq, Eq)]
pub struct ParsedKey {
    /// The key that was pressed, if recognized.
    pub key: Option<String>,
    /// Modifiers active during the key press (e.g., "ctrl", "alt").
    pub modifiers: Vec<String>,
}

/// The mathematical content of a [`ParsedKey`].
pub struct ParsedKeyView {
    pub key: Option<Seq<char>>,
    pub modifiers: Seq<Seq<char>>,
}

pub open spec fn opt_string_view(o: Option<String>) -> Option<Seq<char>> {
    match o {
        Some(s) => Some(s@),
        None => None,
    }
}

pub open spec fn strings_view(v: Seq<String>) -> Seq<Seq<char>> {
    v.map_values(|s: String| s@)
}

impl View for ParsedKey {
    type V = ParsedKeyView;

    open spec fn view(&self) -> ParsedKeyView {
        ParsedKeyView { key: opt_string_view(self.key), modifiers: strings_view(self.modifiers@) }
    }
}

impl ParsedKey {
    /// Creates a new ParsedKey with the given key and no modifiers.
    pub fn new(key: Option<String>) -> (r: Self)
        ensures
            r.key == key,
            r.modifiers@ == Seq::<String>::empty(),
    {
        Self { key, modifiers: Vec::new() }
    }

    /// Creates a new ParsedKey with the given key and modifiers.
    pub fn with_modifiers(key: Option<String>, modifiers: Vec<String>) -> (r: Self)
        ensures
            r.key == key,
            r.modifiers == modifiers,
    {
        Self { key, modifiers }
    }
}

/// The byte that Ctrl+\ produces.
pub const CTRL_BACKSLASH: u8 = 0x1c;

/// Checks if the given data represents Ctrl+\ (the escape hatch), byte 0x1c.
pub fn is_ctrl_backslash(data: &[u8]) -> (r: bool)
    ensures
        r == (data@ == seq![CTRL_BACKSLASH]),
{
    if data.len() == 1 && data[0] == CTRL_BACKSLASH {
        assert(data@ =~= seq![CTRL_BACKSLASH]);
        true
    } else {
        false
    }
}

/// The key name of an `ESC [ x` sequence.
pub open spec fn csi_key_name(x: u8) -> Option<Seq<char>> {
    if x == 0x41 {
        Some("ArrowUp"@)
    } else if x == 0x42 {
        Some("ArrowDown"@)
    } else if x == 0x43 {
        Some("ArrowRight"@)
    } else if x == 0x44 {
        Some("ArrowLeft"@)
    } else if x == 0x48 {
        Some("Home"@)
    } else if x == 0x46 {
        Some("End"@)
    } else {
        None
    }
}

/// The key and modifiers of a single byte.
pub open spec fn single_byte_key(b: u8) -> (Option<Seq<char>>, Seq<Seq<char>>) {
    if b == 0x09 {
        (Some("Tab"@), seq![])
    } else if b == 0x0d {
        (Some("Enter"@), seq![])
    } else if b == 0x1b {
        (Some("Escape"@), seq![])
    } else if 0x01 <= b <= 0x1a {
        (Some(seq![(b - 1 + 0x61) as char]), seq!["ctrl"@])
    } else if b == 0x1c {
        (Some("\\"@), seq!["ctrl"@])
    } else if b == 0x1d {
        (Some("]"@), seq!["ctrl"@])
    } else if b == 0x1e {
        (Some("^"@), seq!["ctrl"@])
    } else if b == 0x1f {
        (Some("_"@), seq!["ctrl"@])
    } else if b == 0x7f {
        (Some("Backspace"@), seq![])
    } else if 0x20 <= b <= 0x7e {
        (Some(seq![b as char]), seq![])
    } else {
        (None, seq![])
    }
}

/// The key and modifiers that `parse_key` gives for `data`.
pub open spec fn key_of(data: Seq<u8>) -> (Option<Seq<char>>, Seq<Seq<char>>) {
    if data.len() == 0 {
        (None, seq![])
    } else if data.len() >= 3 && data[0] == 0x1b && data[1] == 0x5b {
        (csi_key_name(data[2]), seq![])
    } else if data.len() == 1 {
        single_byte_key(data[0])
    } else {
        (None, seq![])
    }
}

fn key_only(name: &str) -> (r: ParsedKey)
    ensures
        r@.key == Some(name@),
        r@.modifiers == Seq::<Seq<char>>::empty(),
{
    let r = ParsedKey::new(Some(owned(name)));
    assert(r@.modifiers =~= Seq::<Seq<char>>::empty());
    r
}

fn ctrl_key(name: String) -> (r: ParsedKey)
    ensures
        r@.key == Some(name@),
        r@.modifiers == seq!["ctrl"@],
{
    let mut mods: Vec<String> = Vec::new();
    mods.push(owned("ctrl"));
    let r = ParsedKey::with_modifiers(Some(name), mods);
    assert(r@.modifiers =~= seq!["ctrl"@]);
    r
}

/// Parses raw bytes into a structured key event.
///
/// Empty input and unrecognized input give no key; control characters
/// 0x01-0x1a give a letter with the "ctrl" modifier (except Tab 0x09 and
/// Enter 0x0d); 0x1c-0x1f give `\`, `]`, `^`, `_` with "ctrl"; a lone 0x1b is
/// Escape; 0x7f is Backspace; printable ASCII gives the character itself;
/// `ESC [ A/B/C/D/H/F` give the arrow keys, Home and End.
pub fn parse_key(data: &[u8]) -> (r: ParsedKey)
    ensures
        r@.key == key_of(data@).0,
        r@.modifiers == key_of(data@).1,
{
    if data.len() == 0 {
        let r = ParsedKey::new(None);
        assert(r@.modifiers =~= Seq::<Seq<char>>::empty());
        return r;
    }
    if data.len() >= 3 && data[0] == 0x1b && data[1] == 0x5b {
        let x = data[2];
        let r = if x == 0x41 {
            key_only("ArrowUp")
        } else if x == 0x42 {
            key_only("ArrowDown")
        } else if x == 0x43 {
            key_only("ArrowRight")
        } else if x == 0x44 {
            key_only("ArrowLeft")
        } else if x == 0x48 {
            key_only("Home")
        } else if x == 0x46 {
            key_only("End")
        } else {
            let r = ParsedKey::new(None);
            assert(r@.modifiers =~= Seq::<Seq<char>>::empty());
            r
        };
        return r;
    }
    if data.len() == 1 {
        let b = data[0];
        if b == 0x09 {
            key_only("Tab")
        } else if b == 0x0d {
            key_only("Enter")
        } else if b == 0x1b {
            key_only("Escape")
        } else if 0x01 <= b && b <= 0x1a {
            let c = (b - 1 + 0x61) as char;
            ctrl_key(char_string(c))
        } else if b == 0x1c {
            ctrl_key(owned("\\"))
        } else if b == 0x1d {
            ctrl_key(owned("]"))
        } else if b == 0x1e {
            ctrl_key(owned("^"))
        } else if b == 0x1f {
            ctrl_key(owned("_"))
        } else if b == 0x7f {
            key_only("Backspace")
        } else if 0x20 <= b && b <= 0x7e {
            key_only_char(b as char)
        } else {
            let r = ParsedKey::new(None);
            assert(r@.modifiers =~= Seq::<Seq<char>>::empty());
            r
        }
    } else {
        let r = ParsedKey::new(None);
        assert(r@.modifiers =~= Seq::<Seq<char>>::empty());
        r
    }
}

fn key_only_char(c: char) -> (r: ParsedKey)
    ensures
        r@.key == Some(seq![c]),
        r@.modifiers == Seq::<Seq<char>>::empty(),
{
    let r = ParsedKey::new(Some(char_string(c)));
    assert(r@.modifiers =~= Seq::<Seq<char>>::empty());
    r
}

/// The cursor keys: after `ESC [`, the bytes `A`, `B`, `C`, `D`, `H` and
/// `F` name ArrowUp, ArrowDown, ArrowRight, ArrowLeft, Home and End, with no
/// modifiers; two such sequences that give the same key end in the same
/// byte.
pub proof fn law_cursor_keys(data: Seq<u8>, other: Seq<u8>)
    requires
        data.len() >= 3 && data[0] == 0x1b && data[1] == 0x5b,
    ensures
        data[2] == 0x41 ==> key_of(data).0 == Some("ArrowUp"@),
        data[2] == 0x42 ==> key_of(data).0 == Some("ArrowDown"@),
        data[2] == 0x43 ==> key_of(data).0 == Some("ArrowRight"@),
        data[2] == 0x44 ==> key_of(data).0 == Some("ArrowLeft"@),
        data[2] == 0x48 ==> key_of(data).0 == Some("Home"@),
        data[2] == 0x46 ==> key_of(data).0 == Some("End"@),
        key_of(data).1 == Seq::<Seq<char>>::empty(),
        other.len() >= 3 && other[0] == 0x1b && other[1] == 0x5b && key_of(data).0 is Some && key_of(data).0 == key_of(other).0
            ==> data[2] == other[2],
{
    reveal_strlit("ArrowUp");
    reveal_strlit("ArrowDown");
    reveal_strlit("ArrowRight");
    reveal_strlit("ArrowLeft");
    reveal_strlit("Home");
    reveal_strlit("End");
    assert("ArrowUp"@ != "ArrowDown"@ && "ArrowUp"@ != "ArrowRight"@ && "ArrowUp"@ != "ArrowLeft"@) by {
        assert("ArrowUp"@.len() == 7);
    }
    assert("ArrowDown"@ != "ArrowRight"@ && "ArrowDown"@ != "ArrowLeft"@) by {
        assert("ArrowDown"@[5] != "ArrowRight"@[5]);
        assert("ArrowDown"@[5] != "ArrowLeft"@[5]);
    }
    assert("ArrowRight"@ != "ArrowLeft"@) by {
        assert("ArrowRight"@.len() != "ArrowLeft"@.len());
    }
    assert("Home"@ != "End"@) by {
        assert("Home"@.len() != "End"@.len());
    }
    assert("ArrowRight"@.len() == 10 && "ArrowLeft"@.len() == 9 && "ArrowDown"@.len() == 9 && "Home"@.len() == 4
        && "End"@.len() == 3);
}

/// Single bytes: printable ASCII gives the character itself, a control
/// byte 0x01-0x1a other than Tab and Enter gives its letter with `ctrl`, and
/// two different bytes that give a key never give the same key and
/// modifiers.
pub proof fn law_single_bytes(b: u8, c: u8)
    ensures
        0x20 <= b <= 0x7e ==> key_of(seq![b]) == (Some(seq![b as char]), Seq::<Seq<char>>::empty()),
        0x01 <= b <= 0x1a && b != 0x09 && b != 0x0d ==> key_of(seq![b]) == (Some(seq![(b + 0x60) as char]), seq!["ctrl"@]),
        key_of(seq![b]).0 is Some && key_of(seq![b]) == key_of(seq![c]) ==> b == c,
{
    reveal_strlit("Tab");
    reveal_strlit("Enter");
    reveal_strlit("Escape");
    reveal_strlit("Backspace");
    reveal_strlit("\\");
    reveal_strlit("]");
    reveal_strlit("^");
    reveal_strlit("_");
    reveal_strlit("ctrl");
    assert(seq![b].len() == 1 && seq![b][0] == b);
    assert(seq![c].len() == 1 && seq![c][0] == c);
    assert("\\"@ =~= seq!['\\'] && "]"@ =~= seq![']'] && "^"@ =~= seq!['^'] && "_"@ =~= seq!['_']);
    assert("Tab"@.len() == 3 && "Enter"@.len() == 5 && "Escape"@.len() == 6 && "Backspace"@.len() == 9);
    assert("ctrl"@.len() == 4);
    let kb = key_of(seq![b]);
    let kc = key_of(seq![c]);
    if kb.0 is Some && kb == kc {
        let x = kb.0->0;
        let y = kc.0->0;
        assert(x == y);
        assert(kb.1 == kc.1);
        if x.len() == 1 {
            assert(x[0] == y[0]);
        }
        assert(seq!["ctrl"@].len() == 1);
        assert(Seq::<Seq<char>>::empty().len() == 0);
    }
}

} // verus!
