//! Keyboard and mouse, turned into the bytes a terminal app expects.
use vstd::prelude::*;

use crate::text::{decimal, push_decimal, str_eq};

verus! {

/// The keys whose presses turn into something other than their text.
#[derive(Clone, Copy, PartialEq, Eq, Debug)]
pub enum TermKey {
    ArrowUp,
    ArrowDown,
    ArrowRight,
    ArrowLeft,
    Home,
    End,
    PageUp,
    PageDown,
    Insert,
    Delete,
    Escape,
    Tab,
    Backspace,
    Enter,
    F1,
    F2,
    F3,
    F4,
    F5,
    F6,
    F7,
    F8,
    F9,
    F10,
    F11,
    F12,
    /// One of the letter keys, `'A'` to `'Z'`.
    Letter(char),
    /// Any other key.
    Other,
}

/// The escape sequence a key sends, xterm style; Tab with shift is back tab.
pub open spec fn special_bytes(key: TermKey, shift: bool) -> Option<Seq<u8>> {
    match key {
        TermKey::ArrowUp => Some(seq![0x1bu8, 0x5b, 0x41]),
        TermKey::ArrowDown => Some(seq![0x1bu8, 0x5b, 0x42]),
        TermKey::ArrowRight => Some(seq![0x1bu8, 0x5b, 0x43]),
        TermKey::ArrowLeft => Some(seq![0x1bu8, 0x5b, 0x44]),
        TermKey::Home => Some(seq![0x1bu8, 0x5b, 0x48]),
        TermKey::End => Some(seq![0x1bu8, 0x5b, 0x46]),
        TermKey::PageUp => Some(seq![0x1bu8, 0x5b, 0x35, 0x7e]),
        TermKey::PageDown => Some(seq![0x1bu8, 0x5b, 0x36, 0x7e]),
        TermKey::Insert => Some(seq![0x1bu8, 0x5b, 0x32, 0x7e]),
        TermKey::Delete => Some(seq![0x1bu8, 0x5b, 0x33, 0x7e]),
        TermKey::Escape => Some(seq![0x1bu8]),
        TermKey::Tab => if shift {
            Some(seq![0x1bu8, 0x5b, 0x5a])
        } else {
            Some(seq![0x09u8])
        },
        TermKey::Backspace => Some(seq![0x7fu8]),
        TermKey::Enter => Some(seq![0x0du8]),
        TermKey::F1 => Some(seq![0x1bu8, 0x4f, 0x50]),
        TermKey::F2 => Some(seq![0x1bu8, 0x4f, 0x51]),
        TermKey::F3 => Some(seq![0x1bu8, 0x4f, 0x52]),
        TermKey::F4 => Some(seq![0x1bu8, 0x4f, 0x53]),
        TermKey::F5 => Some(seq![0x1bu8, 0x5b, 0x31, 0x35, 0x7e]),
        TermKey::F6 => Some(seq![0x1bu8, 0x5b, 0x31, 0x37, 0x7e]),
        TermKey::F7 => Some(seq![0x1bu8, 0x5b, 0x31, 0x38, 0x7e]),
        TermKey::F8 => Some(seq![0x1bu8, 0x5b, 0x31, 0x39, 0x7e]),
        TermKey::F9 => Some(seq![0x1bu8, 0x5b, 0x32, 0x30, 0x7e]),
        TermKey::F10 => Some(seq![0x1bu8, 0x5b, 0x32, 0x31, 0x7e]),
        TermKey::F11 => Some(seq![0x1bu8, 0x5b, 0x32, 0x33, 0x7e]),
        TermKey::F12 => Some(seq![0x1bu8, 0x5b, 0x32, 0x34, 0x7e]),
        _ => None,
    }
}

/// What pressing `key` sends, if it sends something of its own.
pub fn special_key_bytes(key: TermKey, shift: bool) -> (out: Option<Vec<u8>>)
    ensures
        out matches Some(v) ==> special_bytes(key, shift) == Some(v@),
        out is None <==> special_bytes(key, shift) is None,
{
    let v = match key {
        TermKey::ArrowUp => vec![0x1bu8, 0x5b, 0x41],
        TermKey::ArrowDown => vec![0x1bu8, 0x5b, 0x42],
        TermKey::ArrowRight => vec![0x1bu8, 0x5b, 0x43],
        TermKey::ArrowLeft => vec![0x1bu8, 0x5b, 0x44],
        TermKey::Home => vec![0x1bu8, 0x5b, 0x48],
        TermKey::End => vec![0x1bu8, 0x5b, 0x46],
        TermKey::PageUp => vec![0x1bu8, 0x5b, 0x35, 0x7e],
        TermKey::PageDown => vec![0x1bu8, 0x5b, 0x36, 0x7e],
        TermKey::Insert => vec![0x1bu8, 0x5b, 0x32, 0x7e],
        TermKey::Delete => vec![0x1bu8, 0x5b, 0x33, 0x7e],
        TermKey::Escape => vec![0x1bu8],
        TermKey::Tab => if shift {
            vec![0x1bu8, 0x5b, 0x5a]
        } else {
            vec![0x09u8]
        },
        TermKey::Backspace => vec![0x7fu8],
        TermKey::Enter => vec![0x0du8],
        TermKey::F1 => vec![0x1bu8, 0x4f, 0x50],
        TermKey::F2 => vec![0x1bu8, 0x4f, 0x51],
        TermKey::F3 => vec![0x1bu8, 0x4f, 0x52],
        TermKey::F4 => vec![0x1bu8, 0x4f, 0x53],
        TermKey::F5 => vec![0x1bu8, 0x5b, 0x31, 0x35, 0x7e],
        TermKey::F6 => vec![0x1bu8, 0x5b, 0x31, 0x37, 0x7e],
        TermKey::F7 => vec![0x1bu8, 0x5b, 0x31, 0x38, 0x7e],
        TermKey::F8 => vec![0x1bu8, 0x5b, 0x31, 0x39, 0x7e],
        TermKey::F9 => vec![0x1bu8, 0x5b, 0x32, 0x30, 0x7e],
        TermKey::F10 => vec![0x1bu8, 0x5b, 0x32, 0x31, 0x7e],
        TermKey::F11 => vec![0x1bu8, 0x5b, 0x32, 0x33, 0x7e],
        TermKey::F12 => vec![0x1bu8, 0x5b, 0x32, 0x34, 0x7e],
        _ => return None,
    };
    assert(special_bytes(key, shift) == Some(v@));
    Some(v)
}

/// The key whose sequence `b` is, read back from its bytes.
spec fn key_sent(b: Seq<u8>) -> TermKey {
    if b.len() == 1 {
        if b[0] == 0x1b { TermKey::Escape }
        else if b[0] == 0x09 { TermKey::Tab }
        else if b[0] == 0x7f { TermKey::Backspace }
        else { TermKey::Enter }
    } else if b.len() == 3 && b[1] == 0x4f {
        if b[2] == 0x50 { TermKey::F1 }
        else if b[2] == 0x51 { TermKey::F2 }
        else if b[2] == 0x52 { TermKey::F3 }
        else { TermKey::F4 }
    } else if b.len() == 3 {
        if b[2] == 0x41 { TermKey::ArrowUp }
        else if b[2] == 0x42 { TermKey::ArrowDown }
        else if b[2] == 0x43 { TermKey::ArrowRight }
        else if b[2] == 0x44 { TermKey::ArrowLeft }
        else if b[2] == 0x48 { TermKey::Home }
        else if b[2] == 0x46 { TermKey::End }
        else { TermKey::Tab }
    } else if b.len() == 4 {
        if b[2] == 0x35 { TermKey::PageUp }
        else if b[2] == 0x36 { TermKey::PageDown }
        else if b[2] == 0x32 { TermKey::Insert }
        else { TermKey::Delete }
    } else if b[2] == 0x31 {
        if b[3] == 0x35 { TermKey::F5 }
        else if b[3] == 0x37 { TermKey::F6 }
        else if b[3] == 0x38 { TermKey::F7 }
        else { TermKey::F8 }
    } else {
        if b[3] == 0x30 { TermKey::F9 }
        else if b[3] == 0x31 { TermKey::F10 }
        else if b[3] == 0x33 { TermKey::F11 }
        else { TermKey::F12 }
    }
}

proof fn lemma_key_sent(k: TermKey, shift: bool)
    requires
        special_bytes(k, shift) is Some,
    ensures
        key_sent(special_bytes(k, shift)->0) == k,
{
}

/// The arrow keys send the xterm cursor sequences `ESC [ A`, `B`, `C`, `D`
/// for up, down, right and left, shift or not; Home and End `ESC [ H` and
/// `ESC [ F`; Enter a carriage return, Backspace DEL, Escape ESC, Tab a tab
/// and shift-Tab `ESC [ Z`; Page Up/Down, Insert and Delete `ESC [ 5 ~`,
/// `6 ~`, `2 ~`, `3 ~`; F1 to F4 `ESC O P` to `S`, F5 to F12 `ESC [ 15 ~` to
/// `24 ~` (skipping 16 and 22); letters and other keys nothing of their own;
/// and no two different keys
/// send the same bytes, so the app can always tell which key it was.
pub proof fn law_special_keys(k1: TermKey, s1: bool, k2: TermKey, s2: bool, c: char)
    ensures
        special_bytes(TermKey::ArrowUp, s1) == Some(seq![0x1bu8, 0x5bu8, 0x41u8]),
        special_bytes(TermKey::ArrowDown, s1) == Some(seq![0x1bu8, 0x5bu8, 0x42u8]),
        special_bytes(TermKey::ArrowRight, s1) == Some(seq![0x1bu8, 0x5bu8, 0x43u8]),
        special_bytes(TermKey::ArrowLeft, s1) == Some(seq![0x1bu8, 0x5bu8, 0x44u8]),
        special_bytes(TermKey::Home, s1) == Some(seq![0x1bu8, 0x5bu8, 0x48u8]),
        special_bytes(TermKey::End, s1) == Some(seq![0x1bu8, 0x5bu8, 0x46u8]),
        special_bytes(TermKey::Enter, s1) == Some(seq![0x0du8]),
        special_bytes(TermKey::Backspace, s1) == Some(seq![0x7fu8]),
        special_bytes(TermKey::Escape, s1) == Some(seq![0x1bu8]),
        special_bytes(TermKey::Tab, false) == Some(seq![0x09u8]),
        special_bytes(TermKey::Tab, true) == Some(seq![0x1bu8, 0x5bu8, 0x5au8]),
        special_bytes(TermKey::PageUp, s1) == Some(seq![0x1bu8, 0x5bu8, 0x35u8, 0x7eu8]),
        special_bytes(TermKey::PageDown, s1) == Some(seq![0x1bu8, 0x5bu8, 0x36u8, 0x7eu8]),
        special_bytes(TermKey::Insert, s1) == Some(seq![0x1bu8, 0x5bu8, 0x32u8, 0x7eu8]),
        special_bytes(TermKey::Delete, s1) == Some(seq![0x1bu8, 0x5bu8, 0x33u8, 0x7eu8]),
        special_bytes(TermKey::F1, s1) == Some(seq![0x1bu8, 0x4fu8, 0x50u8]),
        special_bytes(TermKey::F2, s1) == Some(seq![0x1bu8, 0x4fu8, 0x51u8]),
        special_bytes(TermKey::F3, s1) == Some(seq![0x1bu8, 0x4fu8, 0x52u8]),
        special_bytes(TermKey::F4, s1) == Some(seq![0x1bu8, 0x4fu8, 0x53u8]),
        special_bytes(TermKey::F5, s1) == Some(seq![0x1bu8, 0x5bu8, 0x31u8, 0x35u8, 0x7eu8]),
        special_bytes(TermKey::F6, s1) == Some(seq![0x1bu8, 0x5bu8, 0x31u8, 0x37u8, 0x7eu8]),
        special_bytes(TermKey::F7, s1) == Some(seq![0x1bu8, 0x5bu8, 0x31u8, 0x38u8, 0x7eu8]),
        special_bytes(TermKey::F8, s1) == Some(seq![0x1bu8, 0x5bu8, 0x31u8, 0x39u8, 0x7eu8]),
        special_bytes(TermKey::F9, s1) == Some(seq![0x1bu8, 0x5bu8, 0x32u8, 0x30u8, 0x7eu8]),
        special_bytes(TermKey::F10, s1) == Some(seq![0x1bu8, 0x5bu8, 0x32u8, 0x31u8, 0x7eu8]),
        special_bytes(TermKey::F11, s1) == Some(seq![0x1bu8, 0x5bu8, 0x32u8, 0x33u8, 0x7eu8]),
        special_bytes(TermKey::F12, s1) == Some(seq![0x1bu8, 0x5bu8, 0x32u8, 0x34u8, 0x7eu8]),
        special_bytes(TermKey::Other, s1) is None,
        special_bytes(TermKey::Letter(c), s1) is None,
        special_bytes(k1, s1) is Some && special_bytes(k1, s1) == special_bytes(k2, s2) ==> k1 == k2,
{
    if special_bytes(k1, s1) is Some && special_bytes(k1, s1) == special_bytes(k2, s2) {
        lemma_key_sent(k1, s1);
        lemma_key_sent(k2, s2);
    }
}

/// Ctrl plus a letter key: the control character 1 to 26.
pub open spec fn ctrl_key_spec(key: TermKey) -> Option<u8> {
    match key {
        TermKey::Letter(c) => if 'A' <= c <= 'Z' {
            Some((c as int - 'A' as int + 1) as u8)
        } else {
            None
        },
        _ => None,
    }
}

pub fn ctrl_key_byte(key: TermKey) -> (b: Option<u8>)
    ensures
        b == ctrl_key_spec(key),
{
    match key {
        TermKey::Letter(c) => if 'A' <= c && c <= 'Z' {
            Some((c as u32 - 'A' as u32 + 1) as u8)
        } else {
            None
        },
        _ => None,
    }
}

/// The key egui calls `name` (`Key::name`), as far as it matters here.
pub open spec fn key_of_name(name: Seq<char>) -> TermKey {
    if name == "Up"@ { TermKey::ArrowUp }
    else if name == "Down"@ { TermKey::ArrowDown }
    else if name == "Right"@ { TermKey::ArrowRight }
    else if name == "Left"@ { TermKey::ArrowLeft }
    else if name == "Home"@ { TermKey::Home }
    else if name == "End"@ { TermKey::End }
    else if name == "PageUp"@ { TermKey::PageUp }
    else if name == "PageDown"@ { TermKey::PageDown }
    else if name == "Insert"@ { TermKey::Insert }
    else if name == "Delete"@ { TermKey::Delete }
    else if name == "Escape"@ { TermKey::Escape }
    else if name == "Tab"@ { TermKey::Tab }
    else if name == "Backspace"@ { TermKey::Backspace }
    else if name == "Enter"@ { TermKey::Enter }
    else if name == "F1"@ { TermKey::F1 }
    else if name == "F2"@ { TermKey::F2 }
    else if name == "F3"@ { TermKey::F3 }
    else if name == "F4"@ { TermKey::F4 }
    else if name == "F5"@ { TermKey::F5 }
    else if name == "F6"@ { TermKey::F6 }
    else if name == "F7"@ { TermKey::F7 }
    else if name == "F8"@ { TermKey::F8 }
    else if name == "F9"@ { TermKey::F9 }
    else if name == "F10"@ { TermKey::F10 }
    else if name == "F11"@ { TermKey::F11 }
    else if name == "F12"@ { TermKey::F12 }
    else if name.len() == 1 && 'A' <= name[0] <= 'Z' { TermKey::Letter(name[0]) }
    else { TermKey::Other }
}

/// The key of an egui key name (what `Key::name` gives), for the app to hand
/// its key presses over in.
pub fn key_from_name(name: &str) -> (k: TermKey)
    ensures
        k == key_of_name(name@),
{
    let cs = crate::text::chars_of(name);
    if cs.len() == 1 && 'A' <= cs[0] && cs[0] <= 'Z' {
        let k = TermKey::Letter(cs[0]);
        assert(k == key_of_name(name@)) by {
            reveal_strlit("Up");
            reveal_strlit("Down");
            reveal_strlit("End");
            reveal_strlit("Tab");
            reveal_strlit("Home");
            reveal_strlit("Left");
            reveal_strlit("Right");
            reveal_strlit("PageUp");
            reveal_strlit("PageDown");
            reveal_strlit("Insert");
            reveal_strlit("Delete");
            reveal_strlit("Escape");
            reveal_strlit("Backspace");
            reveal_strlit("Enter");
            reveal_strlit("F1");
            reveal_strlit("F2");
            reveal_strlit("F3");
            reveal_strlit("F4");
            reveal_strlit("F5");
            reveal_strlit("F6");
            reveal_strlit("F7");
            reveal_strlit("F8");
            reveal_strlit("F9");
            reveal_strlit("F10");
            reveal_strlit("F11");
            reveal_strlit("F12");
        }
        return k;
    }
    if str_eq(name, "Up") {
        TermKey::ArrowUp
    } else if str_eq(name, "Down") {
        TermKey::ArrowDown
    } else if str_eq(name, "Right") {
        TermKey::ArrowRight
    } else if str_eq(name, "Left") {
        TermKey::ArrowLeft
    } else if str_eq(name, "Home") {
        TermKey::Home
    } else if str_eq(name, "End") {
        TermKey::End
    } else if str_eq(name, "PageUp") {
        TermKey::PageUp
    } else if str_eq(name, "PageDown") {
        TermKey::PageDown
    } else if str_eq(name, "Insert") {
        TermKey::Insert
    } else if str_eq(name, "Delete") {
        TermKey::Delete
    } else if str_eq(name, "Escape") {
        TermKey::Escape
    } else if str_eq(name, "Tab") {
        TermKey::Tab
    } else if str_eq(name, "Backspace") {
        TermKey::Backspace
    } else if str_eq(name, "Enter") {
        TermKey::Enter
    } else if str_eq(name, "F1") {
        TermKey::F1
    } else if str_eq(name, "F2") {
        TermKey::F2
    } else if str_eq(name, "F3") {
        TermKey::F3
    } else if str_eq(name, "F4") {
        TermKey::F4
    } else if str_eq(name, "F5") {
        TermKey::F5
    } else if str_eq(name, "F6") {
        TermKey::F6
    } else if str_eq(name, "F7") {
        TermKey::F7
    } else if str_eq(name, "F8") {
        TermKey::F8
    } else if str_eq(name, "F9") {
        TermKey::F9
    } else if str_eq(name, "F10") {
        TermKey::F10
    } else if str_eq(name, "F11") {
        TermKey::F11
    } else if str_eq(name, "F12") {
        TermKey::F12
    } else {
        TermKey::Other
    }
}

/// The name egui gives to the key that its `Key::from_name` finds for `name`.
pub uninterp spec fn egui_key_name(name: Seq<char>) -> Option<Seq<char>>;

/// egui's `Key::from_name`, and `Key::name` of the key it finds: the key's
/// own name, or nothing when egui knows no key by `name`. Which names egui
/// knows is its own table; this claims only that the answer depends on
/// `name` alone.
#[verifier::external_body]
fn egui_key_lookup(name: &str) -> (r: Option<String>)
    ensures
        r is Some <==> egui_key_name(name@) is Some,
        r matches Some(s) ==> egui_key_name(name@) == Some(s@),
{
    match egui::Key::from_name(name) {
        Some(key) => Some(key.name().to_string()),
        None => None,
    }
}

/// `s` in Unicode upper case.
pub uninterp spec fn uppercase(s: Seq<char>) -> Seq<char>;

/// std's `str::to_uppercase`: upper case by the Unicode tables, which this
/// does not spell out; the result depends on `s` alone.
#[verifier::external_body]
pub(crate) fn to_uppercase(s: &str) -> (r: String)
    ensures
        r@ == uppercase(s@),
{
    s.to_uppercase()
}

/// What the on screen keyboard's `{name}` keys send, the same as the real
/// keys: its own short names, `space`, and whatever egui calls the name in
/// upper case (so `f1` is F1).
pub open spec fn named_spec(name: Seq<char>) -> Option<Seq<u8>> {
    if name == "esc"@ {
        special_bytes(TermKey::Escape, false)
    } else if name == "tab"@ {
        special_bytes(TermKey::Tab, false)
    } else if name == "bksp"@ {
        special_bytes(TermKey::Backspace, false)
    } else if name == "enter"@ {
        special_bytes(TermKey::Enter, false)
    } else if name == "up"@ {
        special_bytes(TermKey::ArrowUp, false)
    } else if name == "down"@ {
        special_bytes(TermKey::ArrowDown, false)
    } else if name == "left"@ {
        special_bytes(TermKey::ArrowLeft, false)
    } else if name == "right"@ {
        special_bytes(TermKey::ArrowRight, false)
    } else if name == "home"@ {
        special_bytes(TermKey::Home, false)
    } else if name == "end"@ {
        special_bytes(TermKey::End, false)
    } else if name == "pgup"@ {
        special_bytes(TermKey::PageUp, false)
    } else if name == "pgdn"@ {
        special_bytes(TermKey::PageDown, false)
    } else if name == "del"@ {
        special_bytes(TermKey::Delete, false)
    } else if name == "ins"@ {
        special_bytes(TermKey::Insert, false)
    } else if name == "space"@ {
        Some(seq![0x20u8])
    } else {
        match egui_key_name(uppercase(name)) {
            Some(n) => special_bytes(key_of_name(n), false),
            None => None,
        }
    }
}

pub fn named_key_bytes(name: &str) -> (out: Option<Vec<u8>>)
    ensures
        out is None <==> named_spec(name@) is None,
        out matches Some(v) ==> named_spec(name@) == Some(v@),
{
    let key =     if str_eq(name, "esc") {
        TermKey::Escape
    } else if str_eq(name, "tab") {
        TermKey::Tab
    } else if str_eq(name, "bksp") {
        TermKey::Backspace
    } else if str_eq(name, "enter") {
        TermKey::Enter
    } else if str_eq(name, "up") {
        TermKey::ArrowUp
    } else if str_eq(name, "down") {
        TermKey::ArrowDown
    } else if str_eq(name, "left") {
        TermKey::ArrowLeft
    } else if str_eq(name, "right") {
        TermKey::ArrowRight
    } else if str_eq(name, "home") {
        TermKey::Home
    } else if str_eq(name, "end") {
        TermKey::End
    } else if str_eq(name, "pgup") {
        TermKey::PageUp
    } else if str_eq(name, "pgdn") {
        TermKey::PageDown
    } else if str_eq(name, "del") {
        TermKey::Delete
    } else if str_eq(name, "ins") {
        TermKey::Insert
    } else if str_eq(name, "space") {
        return Some(vec![0x20u8]);
    } else {
        let upper = to_uppercase(name);
        match egui_key_lookup(upper.as_str()) {
            Some(n) => key_from_name(n.as_str()),
            None => return None,
        }
    };
    special_key_bytes(key, false)
}

/// `c` in ASCII lower case (`char::to_ascii_lowercase`).
pub open spec fn ascii_lower(c: char) -> char {
    if 'A' <= c <= 'Z' { ((c as int) + 32) as char } else { c }
}

/// Ctrl plus a typed character: letters give 1 to 26 (either case), `[`, `\`
/// and `]` give ESC, FS and GS, space and `@` give NUL.
pub open spec fn ctrl_char_spec(c: char) -> Option<u8> {
    let l = ascii_lower(c);
    if 'a' <= l <= 'z' {
        Some((l as int - 'a' as int + 1) as u8)
    } else if l == '[' {
        Some(0x1bu8)
    } else if l == '\\' {
        Some(0x1cu8)
    } else if l == ']' {
        Some(0x1du8)
    } else if l == ' ' || l == '@' {
        Some(0u8)
    } else {
        None
    }
}

/// Ctrl plus a typed character, for the on screen keyboard's ctrl key.
pub fn ctrl_char_byte(c: char) -> (b: Option<u8>)
    ensures
        b == ctrl_char_spec(c),
{
    let l = if 'A' <= c && c <= 'Z' { ((c as u32) + 32) as u8 as char } else { c };
    assert(l == ascii_lower(c));
    if 'a' <= l && l <= 'z' {
        Some((l as u32 - 'a' as u32 + 1) as u8)
    } else if l == '[' {
        Some(0x1b)
    } else if l == '\\' {
        Some(0x1c)
    } else if l == ']' {
        Some(0x1d)
    } else if l == ' ' || l == '@' {
        Some(0)
    } else {
        None
    }
}

#[derive(Clone, Copy, PartialEq, Eq, Debug)]
pub enum MouseAction {
    Press,
    Release,
    Drag,
}

/// The button number on the wire: motion adds 32.
pub open spec fn wire_button(button: u8, action: MouseAction) -> int {
    if action == MouseAction::Drag { button + 32 } else { button as int }
}

/// No number in the report overflows: the motion flag and the legacy
/// encoding's offset of 32 on the button, the 1 based cell in SGR and the
/// offset of 33 in the legacy encoding.
pub open spec fn mouse_seq_ok(button: u8, col: u16, row: u16, action: MouseAction, sgr: bool) -> bool {
    &&& wire_button(button, action) <= 255
    &&& sgr ==> col + 1 <= u16::MAX && row + 1 <= u16::MAX
    &&& !sgr ==> (if action == MouseAction::Release { 3 } else { wire_button(button, action) }) + 32 <= 255
    &&& !sgr ==> col + 33 <= u16::MAX && row + 33 <= u16::MAX
}

/// A mouse report. SGR: `ESC [ < button ; col ; row M` (`m` on release), 1
/// based. Legacy X10: `ESC [ M` and three bytes, each value plus 32, the cell
/// 1 based and capped at 255; a release says button 3, not which one.
pub open spec fn mouse_spec(button: u8, col: u16, row: u16, action: MouseAction, sgr: bool) -> Seq<u8> {
    let b = wire_button(button, action);
    if sgr {
        seq![0x1bu8, 0x5b, 0x3c] + decimal(b as nat) + seq![0x3bu8] + decimal((col + 1) as nat) + seq![0x3bu8]
            + decimal((row + 1) as nat) + seq![if action == MouseAction::Release { 0x6du8 } else { 0x4du8 }]
    } else {
        let cb = (if action == MouseAction::Release { 3 } else { b }) + 32;
        seq![0x1bu8, 0x5b, 0x4d, cb as u8, min(col + 33, 255) as u8, min(row + 33, 255) as u8]
    }
}

pub open spec fn min(a: int, b: int) -> int {
    if a <= b { a } else { b }
}

/// What the app is told of a mouse event. `button`: 0 left, 1 middle,
/// 2 right, 64/65 wheel up/down; `col` and `row` start at 0.
pub fn mouse_seq(button: u8, col: u16, row: u16, action: MouseAction, sgr: bool) -> (out: Vec<u8>)
    requires
        mouse_seq_ok(button, col, row, action, sgr),
    ensures
        out@ == mouse_spec(button, col, row, action, sgr),
{
    let drag = match action {
        MouseAction::Drag => true,
        _ => false,
    };
    let release = match action {
        MouseAction::Release => true,
        _ => false,
    };
    let b = if drag { button + 32 } else { button };
    if sgr {
        let mut out: Vec<u8> = vec![0x1b, 0x5b, 0x3c];
        push_decimal(&mut out, b as u32);
        out.push(0x3b);
        push_decimal(&mut out, (col + 1) as u32);
        out.push(0x3b);
        push_decimal(&mut out, (row + 1) as u32);
        out.push(if release { 0x6d } else { 0x4d });
        assert(out@ =~= mouse_spec(button, col, row, action, sgr)) by {
            assert(out@ =~= seq![0x1bu8, 0x5b, 0x3c] + decimal(b as nat) + seq![0x3bu8] + decimal(
                (col + 1) as nat,
            ) + seq![0x3bu8] + decimal((row + 1) as nat) + seq![if release { 0x6du8 } else { 0x4du8 }]);
        }
        out
    } else {
        let cb = (if release { 3 } else { b }) + 32;
        let cx = if col + 33 < 255 { (col + 33) as u8 } else { 255 };
        let cy = if row + 33 < 255 { (row + 33) as u8 } else { 255 };
        vec![0x1b, 0x5b, 0x4d, cb, cx, cy]
    }
}

/// Ctrl with a letter sends the letter's place in the alphabet (ctrl-A 1 to
/// ctrl-Z 26), from a key or a typed letter of either case alike; `[`, `\`
/// and `]` send ESC, FS and GS, space and `@` NUL; whatever ctrl sends is a
/// C0 control byte.
pub proof fn law_ctrl_bytes(c: char)
    ensures
        'A' <= c <= 'Z' ==> ctrl_key_spec(TermKey::Letter(c)) == Some((c as u32 - 64) as u8),
        'A' <= c <= 'Z' ==> ctrl_char_spec(c) == Some((c as u32 - 64) as u8),
        'a' <= c <= 'z' ==> ctrl_char_spec(c) == Some((c as u32 - 96) as u8),
        c == '[' ==> ctrl_char_spec(c) == Some(0x1bu8),
        c == '\\' ==> ctrl_char_spec(c) == Some(0x1cu8),
        c == ']' ==> ctrl_char_spec(c) == Some(0x1du8),
        c == ' ' || c == '@' ==> ctrl_char_spec(c) == Some(0u8),
        ctrl_char_spec(c) matches Some(b) ==> b < 32,
        ctrl_key_spec(TermKey::Letter(c)) matches Some(b) ==> 1 <= b <= 26,
{
}

/// Mouse reports. A drag reports its button with 32 added, so it reads as a
/// press of that larger number. In SGR a release differs from the press of
/// the same button and cell only in its last byte, `m` for `M`, and the
/// report is `ESC [ <` with the button, the column and the row counted from
/// 1, separated by `;`. The legacy report is six bytes, `ESC [ M` and the
/// button (3 for any release), the column and the row counted from 1, each
/// plus 32, the cell capped at 255.
pub proof fn law_mouse_reports(button: u8, col: u16, row: u16, sgr: bool)
    ensures
        button + 32 <= 255 ==> mouse_spec(button, col, row, MouseAction::Drag, sgr)
            == mouse_spec((button + 32) as u8, col, row, MouseAction::Press, sgr),
        ({
            let press = mouse_spec(button, col, row, MouseAction::Press, true);
            let release = mouse_spec(button, col, row, MouseAction::Release, true);
            &&& press.drop_last() == release.drop_last()
            &&& press.last() == 0x4du8 && release.last() == 0x6du8
            &&& press == seq![0x1bu8, 0x5bu8, 0x3cu8] + decimal(button as nat) + seq![0x3bu8]
                + decimal(col as nat + 1) + seq![0x3bu8] + decimal(row as nat + 1) + seq![0x4du8]
        }),
        ({
            let x = mouse_spec(button, col, row, MouseAction::Press, false);
            let y = mouse_spec(button, col, row, MouseAction::Release, false);
            &&& x.len() == 6 && x[0] == 0x1b && x[1] == 0x5b && x[2] == 0x4d
            &&& x[3] == (button + 32) as u8 && y[3] == 35
            &&& x[4] == (if col + 33 <= 255 { col + 33 } else { 255 }) as u8
            &&& x[5] == (if row + 33 <= 255 { row + 33 } else { 255 }) as u8
            &&& y.len() == 6 && y.subrange(4, 6) == x.subrange(4, 6)
        }),
{
    let press = mouse_spec(button, col, row, MouseAction::Press, true);
    let release = mouse_spec(button, col, row, MouseAction::Release, true);
    assert(press.drop_last() =~= release.drop_last());
    let x = mouse_spec(button, col, row, MouseAction::Press, false);
    let y = mouse_spec(button, col, row, MouseAction::Release, false);
    assert(y.subrange(4, 6) =~= x.subrange(4, 6));
}

} // verus!
