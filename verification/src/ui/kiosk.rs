//! The on screen keyboard's bookkeeping: which rows it shows, the shift and
//! ctrl toggles, and what a key press types.
use vstd::prelude::*;
use crate::schema::{Kiosk as KioskConfig, KeyboardMode, OskKey, OskKeyView, parse_osk_row, osk_row_spec, keys_view};
use crate::text::{str_eq, chars_of};
use crate::term::input::{to_uppercase, uppercase};

verus! {

/// What a key of the on screen keyboard asks to be typed.
pub enum Press {
    Text(String),
    /// Ctrl was on when this was typed.
    Ctrl(char),
    /// One of the special key names, minus shift and ctrl which the keyboard keeps itself.
    Special(String),
}

pub enum PressView {
    Text(Seq<char>),
    Ctrl(char),
    Special(Seq<char>),
}

impl View for Press {
    type V = PressView;

    open spec fn view(&self) -> PressView {
        match self {
            Press::Text(s) => PressView::Text(s@),
            Press::Ctrl(c) => PressView::Ctrl(*c),
            Press::Special(s) => PressView::Special(s@),
        }
    }
}

/// The status bar's keyboard: how it shows, whether it is open, the two
/// toggles, and its rows without and with shift.
pub struct Kiosk {
    pub mode: KeyboardMode,
    pub keyboard_open: bool,
    pub shift: bool,
    pub ctrl: bool,
    pub rows: Vec<Vec<OskKey>>,
    pub shifted: Vec<Vec<OskKey>>,
}

pub open spec fn rows_view(v: Seq<Vec<OskKey>>) -> Seq<Seq<OskKeyView>> {
    v.map_values(|r: Vec<OskKey>| keys_view(r@))
}

/// The rows that parse, in order; a row that does not is left out.
pub open spec fn parsed_rows(rows: Seq<String>) -> Seq<Seq<OskKeyView>>
    decreases rows.len(),
{
    if rows.len() == 0 {
        Seq::empty()
    } else {
        let before = parsed_rows(rows.drop_last());
        match osk_row_spec(rows.last()@) {
            Ok(keys) => before.push(keys),
            Err(_) => before,
        }
    }
}

/// What pressing `key` does with shift and ctrl on or off: the new toggles
/// and what gets typed.
pub open spec fn press_spec(shift: bool, ctrl: bool, key: OskKeyView) -> (bool, bool, Option<PressView>) {
    match key {
        OskKeyView::Special(n) => if n == "shift"@ {
            (!shift, ctrl, None)
        } else if n == "ctrl"@ {
            (shift, !ctrl, None)
        } else {
            (false, false, Some(PressView::Special(n)))
        },
        OskKeyView::Char(s) => if ctrl && s.len() > 0 {
            (false, false, Some(PressView::Ctrl(s[0])))
        } else {
            (false, false, Some(PressView::Text(s)))
        },
    }
}

fn parse_rows(rows: &Vec<String>) -> (out: Vec<Vec<OskKey>>)
    ensures
        rows_view(out@) == parsed_rows(rows@),
{
    let mut out: Vec<Vec<OskKey>> = Vec::new();
    let mut i: usize = 0;
    while i < rows.len()
        invariant
            i <= rows@.len(),
            rows_view(out@) == parsed_rows(rows@.take(i as int)),
        decreases rows@.len() - i,
    {
        let ghost before = out@;
        assert(rows@.take(i + 1).drop_last() =~= rows@.take(i as int));
        assert(rows@.take(i + 1).last() == rows@[i as int]);
        match parse_osk_row(rows[i].as_str()) {
            Ok(keys) => {
                out.push(keys);
                assert(rows_view(out@) =~= rows_view(before).push(keys_view(keys@)));
            },
            Err(_) => {},
        }
        i = i + 1;
    }
    assert(rows@.take(rows@.len() as int) =~= rows@);
    out
}

fn is_named(n: &str, name: &str) -> (b: bool)
    ensures
        b == (n@ == name@),
{
    str_eq(n, name)
}

impl Kiosk {
    /// The keyboard of the configuration, closed, with both toggles off.
    pub fn new(cfg: &KioskConfig) -> (k: Kiosk)
        ensures
            k.mode == cfg.keyboard_mode,
            !k.keyboard_open && !k.shift && !k.ctrl,
            rows_view(k.rows@) == parsed_rows(cfg.keyboard@),
            rows_view(k.shifted@) == parsed_rows(cfg.keyboard_shift@),
    {
        Kiosk {
            mode: cfg.keyboard_mode,
            keyboard_open: false,
            shift: false,
            ctrl: false,
            rows: parse_rows(&cfg.keyboard),
            shifted: parse_rows(&cfg.keyboard_shift),
        }
    }

    /// The keyboard button on the status bar.
    pub fn toggle_keyboard(&mut self)
        ensures
            final(self).keyboard_open == !old(self).keyboard_open,
            final(self).shift == old(self).shift,
            final(self).ctrl == old(self).ctrl,
            final(self).mode == old(self).mode,
            final(self).rows@ == old(self).rows@,
            final(self).shifted@ == old(self).shifted@,
    {
        self.keyboard_open = !self.keyboard_open;
    }

    /// The rows on show: the shifted ones while shift is on.
    pub fn current_rows(&self) -> (rows: &Vec<Vec<OskKey>>)
        ensures
            rows@ == (if self.shift { self.shifted@ } else { self.rows@ }),
    {
        if self.shift {
            &self.shifted
        } else {
            &self.rows
        }
    }

    /// Whether `key` shows as held: shift and ctrl while they are on.
    pub fn is_on(&self, key: &OskKey) -> (on: bool)
        ensures
            on == (match key@ {
                OskKeyView::Special(n) => if n == "shift"@ {
                    self.shift
                } else if n == "ctrl"@ {
                    self.ctrl
                } else {
                    false
                },
                OskKeyView::Char(_) => false,
            }),
    {
        match key {
            OskKey::Special(n) => if is_named(n.as_str(), "shift") {
                self.shift
            } else if is_named(n.as_str(), "ctrl") {
                self.ctrl
            } else {
                false
            },
            OskKey::Char(_) => false,
        }
    }

    /// A key was tapped: shift and ctrl toggle, anything else is typed (with
    /// ctrl, the first character as a control character) and turns both off.
    pub fn press(&mut self, key: &OskKey) -> (typed: Option<Press>)
        ensures
            ({
                let (shift, ctrl, out) = press_spec(old(self).shift, old(self).ctrl, key@);
                &&& final(self).shift == shift
                &&& final(self).ctrl == ctrl
                &&& match (typed, out) {
                    (Some(p), Some(v)) => p@ == v,
                    (None, None) => true,
                    _ => false,
                }
            }),
            final(self).keyboard_open == old(self).keyboard_open,
            final(self).mode == old(self).mode,
            final(self).rows@ == old(self).rows@,
            final(self).shifted@ == old(self).shifted@,
    {
        match key {
            OskKey::Special(n) => {
                if is_named(n.as_str(), "shift") {
                    self.shift = !self.shift;
                    None
                } else if is_named(n.as_str(), "ctrl") {
                    self.ctrl = !self.ctrl;
                    None
                } else {
                    self.shift = false;
                    self.ctrl = false;
                    Some(Press::Special(n.clone()))
                }
            },
            OskKey::Char(s) => {
                let cs = chars_of(s.as_str());
                let typed = if self.ctrl && cs.len() > 0 {
                    Press::Ctrl(cs[0])
                } else {
                    Press::Text(s.clone())
                };
                self.shift = false;
                self.ctrl = false;
                Some(typed)
            },
        }
    }
}

/// How wide a key is, in quarters of a plain key.
pub open spec fn width_spec(key: OskKeyView) -> u32 {
    match key {
        OskKeyView::Special(n) => if n == "space"@ {
            20
        } else if n == "enter"@ || n == "shift"@ {
            7
        } else if n == "bksp"@ || n == "tab"@ || n == "ctrl"@ {
            6
        } else {
            4
        },
        OskKeyView::Char(_) => 4,
    }
}

/// How wide a key is, in quarters of a plain key: space is five keys wide,
/// enter and shift one and three quarters, backspace, tab and ctrl one and a half.
pub fn width_quarters(key: &OskKey) -> (w: u32)
    ensures
        w == width_spec(key@),
{
    match key {
        OskKey::Special(n) => {
            let n = n.as_str();
            if is_named(n, "space") {
                20
            } else if is_named(n, "enter") || is_named(n, "shift") {
                7
            } else if is_named(n, "bksp") || is_named(n, "tab") || is_named(n, "ctrl") {
                6
            } else {
                4
            }
        },
        OskKey::Char(_) => 4,
    }
}

/// The special keys that have a label of their own, and their labels.
pub open spec fn special_label(n: Seq<char>) -> Option<Seq<char>> {
    if n == "esc"@ {
        Some("Esc"@)
    } else if n == "tab"@ {
        Some("Tab ⇥"@)
    } else if n == "bksp"@ {
        Some("Bksp"@)
    } else if n == "enter"@ {
        Some("Enter"@)
    } else if n == "shift"@ {
        Some("⇧"@)
    } else if n == "ctrl"@ {
        Some("Ctrl"@)
    } else if n == "space"@ {
        Some(" "@)
    } else if n == "up"@ {
        Some("↑"@)
    } else if n == "down"@ {
        Some("↓"@)
    } else if n == "left"@ {
        Some("←"@)
    } else if n == "right"@ {
        Some("→"@)
    } else if n == "home"@ {
        Some("Home"@)
    } else if n == "end"@ {
        Some("End"@)
    } else if n == "pgup"@ {
        Some("PgUp"@)
    } else if n == "pgdn"@ {
        Some("PgDn"@)
    } else if n == "del"@ {
        Some("Del"@)
    } else if n == "ins"@ {
        Some("Ins"@)
    } else {
        None
    }
}

/// What a key shows: a typed key its text, a special key its label, or its
/// name in upper case (the function keys).
pub open spec fn label_spec(key: OskKeyView) -> Seq<char> {
    match key {
        OskKeyView::Char(s) => s,
        OskKeyView::Special(n) => match special_label(n) {
            Some(l) => l,
            None => uppercase(n),
        },
    }
}

fn special_label_of(n: &str) -> (l: Option<&'static str>)
    ensures
        match (l, special_label(n@)) {
            (Some(a), Some(b)) => a@ == b,
            (None, None) => true,
            _ => false,
        },
{
    if is_named(n, "esc") {
        Some("Esc")
    } else if is_named(n, "tab") {
        Some("Tab ⇥")
    } else if is_named(n, "bksp") {
        Some("Bksp")
    } else if is_named(n, "enter") {
        Some("Enter")
    } else if is_named(n, "shift") {
        Some("⇧")
    } else if is_named(n, "ctrl") {
        Some("Ctrl")
    } else if is_named(n, "space") {
        Some(" ")
    } else if is_named(n, "up") {
        Some("↑")
    } else if is_named(n, "down") {
        Some("↓")
    } else if is_named(n, "left") {
        Some("←")
    } else if is_named(n, "right") {
        Some("→")
    } else if is_named(n, "home") {
        Some("Home")
    } else if is_named(n, "end") {
        Some("End")
    } else if is_named(n, "pgup") {
        Some("PgUp")
    } else if is_named(n, "pgdn") {
        Some("PgDn")
    } else if is_named(n, "del") {
        Some("Del")
    } else if is_named(n, "ins") {
        Some("Ins")
    } else {
        None
    }
}

/// What a key shows.
pub fn label(key: &OskKey) -> (l: String)
    ensures
        l@ == label_spec(key@),
{
    match key {
        OskKey::Char(s) => s.clone(),
        OskKey::Special(n) => match special_label_of(n.as_str()) {
            Some(l) => String::from_str(l),
            None => to_uppercase(n.as_str()),
        },
    }
}


/// Shift and ctrl hold for one key: whatever a key types, both are off after it.
pub proof fn law_modifiers_hold_for_one_key(shift: bool, ctrl: bool, key: OskKeyView)
    ensures
        press_spec(shift, ctrl, key).2 is Some ==> !press_spec(shift, ctrl, key).0 && !press_spec(shift, ctrl, key).1,
{
}

} // verus!
