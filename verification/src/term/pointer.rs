//! What the pointer does to a terminal app that asked for mouse reports:
//! wheel steps, a button going down, dragging it, letting it go, and plain
//! motion when the app wants every move. Where the pointer is, in cells, the
//! window works out from its own coordinates.
use vstd::prelude::*;
use super::input::{mouse_seq, mouse_spec, MouseAction};

verus! {

/// The button held since it went down over the terminal, and the cell of
/// the last report.
pub struct Pointer {
    pub button: Option<u8>,
    pub last_cell: Option<(u16, u16)>,
}

/// What the pointer did this frame.
pub struct PointerInput {
    /// Over the terminal and not over something of the window's own.
    pub inside: bool,
    /// A wheel button (64 up, 65 down) and how many steps of it to report.
    pub wheel: Option<(u8, u8)>,
    /// A button that went down: 0 primary, 1 middle, 2 secondary (left out
    /// when the secondary opens the window's menu).
    pub pressed: Option<u8>,
    /// Some button came up.
    pub released: bool,
    /// The pointer's cell.
    pub cell: (u16, u16),
    /// Where a held button counts as being: a finger stays where it came down
    /// until it has clearly moved.
    pub held_cell: (u16, u16),
}

/// A cell whose report fits the encoding.
pub open spec fn cell_fits(c: (u16, u16), sgr: bool) -> bool {
    if sgr {
        c.0 + 1 <= u16::MAX && c.1 + 1 <= u16::MAX
    } else {
        c.0 + 33 <= u16::MAX && c.1 + 33 <= u16::MAX
    }
}

pub open spec fn pointer_wf(p: Pointer) -> bool {
    p.button matches Some(b) ==> b <= 2
}

pub open spec fn input_ok(i: PointerInput, sgr: bool) -> bool {
    &&& cell_fits(i.cell, sgr)
    &&& cell_fits(i.held_cell, sgr)
    &&& i.pressed matches Some(b) ==> b <= 2
    &&& i.wheel matches Some((b, _)) ==> b == 64 || b == 65
}

/// `n` copies of `s`.
pub open spec fn repeat(s: Seq<u8>, n: nat) -> Seq<u8>
    decreases n,
{
    if n == 0 {
        Seq::empty()
    } else {
        repeat(s, (n - 1) as nat) + s
    }
}

/// The reports of a frame and the pointer after it. With mouse reports off
/// a held button is forgotten. Otherwise, over the terminal: the wheel
/// steps, then a button going down (when none is held) is pressed where the
/// pointer is. A held button is let go on any release, else dragged to a new
/// cell. With no button held, motion to a new cell is reported when the app
/// wants every move.
pub open spec fn pointer_spec(p: Pointer, enabled: bool, any_motion: bool, sgr: bool, i: PointerInput) -> (Pointer, Seq<u8>) {
    if !enabled {
        (Pointer { button: None, ..p }, Seq::empty())
    } else {
        let (col, row) = i.cell;
        let wheel = match i.wheel {
            Some((b, n)) if i.inside => repeat(mouse_spec(b, col, row, MouseAction::Press, sgr), n as nat),
            _ => Seq::empty(),
        };
        let (p1, press) = match i.pressed {
            Some(b) if i.inside && p.button is None => (
                Pointer { button: Some(b), last_cell: Some(i.cell) },
                mouse_spec(b, col, row, MouseAction::Press, sgr),
            ),
            _ => (p, Seq::empty()),
        };
        let (p2, held) = match p1.button {
            Some(b) => {
                let (hc, hr) = i.held_cell;
                if i.released {
                    (Pointer { button: None, ..p1 }, mouse_spec(b, hc, hr, MouseAction::Release, sgr))
                } else if p1.last_cell != Some(i.held_cell) {
                    (Pointer { last_cell: Some(i.held_cell), ..p1 }, mouse_spec(b, hc, hr, MouseAction::Drag, sgr))
                } else {
                    (p1, Seq::empty())
                }
            },
            None => if any_motion && i.inside && p1.last_cell != Some(i.cell) {
                (Pointer { last_cell: Some(i.cell), ..p1 }, mouse_spec(3, col, row, MouseAction::Drag, sgr))
            } else {
                (p1, Seq::empty())
            },
        };
        (p2, wheel + press + held)
    }
}

fn append(out: &mut Vec<u8>, more: Vec<u8>)
    ensures
        final(out)@ == old(out)@ + more@,
{
    let mut k: usize = 0;
    while k < more.len()
        invariant
            k <= more@.len(),
            out@ == old(out)@ + more@.take(k as int),
        decreases more@.len() - k,
    {
        out.push(more[k]);
        k = k + 1;
        assert(out@ =~= old(out)@ + more@.take(k as int));
    }
    assert(more@.take(more@.len() as int) =~= more@);
}

fn same_cell(a: Option<(u16, u16)>, b: (u16, u16)) -> (r: bool)
    ensures
        r == (a == Some(b)),
{
    match a {
        Some((x, y)) => x == b.0 && y == b.1,
        None => false,
    }
}

impl Pointer {
    /// Nothing held, nothing reported yet.
    pub fn new() -> (p: Pointer)
        ensures
            p.button is None && p.last_cell is None,
    {
        Pointer { button: None, last_cell: None }
    }

    /// Forget a held button, as when a popup takes the pointer mid drag.
    pub fn release_all(&mut self)
        ensures
            final(self).button is None && final(self).last_cell is None,
    {
        self.button = None;
        self.last_cell = None;
    }

    /// The bytes a frame of pointer activity sends to the app.
    pub fn frame(&mut self, enabled: bool, any_motion: bool, sgr: bool, i: PointerInput) -> (out: Vec<u8>)
        requires
            pointer_wf(*old(self)),
            input_ok(i, sgr),
        ensures
            (*final(self), out@) == pointer_spec(*old(self), enabled, any_motion, sgr, i),
            pointer_wf(*final(self)),
    {
        let mut out: Vec<u8> = Vec::new();
        if !enabled {
            self.button = None;
            return out;
        }
        let (col, row) = i.cell;
        if i.inside {
            if let Some((b, n)) = i.wheel {
                let one = mouse_seq(b, col, row, MouseAction::Press, sgr);
                let mut k: u8 = 0;
                while k < n
                    invariant
                        k <= n,
                        one@ == mouse_spec(b, col, row, MouseAction::Press, sgr),
                        out@ == repeat(one@, k as nat),
                    decreases n - k,
                {
                    let copy = one.clone();
                    append(&mut out, copy);
                    k = k + 1;
                }
            }
        }
        let ghost after_wheel = out@;
        if i.inside && self.button.is_none() {
            if let Some(b) = i.pressed {
                self.button = Some(b);
                self.last_cell = Some(i.cell);
                append(&mut out, mouse_seq(b, col, row, MouseAction::Press, sgr));
            }
        }
        let ghost after_press = out@;
        match self.button {
            Some(b) => {
                let (hc, hr) = i.held_cell;
                if i.released {
                    self.button = None;
                    append(&mut out, mouse_seq(b, hc, hr, MouseAction::Release, sgr));
                } else if !same_cell(self.last_cell, i.held_cell) {
                    self.last_cell = Some(i.held_cell);
                    append(&mut out, mouse_seq(b, hc, hr, MouseAction::Drag, sgr));
                }
            },
            None => {
                if any_motion && i.inside && !same_cell(self.last_cell, i.cell) {
                    self.last_cell = Some(i.cell);
                    append(&mut out, mouse_seq(3, col, row, MouseAction::Drag, sgr));
                }
            },
        }
        proof {
            let (q, bytes) = pointer_spec(*old(self), enabled, any_motion, sgr, i);
            assert(bytes =~= out@);
        }
        out
    }
}

/// The button that went down this frame, as the app hears of it: primary
/// (0) before middle (1) before secondary (2); a secondary click that opens
/// the window's menu is not the app's.
pub fn pressed_button(primary: bool, middle: bool, secondary: bool, skip_secondary: bool) -> (b: Option<u8>)
    ensures
        b == (if primary {
            Some(0u8)
        } else if middle {
            Some(1u8)
        } else if secondary && !skip_secondary {
            Some(2u8)
        } else {
            None
        }),
{
    if primary {
        Some(0)
    } else if middle {
        Some(1)
    } else if secondary && !skip_secondary {
        Some(2)
    } else {
        None
    }
}

} // verus!
