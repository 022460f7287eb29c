//! Colors: the xterm 256 color palette and what a cell is drawn in.
use vstd::prelude::*;

use super::{Cell, TermColor};

verus! {

/// A color as the painter takes it: red, green, blue and alpha, with the
/// color channels already multiplied by alpha.
#[derive(Clone, Copy, PartialEq, Eq, Debug)]
pub struct Rgba {
    pub r: u8,
    pub g: u8,
    pub b: u8,
    pub a: u8,
}

impl Rgba {
    /// An opaque color.
    pub fn from_rgb(r: u8, g: u8, b: u8) -> (c: Rgba)
        ensures
            c == (Rgba { r, g, b, a: 255 }),
    {
        Rgba { r, g, b, a: 255 }
    }

    /// The four channels as they are stored.
    pub fn to_array(&self) -> (a: [u8; 4])
        ensures
            a@ == seq![self.r, self.g, self.b, self.a],
    {
        [self.r, self.g, self.b, self.a]
    }
}

/// The two colors the config picks; everything else is the ANSI palette.
#[derive(Clone, Copy, Debug)]
pub struct Palette {
    pub fg: Rgba,
    pub bg: Rgba,
}

pub open spec fn opaque(r: int, g: int, b: int) -> Rgba {
    Rgba { r: r as u8, g: g as u8, b: b as u8, a: 255 }
}

/// One step of the 6x6x6 color cube: 0, then 95 up to 255 in steps of 40.
pub open spec fn cube_level(i: int) -> int {
    if i == 0 { 0 } else { 55 + i * 40 }
}

/// The xterm palette: 16 system colors, the color cube, a gray ramp.
pub open spec fn ansi_spec(idx: u8) -> Rgba {
    let i = idx as int;
    if i == 0 { opaque(0, 0, 0) }
    else if i == 1 { opaque(170, 0, 0) }
    else if i == 2 { opaque(0, 170, 0) }
    else if i == 3 { opaque(170, 85, 0) }
    else if i == 4 { opaque(0, 0, 170) }
    else if i == 5 { opaque(170, 0, 170) }
    else if i == 6 { opaque(0, 170, 170) }
    else if i == 7 { opaque(170, 170, 170) }
    else if i == 8 { opaque(85, 85, 85) }
    else if i == 9 { opaque(255, 85, 85) }
    else if i == 10 { opaque(85, 255, 85) }
    else if i == 11 { opaque(255, 255, 85) }
    else if i == 12 { opaque(85, 85, 255) }
    else if i == 13 { opaque(255, 85, 255) }
    else if i == 14 { opaque(85, 255, 255) }
    else if i == 15 { opaque(255, 255, 255) }
    else if i <= 231 {
        let c = i - 16;
        opaque(cube_level(c / 36), cube_level((c % 36) / 6), cube_level(c % 6))
    } else {
        let g = 8 + (i - 232) * 10;
        opaque(g, g, g)
    }
}

fn cube_value(i: u16) -> (v: u8)
    requires
        i <= 5,
    ensures
        v as int == cube_level(i as int),
{
    if i == 0 {
        0
    } else {
        55 + i as u8 * 40
    }
}

/// Palette entry `idx`.
pub fn ansi_color(idx: u8) -> (c: Rgba)
    ensures
        c == ansi_spec(idx),
{
    match idx {
        0 => Rgba::from_rgb(0, 0, 0),
        1 => Rgba::from_rgb(170, 0, 0),
        2 => Rgba::from_rgb(0, 170, 0),
        3 => Rgba::from_rgb(170, 85, 0),
        4 => Rgba::from_rgb(0, 0, 170),
        5 => Rgba::from_rgb(170, 0, 170),
        6 => Rgba::from_rgb(0, 170, 170),
        7 => Rgba::from_rgb(170, 170, 170),
        8 => Rgba::from_rgb(85, 85, 85),
        9 => Rgba::from_rgb(255, 85, 85),
        10 => Rgba::from_rgb(85, 255, 85),
        11 => Rgba::from_rgb(255, 255, 85),
        12 => Rgba::from_rgb(85, 85, 255),
        13 => Rgba::from_rgb(255, 85, 255),
        14 => Rgba::from_rgb(85, 255, 255),
        15 => Rgba::from_rgb(255, 255, 255),
        16..=231 => {
            let idx = (idx - 16) as u16;
            let ri = idx / 36;
            let gi = (idx % 36) / 6;
            let bi = idx % 6;
            Rgba::from_rgb(cube_value(ri), cube_value(gi), cube_value(bi))
        },
        232..=255 => {
            let g = 8 + (idx - 232) * 10;
            Rgba::from_rgb(g, g, g)
        },
    }
}

pub open spec fn resolve_spec(c: TermColor, is_fg: bool, pal: Palette) -> Rgba {
    match c {
        TermColor::Default => if is_fg { pal.fg } else { pal.bg },
        TermColor::Indexed(i) => ansi_spec(i),
        TermColor::Rgb(r, g, b) => opaque(r as int, g as int, b as int),
    }
}

/// What a color asks for: the palette's foreground or background for the
/// default, the xterm palette, or the RGB value itself.
pub fn resolve_color(c: TermColor, is_fg: bool, pal: &Palette) -> (out: Rgba)
    ensures
        out == resolve_spec(c, is_fg, *pal),
{
    match c {
        TermColor::Default => if is_fg {
            pal.fg
        } else {
            pal.bg
        },
        TermColor::Indexed(i) => ansi_color(i),
        TermColor::Rgb(r, g, b) => Rgba::from_rgb(r, g, b),
    }
}

pub open spec fn brighten(v: u8) -> u8 {
    if v + 40 > 255 { 255 } else { (v + 40) as u8 }
}

/// The text color of a cell: reverse video swaps in the background, bold
/// text is brightened by 40 on each color channel (up to 255).
pub open spec fn fg_spec(cell: Cell, pal: Palette) -> Rgba {
    if cell.reverse {
        resolve_spec(cell.bg, false, pal)
    } else if cell.bold {
        let c = resolve_spec(cell.fg, true, pal);
        Rgba { r: brighten(c.r), g: brighten(c.g), b: brighten(c.b), a: c.a }
    } else {
        resolve_spec(cell.fg, true, pal)
    }
}

/// The background of a cell: reverse video swaps in the text color.
pub open spec fn bg_spec(cell: Cell, pal: Palette) -> Rgba {
    if cell.reverse {
        resolve_spec(cell.fg, true, pal)
    } else {
        resolve_spec(cell.bg, false, pal)
    }
}

impl Cell {
    pub fn resolved_fg(&self, pal: &Palette) -> (c: Rgba)
        ensures
            c == fg_spec(*self, *pal),
    {
        if self.reverse {
            resolve_color(self.bg, false, pal)
        } else {
            let c = resolve_color(self.fg, true, pal);
            if self.bold {
                let ch = c.to_array();
                Rgba {
                    r: ch[0].saturating_add(40),
                    g: ch[1].saturating_add(40),
                    b: ch[2].saturating_add(40),
                    a: ch[3],
                }
            } else {
                c
            }
        }
    }

    pub fn resolved_bg(&self, pal: &Palette) -> (c: Rgba)
        ensures
            c == bg_spec(*self, *pal),
    {
        if self.reverse {
            resolve_color(self.fg, true, pal)
        } else {
            resolve_color(self.bg, false, pal)
        }
    }
}

/// The xterm palette: entries 0 to 15 are the system colors (normal ones
/// at 170, bright ones at 85 and 255, so black, red, green, yellow, blue,
/// magenta, cyan, white in that order by their red, green and blue bits;
/// yellow's green at 85), entry `16 + 36r + 6g + b` of the cube has the
/// levels 0, 95, 135, 175, 215, 255 for `r`, `g`, `b` from 0 to 5, and entry
/// `232 + k` is the gray `8 + 10k`; every entry is opaque.
pub proof fn law_palette(r: u8, g: u8, b: u8, k: u8, idx: u8)
    requires
        r < 6 && g < 6 && b < 6,
        k < 24,
    ensures
        ({
            let level = |x: int| if x == 0 { 0int } else { 55 + 40 * x };
            let c = ansi_spec((16 + 36 * r + 6 * g + b) as u8);
            c.r as int == level(r as int) && c.g as int == level(g as int) && c.b as int == level(b as int)
        }),
        ansi_spec((232 + k) as u8).r as int == 8 + 10 * k,
        ansi_spec((232 + k) as u8).g == ansi_spec((232 + k) as u8).r,
        ansi_spec((232 + k) as u8).b == ansi_spec((232 + k) as u8).r,
        ansi_spec(idx).a == 255,
        1 <= idx <= 6 ==> ansi_spec(idx).r == (if idx % 2 == 1 { 170u8 } else { 0u8 })
            && ansi_spec(idx).b == (if idx >= 4 { 170u8 } else { 0u8 })
            && ansi_spec(idx).g == (if idx == 3 { 85u8 } else if idx == 2 || idx == 6 { 170u8 } else { 0u8 }),
        9 <= idx <= 14 ==> ansi_spec(idx).r == (if idx % 2 == 1 { 255u8 } else { 85u8 })
            && ansi_spec(idx).b == (if idx >= 12 { 255u8 } else { 85u8 })
            && ansi_spec(idx).g == (if idx == 10 || idx == 11 || idx == 14 { 255u8 } else { 85u8 }),
{
    let i = 16 + 36 * r + 6 * g + b;
    assert(i - 16 == 36 * r + 6 * g + b);
    assert((36 * r + 6 * g + b) / 36 == r && ((36 * r + 6 * g + b) % 36) / 6 == g && (36 * r + 6 * g + b) % 6 == b)
        by (nonlinear_arith)
        requires
            r < 6 && g < 6 && b < 6,
    ;
}

} // verus!
