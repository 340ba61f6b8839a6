//! Mode and hotkey legend: while frozen, a translucent rounded pill near the
//! top-center of every monitor shows the modes as tabs, each labelled with the
//! hotkey that reaches it and the active ones highlighted.
//!
//! Text is rendered with an embedded 8x8 bitmap font. Everything is integer
//! pixel math.

use crate::capture::DibBuffer;
use crate::hotkeys::gesture::{lemma_shown_len, HotkeyGesture};
use crate::overlay::composite::{tint, tinted};
use crate::settings::model::{HotkeySettings, Rgb};
use crate::text::{chars_of, push_text};
use vstd::math::min;
use vstd::prelude::*;

verus! {

/// 8x8 monochrome bitmap font covering printable ASCII (U+0020..=U+007E),
/// row-major: one byte per glyph row (top first), bit 0 = leftmost pixel.
///
/// font8x8_basic by Daniel Hepper <daniel@hepper.net>
/// (https://github.com/dhepper/font8x8), Public Domain, itself based on
/// public-domain IBM VGA fonts by Marcel Sondaar.
pub const FONT8X8: [[u8; 8]; 95] = [
    [0x00, 0x00, 0x00, 0x00, 0x00, 0x00, 0x00, 0x00], // 0x20 ' '
    [0x18, 0x3C, 0x3C, 0x18, 0x18, 0x00, 0x18, 0x00], // 0x21 '!'
    [0x36, 0x36, 0x00, 0x00, 0x00, 0x00, 0x00, 0x00], // 0x22 '"'
    [0x36, 0x36, 0x7F, 0x36, 0x7F, 0x36, 0x36, 0x00], // 0x23 '#'
    [0x0C, 0x3E, 0x03, 0x1E, 0x30, 0x1F, 0x0C, 0x00], // 0x24 '$'
    [0x00, 0x63, 0x33, 0x18, 0x0C, 0x66, 0x63, 0x00], // 0x25 '%'
    [0x1C, 0x36, 0x1C, 0x6E, 0x3B, 0x33, 0x6E, 0x00], // 0x26 '&'
    [0x06, 0x06, 0x03, 0x00, 0x00, 0x00, 0x00, 0x00], // 0x27 "'"
    [0x18, 0x0C, 0x06, 0x06, 0x06, 0x0C, 0x18, 0x00], // 0x28 '('
    [0x06, 0x0C, 0x18, 0x18, 0x18, 0x0C, 0x06, 0x00], // 0x29 ')'
    [0x00, 0x66, 0x3C, 0xFF, 0x3C, 0x66, 0x00, 0x00], // 0x2A '*'
    [0x00, 0x0C, 0x0C, 0x3F, 0x0C, 0x0C, 0x00, 0x00], // 0x2B '+'
    [0x00, 0x00, 0x00, 0x00, 0x00, 0x0C, 0x0C, 0x06], // 0x2C ','
    [0x00, 0x00, 0x00, 0x3F, 0x00, 0x00, 0x00, 0x00], // 0x2D '-'
    [0x00, 0x00, 0x00, 0x00, 0x00, 0x0C, 0x0C, 0x00], // 0x2E '.'
    [0x60, 0x30, 0x18, 0x0C, 0x06, 0x03, 0x01, 0x00], // 0x2F '/'
    [0x3E, 0x63, 0x73, 0x7B, 0x6F, 0x67, 0x3E, 0x00], // 0x30 '0'
    [0x0C, 0x0E, 0x0C, 0x0C, 0x0C, 0x0C, 0x3F, 0x00], // 0x31 '1'
    [0x1E, 0x33, 0x30, 0x1C, 0x06, 0x33, 0x3F, 0x00], // 0x32 '2'
    [0x1E, 0x33, 0x30, 0x1C, 0x30, 0x33, 0x1E, 0x00], // 0x33 '3'
    [0x38, 0x3C, 0x36, 0x33, 0x7F, 0x30, 0x78, 0x00], // 0x34 '4'
    [0x3F, 0x03, 0x1F, 0x30, 0x30, 0x33, 0x1E, 0x00], // 0x35 '5'
    [0x1C, 0x06, 0x03, 0x1F, 0x33, 0x33, 0x1E, 0x00], // 0x36 '6'
    [0x3F, 0x33, 0x30, 0x18, 0x0C, 0x0C, 0x0C, 0x00], // 0x37 '7'
    [0x1E, 0x33, 0x33, 0x1E, 0x33, 0x33, 0x1E, 0x00], // 0x38 '8'
    [0x1E, 0x33, 0x33, 0x3E, 0x30, 0x18, 0x0E, 0x00], // 0x39 '9'
    [0x00, 0x0C, 0x0C, 0x00, 0x00, 0x0C, 0x0C, 0x00], // 0x3A ':'
    [0x00, 0x0C, 0x0C, 0x00, 0x00, 0x0C, 0x0C, 0x06], // 0x3B ';'
    [0x18, 0x0C, 0x06, 0x03, 0x06, 0x0C, 0x18, 0x00], // 0x3C '<'
    [0x00, 0x00, 0x3F, 0x00, 0x00, 0x3F, 0x00, 0x00], // 0x3D '='
    [0x06, 0x0C, 0x18, 0x30, 0x18, 0x0C, 0x06, 0x00], // 0x3E '>'
    [0x1E, 0x33, 0x30, 0x18, 0x0C, 0x00, 0x0C, 0x00], // 0x3F '?'
    [0x3E, 0x63, 0x7B, 0x7B, 0x7B, 0x03, 0x1E, 0x00], // 0x40 '@'
    [0x0C, 0x1E, 0x33, 0x33, 0x3F, 0x33, 0x33, 0x00], // 0x41 'A'
    [0x3F, 0x66, 0x66, 0x3E, 0x66, 0x66, 0x3F, 0x00], // 0x42 'B'
    [0x3C, 0x66, 0x03, 0x03, 0x03, 0x66, 0x3C, 0x00], // 0x43 'C'
    [0x1F, 0x36, 0x66, 0x66, 0x66, 0x36, 0x1F, 0x00], // 0x44 'D'
    [0x7F, 0x46, 0x16, 0x1E, 0x16, 0x46, 0x7F, 0x00], // 0x45 'E'
    [0x7F, 0x46, 0x16, 0x1E, 0x16, 0x06, 0x0F, 0x00], // 0x46 'F'
    [0x3C, 0x66, 0x03, 0x03, 0x73, 0x66, 0x7C, 0x00], // 0x47 'G'
    [0x33, 0x33, 0x33, 0x3F, 0x33, 0x33, 0x33, 0x00], // 0x48 'H'
    [0x1E, 0x0C, 0x0C, 0x0C, 0x0C, 0x0C, 0x1E, 0x00], // 0x49 'I'
    [0x78, 0x30, 0x30, 0x30, 0x33, 0x33, 0x1E, 0x00], // 0x4A 'J'
    [0x67, 0x66, 0x36, 0x1E, 0x36, 0x66, 0x67, 0x00], // 0x4B 'K'
    [0x0F, 0x06, 0x06, 0x06, 0x46, 0x66, 0x7F, 0x00], // 0x4C 'L'
    [0x63, 0x77, 0x7F, 0x7F, 0x6B, 0x63, 0x63, 0x00], // 0x4D 'M'
    [0x63, 0x67, 0x6F, 0x7B, 0x73, 0x63, 0x63, 0x00], // 0x4E 'N'
    [0x1C, 0x36, 0x63, 0x63, 0x63, 0x36, 0x1C, 0x00], // 0x4F 'O'
    [0x3F, 0x66, 0x66, 0x3E, 0x06, 0x06, 0x0F, 0x00], // 0x50 'P'
    [0x1E, 0x33, 0x33, 0x33, 0x3B, 0x1E, 0x38, 0x00], // 0x51 'Q'
    [0x3F, 0x66, 0x66, 0x3E, 0x36, 0x66, 0x67, 0x00], // 0x52 'R'
    [0x1E, 0x33, 0x07, 0x0E, 0x38, 0x33, 0x1E, 0x00], // 0x53 'S'
    [0x3F, 0x2D, 0x0C, 0x0C, 0x0C, 0x0C, 0x1E, 0x00], // 0x54 'T'
    [0x33, 0x33, 0x33, 0x33, 0x33, 0x33, 0x3F, 0x00], // 0x55 'U'
    [0x33, 0x33, 0x33, 0x33, 0x33, 0x1E, 0x0C, 0x00], // 0x56 'V'
    [0x63, 0x63, 0x63, 0x6B, 0x7F, 0x77, 0x63, 0x00], // 0x57 'W'
    [0x63, 0x63, 0x36, 0x1C, 0x1C, 0x36, 0x63, 0x00], // 0x58 'X'
    [0x33, 0x33, 0x33, 0x1E, 0x0C, 0x0C, 0x1E, 0x00], // 0x59 'Y'
    [0x7F, 0x63, 0x31, 0x18, 0x4C, 0x66, 0x7F, 0x00], // 0x5A 'Z'
    [0x1E, 0x06, 0x06, 0x06, 0x06, 0x06, 0x1E, 0x00], // 0x5B '['
    [0x03, 0x06, 0x0C, 0x18, 0x30, 0x60, 0x40, 0x00], // 0x5C '\\'
    [0x1E, 0x18, 0x18, 0x18, 0x18, 0x18, 0x1E, 0x00], // 0x5D ']'
    [0x08, 0x1C, 0x36, 0x63, 0x00, 0x00, 0x00, 0x00], // 0x5E '^'
    [0x00, 0x00, 0x00, 0x00, 0x00, 0x00, 0x00, 0xFF], // 0x5F '_'
    [0x0C, 0x0C, 0x18, 0x00, 0x00, 0x00, 0x00, 0x00], // 0x60 '`'
    [0x00, 0x00, 0x1E, 0x30, 0x3E, 0x33, 0x6E, 0x00], // 0x61 'a'
    [0x07, 0x06, 0x06, 0x3E, 0x66, 0x66, 0x3B, 0x00], // 0x62 'b'
    [0x00, 0x00, 0x1E, 0x33, 0x03, 0x33, 0x1E, 0x00], // 0x63 'c'
    [0x38, 0x30, 0x30, 0x3e, 0x33, 0x33, 0x6E, 0x00], // 0x64 'd'
    [0x00, 0x00, 0x1E, 0x33, 0x3f, 0x03, 0x1E, 0x00], // 0x65 'e'
    [0x1C, 0x36, 0x06, 0x0f, 0x06, 0x06, 0x0F, 0x00], // 0x66 'f'
    [0x00, 0x00, 0x6E, 0x33, 0x33, 0x3E, 0x30, 0x1F], // 0x67 'g'
    [0x07, 0x06, 0x36, 0x6E, 0x66, 0x66, 0x67, 0x00], // 0x68 'h'
    [0x0C, 0x00, 0x0E, 0x0C, 0x0C, 0x0C, 0x1E, 0x00], // 0x69 'i'
    [0x30, 0x00, 0x30, 0x30, 0x30, 0x33, 0x33, 0x1E], // 0x6A 'j'
    [0x07, 0x06, 0x66, 0x36, 0x1E, 0x36, 0x67, 0x00], // 0x6B 'k'
    [0x0E, 0x0C, 0x0C, 0x0C, 0x0C, 0x0C, 0x1E, 0x00], // 0x6C 'l'
    [0x00, 0x00, 0x33, 0x7F, 0x7F, 0x6B, 0x63, 0x00], // 0x6D 'm'
    [0x00, 0x00, 0x1F, 0x33, 0x33, 0x33, 0x33, 0x00], // 0x6E 'n'
    [0x00, 0x00, 0x1E, 0x33, 0x33, 0x33, 0x1E, 0x00], // 0x6F 'o'
    [0x00, 0x00, 0x3B, 0x66, 0x66, 0x3E, 0x06, 0x0F], // 0x70 'p'
    [0x00, 0x00, 0x6E, 0x33, 0x33, 0x3E, 0x30, 0x78], // 0x71 'q'
    [0x00, 0x00, 0x3B, 0x6E, 0x66, 0x06, 0x0F, 0x00], // 0x72 'r'
    [0x00, 0x00, 0x3E, 0x03, 0x1E, 0x30, 0x1F, 0x00], // 0x73 's'
    [0x08, 0x0C, 0x3E, 0x0C, 0x0C, 0x2C, 0x18, 0x00], // 0x74 't'
    [0x00, 0x00, 0x33, 0x33, 0x33, 0x33, 0x6E, 0x00], // 0x75 'u'
    [0x00, 0x00, 0x33, 0x33, 0x33, 0x1E, 0x0C, 0x00], // 0x76 'v'
    [0x00, 0x00, 0x63, 0x6B, 0x7F, 0x7F, 0x36, 0x00], // 0x77 'w'
    [0x00, 0x00, 0x63, 0x36, 0x1C, 0x36, 0x63, 0x00], // 0x78 'x'
    [0x00, 0x00, 0x33, 0x33, 0x33, 0x3E, 0x30, 0x1F], // 0x79 'y'
    [0x00, 0x00, 0x3F, 0x19, 0x0C, 0x26, 0x3F, 0x00], // 0x7A 'z'
    [0x38, 0x0C, 0x0C, 0x07, 0x0C, 0x0C, 0x38, 0x00], // 0x7B '{'
    [0x18, 0x18, 0x18, 0x00, 0x18, 0x18, 0x18, 0x00], // 0x7C '|'
    [0x07, 0x0C, 0x0C, 0x38, 0x0C, 0x0C, 0x07, 0x00], // 0x7D '}'
    [0x6E, 0x3B, 0x00, 0x00, 0x00, 0x00, 0x00, 0x00], // 0x7E '~'
];

/// Code point of the first glyph of the font.
pub const FIRST_GLYPH: u32 = 0x20;

/// Index of the glyph for `ch`: printable ASCII is itself, anything else is
/// the question mark.
pub open spec fn glyph_index(ch: char) -> int {
    if 0x20 <= ch as u32 <= 0x7E {
        ch as u32 - FIRST_GLYPH
    } else {
        0x3F - FIRST_GLYPH
    }
}

/// Glyph bitmap for `ch`: printable ASCII renders itself; anything else falls
/// back to `?`.
pub fn glyph(ch: char) -> (r: [u8; 8])
    ensures
        r == FONT8X8@[glyph_index(ch)],
{
    let code: u32 = ch as u32;
    let index: u32 = if FIRST_GLYPH <= code && code <= 0x7E {
        code - FIRST_GLYPH
    } else {
        0x3F - FIRST_GLYPH
    };
    FONT8X8[index as usize]
}

/// Scale applied to every font pixel.
pub const UI_SCALE: u32 = 2;

/// Glyph cell advance in pixels.
pub const GLYPH_W: u32 = 16;

/// Glyph height in pixels.
pub const GLYPH_H: u32 = 16;

/// Horizontal padding between the pill edge and the first and last chip.
pub const PILL_PAD_X: u32 = 24;

/// Vertical padding between the pill edge and the text.
pub const PILL_PAD_Y: u32 = 12;

/// Horizontal padding inside a chip, each side of its text.
pub const TAB_PAD_X: u32 = 16;

/// Gap between chips.
pub const TAB_GAP: u32 = 8;

/// Chip vertical inset inside the pill.
pub const CHIP_INSET_Y: u32 = 6;

/// Pill corner radius.
pub const PILL_RADIUS: u32 = 20;

/// Distance between the frame's top edge and the pill's.
pub const TOP_MARGIN: u32 = 48;

/// Pill height: one glyph row plus vertical padding.
pub const PILL_H: u32 = 40;

/// Pill background blend alpha.
pub const PILL_ALPHA: u8 = 190;

/// Active-tab chip blend alpha.
pub const CHIP_ALPHA: u8 = 46;

/// Pill background: near-black.
pub open spec fn pill_color_spec() -> Rgb {
    Rgb { r: 0x12, g: 0x12, b: 0x16 }
}

/// Pill background: near-black.
pub fn pill_color() -> (r: Rgb)
    ensures
        r == pill_color_spec(),
{
    Rgb { r: 0x12, g: 0x12, b: 0x16 }
}

/// Active-tab chip: white.
pub open spec fn chip_color_spec() -> Rgb {
    Rgb { r: 0xff, g: 0xff, b: 0xff }
}

/// Active-tab chip: white.
pub fn chip_color() -> (r: Rgb)
    ensures
        r == chip_color_spec(),
{
    Rgb { r: 0xff, g: 0xff, b: 0xff }
}

/// Text on an active tab.
pub open spec fn text_active_spec() -> Rgb {
    Rgb { r: 0xf2, g: 0xf2, b: 0xf2 }
}

/// Text on an active tab.
pub fn text_active() -> (r: Rgb)
    ensures
        r == text_active_spec(),
{
    Rgb { r: 0xf2, g: 0xf2, b: 0xf2 }
}

/// Text on an inactive tab.
pub open spec fn text_inactive_spec() -> Rgb {
    Rgb { r: 0xb4, g: 0xb8, b: 0xc0 }
}

/// Text on an inactive tab.
pub fn text_inactive() -> (r: Rgb)
    ensures
        r == text_inactive_spec(),
{
    Rgb { r: 0xb4, g: 0xb8, b: 0xc0 }
}

/// A blend alpha scaled by a global one, rounded to nearest.
pub open spec fn scaled_alpha(alpha: u8, global: u8) -> u8 {
    ((alpha * global + 127) / 255) as u8
}

/// A blend alpha scaled by the pill's global alpha, rounded to nearest.
pub fn scale_alpha(alpha: u8, global: u8) -> (r: u8)
    ensures
        r == scaled_alpha(alpha, global),
{
    proof {
        assert(0 <= alpha * global <= 255 * 255) by (nonlinear_arith)
            requires
                0 <= alpha <= 255,
                0 <= global <= 255,
        ;
    }
    ((alpha as u32 * global as u32 + 127) / 255) as u8
}

/// Scaling by 255 keeps an alpha and scaling by 0 clears it.
pub proof fn lemma_scale_alpha_endpoints(alpha: u8)
    ensures
        scaled_alpha(alpha, 255) == alpha,
        scaled_alpha(alpha, 0) == 0,
{
}

/// Blend pixel `(x, y)` of `buf` toward `color` at `alpha`; the alpha byte is
/// untouched and out-of-bounds coordinates are ignored.
pub fn blend_px(buf: &mut DibBuffer, x: i32, y: i32, color: Rgb, alpha: u8)
    requires
        old(buf).wf(),
    ensures
        final(buf).wf(),
        final(buf).same_shape(*old(buf)),
        forall|x2: int, y2: int, c: int|
            old(buf).has(x2, y2) && 0 <= c < 4 ==> #[trigger] final(buf).chan(x2, y2, c) == (if x2
                == x && y2 == y {
                tinted(old(buf).chan(x2, y2, c), color, alpha, c)
            } else {
                old(buf).chan(x2, y2, c)
            }),
{
    if alpha == 0 || x < 0 || y < 0 || x as i64 >= buf.width as i64 || y as i64 >= buf.height
        as i64 {
        return;
    }
    let px: [u8; 4] = tint(buf.get(x as u32, y as u32), color, alpha);
    buf.put(x as u32, y as u32, px);
}

/// Distance of `p` beyond the straight part of a rounded side that runs from
/// `start` to `end` with corner radius `r`; 0 along the straight part.
pub open spec fn corner_distance(p: int, start: int, end: int, r: int) -> int {
    if p < start + r {
        start + r - p
    } else if p >= end - r {
        p - (end - r) + 1
    } else {
        0
    }
}

/// Whether pixel `(px, py)` lies inside the `w` by `h` rectangle at `(x0, y0)`
/// with corner radius `r`, clamped to half the shorter side.
pub open spec fn in_rounded(px: int, py: int, x0: int, y0: int, w: u32, h: u32, r: u32) -> bool {
    let radius = min(r as int, min(w as int / 2, h as int / 2));
    let dx = corner_distance(px, x0, x0 + w, radius);
    let dy = corner_distance(py, y0, y0 + h, radius);
    x0 <= px < x0 + w && y0 <= py < y0 + h && dx * dx + dy * dy <= radius * radius
}

/// `true` when pixel `(px, py)` lies inside the `w` by `h` rectangle at
/// `(x0, y0)` with corner radius `r`, clamped to half the shorter side.
pub fn rounded_rect_contains(px: i32, py: i32, x0: i32, y0: i32, w: u32, h: u32, r: u32) -> (b:
    bool)
    ensures
        b == in_rounded(px as int, py as int, x0 as int, y0 as int, w, h, r),
{
    let x1: i64 = x0 as i64 + w as i64;
    let y1: i64 = y0 as i64 + h as i64;
    if px < x0 || px as i64 >= x1 || py < y0 || py as i64 >= y1 {
        return false;
    }
    let half: u32 = if w / 2 < h / 2 {
        w / 2
    } else {
        h / 2
    };
    let radius: i64 = if r < half {
        r as i64
    } else {
        half as i64
    };
    let dx: i64 = distance_past(px as i64, x0 as i64, x1, radius);
    let dy: i64 = distance_past(py as i64, y0 as i64, y1, radius);
    proof {
        assert(0 <= dx * dx <= 0x7fff_ffff * 0x7fff_ffff) by (nonlinear_arith)
            requires
                0 <= dx <= 0x7fff_ffff,
        ;
        assert(0 <= dy * dy <= 0x7fff_ffff * 0x7fff_ffff) by (nonlinear_arith)
            requires
                0 <= dy <= 0x7fff_ffff,
        ;
        assert(0 <= radius * radius <= 0x7fff_ffff * 0x7fff_ffff) by (nonlinear_arith)
            requires
                0 <= radius <= 0x7fff_ffff,
        ;
    }
    dx * dx + dy * dy <= radius * radius
}

fn distance_past(p: i64, start: i64, end: i64, r: i64) -> (d: i64)
    requires
        -0x1_0000_0000 <= start <= p < end <= 0x2_0000_0000,
        0 <= r <= 0x7fff_ffff,
        2 * r <= end - start,
    ensures
        d == corner_distance(p as int, start as int, end as int, r as int),
        0 <= d <= r,
{
    if p < start + r {
        start + r - p
    } else if p >= end - r {
        p - (end - r) + 1
    } else {
        0
    }
}

/// Blend the rounded rectangle toward `color` at `alpha`.
fn fill_rounded(
    buf: &mut DibBuffer,
    x0: i32,
    y0: i32,
    w: u32,
    h: u32,
    r: u32,
    color: Rgb,
    alpha: u8,
)
    requires
        old(buf).wf(),
        0 <= x0,
        0 <= y0,
        x0 + w <= old(buf).width,
        y0 + h <= old(buf).height,
        y0 + h <= i32::MAX,
    ensures
        final(buf).wf(),
        final(buf).same_shape(*old(buf)),
        forall|x: int, y: int, c: int|
            old(buf).has(x, y) && 0 <= c < 4 ==> #[trigger] final(buf).chan(x, y, c) == (
            if in_rounded(x, y, x0 as int, y0 as int, w, h, r) {
                tinted(old(buf).chan(x, y, c), color, alpha, c)
            } else {
                old(buf).chan(x, y, c)
            }),
{
    let x1: i32 = x0 + w as i32;
    let y1: i32 = y0 + h as i32;
    let mut y: i32 = y0;
    while y < y1
        invariant
            buf.wf(),
            buf.same_shape(*old(buf)),
            0 <= x0 <= x1,
            0 <= y0 <= y <= y1,
            x1 == x0 + w,
            y1 == y0 + h,
            x1 <= buf.width,
            y1 <= buf.height,
            forall|px: int, py: int, c: int|
                old(buf).has(px, py) && 0 <= c < 4 ==> #[trigger] buf.chan(px, py, c) == (if py < y
                    && in_rounded(px, py, x0 as int, y0 as int, w, h, r) {
                    tinted(old(buf).chan(px, py, c), color, alpha, c)
                } else {
                    old(buf).chan(px, py, c)
                }),
        decreases y1 - y,
    {
        let mut x: i32 = x0;
        while x < x1
            invariant
                buf.wf(),
                buf.same_shape(*old(buf)),
                0 <= x0 <= x <= x1,
                0 <= y0 <= y < y1,
                x1 == x0 + w,
                y1 == y0 + h,
                x1 <= buf.width,
                y1 <= buf.height,
                forall|px: int, py: int, c: int|
                    old(buf).has(px, py) && 0 <= c < 4 ==> #[trigger] buf.chan(px, py, c) == (if (py
                        < y || py == y && px < x) && in_rounded(
                        px,
                        py,
                        x0 as int,
                        y0 as int,
                        w,
                        h,
                        r,
                    ) {
                        tinted(old(buf).chan(px, py, c), color, alpha, c)
                    } else {
                        old(buf).chan(px, py, c)
                    }),
            decreases x1 - x,
        {
            if rounded_rect_contains(x, y, x0, y0, w, h, r) {
                blend_px(buf, x, y, color, alpha);
            }
            x += 1;
        }
        y += 1;
    }
}

/// Whether bit `k` of a glyph row is set.
pub open spec fn row_bit(row: u8, k: u8) -> bool {
    row >> k & 1 == 1
}

/// Whether `text`, drawn with its top-left corner at `(tx, ty)`, covers pixel
/// `(x, y)`: each character is one cell of doubled font pixels.
pub open spec fn text_covers(text: Seq<char>, tx: int, ty: int, x: int, y: int) -> bool {
    let col = x - tx;
    let row = y - ty;
    &&& 0 <= row < GLYPH_H
    &&& 0 <= col < text.len() * GLYPH_W
    &&& row_bit(
        FONT8X8@[glyph_index(text[col / GLYPH_W as int])]@[row / UI_SCALE as int],
        (col % GLYPH_W as int / UI_SCALE as int) as u8,
    )
}

/// Blend the pixel `(x, y)` toward `color` at `alpha`; nothing happens outside
/// the buffer.
fn blend_at(buf: &mut DibBuffer, x: i128, y: i128, color: Rgb, alpha: u8)
    requires
        old(buf).wf(),
    ensures
        final(buf).wf(),
        final(buf).same_shape(*old(buf)),
        forall|x2: int, y2: int, c: int|
            old(buf).has(x2, y2) && 0 <= c < 4 ==> #[trigger] final(buf).chan(x2, y2, c) == (if x2
                == x && y2 == y {
                tinted(old(buf).chan(x2, y2, c), color, alpha, c)
            } else {
                old(buf).chan(x2, y2, c)
            }),
{
    if x < 0 || y < 0 || x >= buf.width as i128 || y >= buf.height as i128 {
        return;
    }
    let px: [u8; 4] = tint(buf.get(x as u32, y as u32), color, alpha);
    buf.put(x as u32, y as u32, px);
}

/// Draw `text` with its top-left corner at `(x, y)`, blended toward `color` at
/// `alpha`. Whatever lies outside the buffer is left out.
pub fn draw_text(buf: &mut DibBuffer, x: i32, y: i32, text: &str, color: Rgb, alpha: u8)
    requires
        old(buf).wf(),
    ensures
        final(buf).wf(),
        final(buf).same_shape(*old(buf)),
        forall|px: int, py: int, c: int|
            old(buf).has(px, py) && 0 <= c < 4 ==> #[trigger] final(buf).chan(px, py, c) == (
            if text_covers(text@, x as int, y as int, px, py) {
                tinted(old(buf).chan(px, py, c), color, alpha, c)
            } else {
                old(buf).chan(px, py, c)
            }),
{
    let chars: Vec<char> = chars_of(text);
    let mut row: u8 = 0;
    while row < 16
        invariant
            buf.wf(),
            buf.same_shape(*old(buf)),
            chars@ == text@,
            row <= 16,
            forall|px: int, py: int, c: int|
                old(buf).has(px, py) && 0 <= c < 4 ==> #[trigger] buf.chan(px, py, c) == (if py < y
                    + row && text_covers(text@, x as int, y as int, px, py) {
                    tinted(old(buf).chan(px, py, c), color, alpha, c)
                } else {
                    old(buf).chan(px, py, c)
                }),
        decreases 16 - row,
    {
        let mut i: usize = 0;
        while i < chars.len()
            invariant
                buf.wf(),
                buf.same_shape(*old(buf)),
                chars@ == text@,
                row < 16,
                i <= chars@.len(),
                forall|px: int, py: int, c: int|
                    old(buf).has(px, py) && 0 <= c < 4 ==> #[trigger] buf.chan(px, py, c) == (if (py
                        < y + row || py == y + row && px < x + 16 * i) && text_covers(
                        text@,
                        x as int,
                        y as int,
                        px,
                        py,
                    ) {
                        tinted(old(buf).chan(px, py, c), color, alpha, c)
                    } else {
                        old(buf).chan(px, py, c)
                    }),
            decreases chars@.len() - i,
        {
            let rows: [u8; 8] = glyph(chars[i]);
            let bits: u8 = rows[(row / 2) as usize];
            let mut k: u8 = 0;
            while k < 16
                invariant
                    buf.wf(),
                    buf.same_shape(*old(buf)),
                    chars@ == text@,
                    row < 16,
                    i < chars@.len(),
                    k <= 16,
                    bits == FONT8X8@[glyph_index(text@[i as int])]@[row as int / 2],
                    forall|px: int, py: int, c: int|
                        old(buf).has(px, py) && 0 <= c < 4 ==> #[trigger] buf.chan(px, py, c) == (
                        if (py < y + row || py == y + row && px < x + 16 * i + k) && text_covers(
                            text@,
                            x as int,
                            y as int,
                            px,
                            py,
                        ) {
                            tinted(old(buf).chan(px, py, c), color, alpha, c)
                        } else {
                            old(buf).chan(px, py, c)
                        }),
                decreases 16 - k,
            {
                let half: u8 = k / 2;
                if bits >> half & 1 == 1 {
                    blend_at(
                        buf,
                        x as i128 + 16 * i as i128 + k as i128,
                        y as i128 + row as i128,
                        color,
                        alpha,
                    );
                }
                proof {
                    let (px, py) = (x + 16 * i + k, y + row);
                    assert((px - x) / 16 == i && (px - x) % 16 == k);
                    assert(px - x < text@.len() * GLYPH_W);
                    assert(text_covers(text@, x as int, y as int, px, py) == row_bit(bits, half));
                }
                k += 1;
            }
            i += 1;
        }
        proof {
            assert forall|px: int, py: int| py == y + row && px >= x + 16 * text@.len() implies
                !#[trigger] text_covers(text@, x as int, y as int, px, py) by {}
        }
        row += 1;
    }
}

/// One legend tab: a mode's display name and the hotkey that reaches it.
pub struct LegendTab {
    pub name: String,
    pub hotkey: String,
}

impl LegendTab {
    /// The tab's text: `NAME (HOTKEY)`.
    pub open spec fn label(self) -> Seq<char> {
        self.name@ + " ("@ + self.hotkey@ + ")"@
    }
}

/// Chip width of a text: one cell per character plus padding.
pub open spec fn chip_width(text: Seq<char>) -> int {
    text.len() * GLYPH_W + 2 * TAB_PAD_X
}

/// Distance from the pill's left edge to chip `i`.
pub open spec fn chip_offset(texts: Seq<Seq<char>>, i: int) -> int
    decreases i,
{
    if i <= 0 {
        PILL_PAD_X as int
    } else {
        chip_offset(texts, i - 1) + chip_width(texts[i - 1]) + TAB_GAP
    }
}

/// Pill width: both paddings, the chips, and the gaps between them.
pub open spec fn pill_width_of(texts: Seq<Seq<char>>) -> int {
    if texts.len() == 0 {
        2 * PILL_PAD_X as int
    } else {
        chip_offset(texts, texts.len() as int) - TAB_GAP + PILL_PAD_X
    }
}

pub(crate) proof fn lemma_chip_offsets(texts: Seq<Seq<char>>, i: int, j: int)
    requires
        0 <= i <= j <= texts.len(),
    ensures
        PILL_PAD_X <= chip_offset(texts, i) <= chip_offset(texts, j),
        i < j ==> chip_offset(texts, i) + chip_width(texts[i]) + TAB_GAP <= chip_offset(texts, j),
    decreases j,
{
    if 0 < j {
        assert(0 <= texts[j - 1].len() * GLYPH_W);
        if i < j {
            lemma_chip_offsets(texts, i, j - 1);
        } else {
            lemma_chip_offsets(texts, i - 1, j - 1);
        }
    }
}

/// The tab texts of a freeze session.
pub open spec fn hotkey_texts(h: HotkeySettings) -> Seq<Seq<char>> {
    seq![
        "SPOTLIGHT"@ + " ("@ + h.mode_spotlight.shown() + ")"@,
        "ZOOM"@ + " ("@ + h.zoom_hold.shown() + ")"@,
        "SNIP"@ + " ("@ + h.mode_snip.shown() + ")"@,
    ]
}

/// The texts of some tabs, in display order.
pub open spec fn labels_of(tabs: Seq<LegendTab>) -> Seq<Seq<char>> {
    Seq::new(tabs.len(), |i: int| tabs[i].label())
}

/// The freeze-time legend: tab texts and layout metrics, computed once.
pub struct Legend {
    /// Rendered tab texts, in display order.
    pub tabs: Vec<String>,
    /// Pixel width of each tab's chip, parallel to `tabs`.
    pub chip_widths: Vec<u32>,
    /// Total pill width in pixels.
    pub pill_width: u32,
}

impl Legend {
    /// The tabs' texts.
    pub open spec fn texts(self) -> Seq<Seq<char>> {
        Seq::new(self.tabs@.len(), |i: int| self.tabs@[i]@)
    }

    /// The metrics are those of the texts.
    pub open spec fn wf(self) -> bool {
        &&& self.chip_widths@.len() == self.tabs@.len()
        &&& self.pill_width == pill_width_of(self.texts())
        &&& forall|i: int|
            0 <= i < self.tabs@.len() ==> #[trigger] self.chip_widths@[i] == chip_width(
                self.tabs@[i]@,
            )
    }

    /// The legend of a freeze session: one tab per mode in the fixed
    /// Spotlight, Zoom, Snip order, labelled with its binding.
    pub fn from_hotkeys(hotkeys: &HotkeySettings) -> (r: Self)
        ensures
            r.wf(),
            r.texts() == hotkey_texts(*hotkeys),
    {
        proof {
            lemma_shown_len(hotkeys.mode_spotlight);
            lemma_shown_len(hotkeys.zoom_hold);
            lemma_shown_len(hotkeys.mode_snip);
            reveal_strlit("SPOTLIGHT");
            reveal_strlit("ZOOM");
            reveal_strlit("SNIP");
            reveal_strlit(" (");
            reveal_strlit(")");
        }
        let tabs: [LegendTab; 3] = [
            Self::tab("SPOTLIGHT", &hotkeys.mode_spotlight),
            Self::tab("ZOOM", &hotkeys.zoom_hold),
            Self::tab("SNIP", &hotkeys.mode_snip),
        ];
        proof {
            let texts = labels_of(tabs@);
            assert(texts.len() == 3);
            assert(forall|i: int| 0 <= i < 3 ==> (#[trigger] texts[i]).len() <= 42);
            assert(chip_offset(texts, 0) == PILL_PAD_X);
            assert(chip_offset(texts, 1) == chip_offset(texts, 0) + chip_width(texts[0]) + TAB_GAP);
            assert(chip_offset(texts, 2) == chip_offset(texts, 1) + chip_width(texts[1]) + TAB_GAP);
            assert(chip_offset(texts, 3) == chip_offset(texts, 2) + chip_width(texts[2]) + TAB_GAP);
        }
        let r = Self::new(&tabs);
        proof {
            assert(r.texts() =~= seq![tabs@[0].label(), tabs@[1].label(), tabs@[2].label()]);
        }
        r
    }

    fn tab(name: &str, gesture: &HotkeyGesture) -> (r: LegendTab)
        ensures
            r.name@ == name@,
            r.hotkey@ == gesture.shown(),
    {
        LegendTab { name: name.to_owned(), hotkey: gesture.to_display() }
    }

    /// Tabs in display order; each renders as `NAME (HOTKEY)`.
    pub fn new(tabs: &[LegendTab]) -> (r: Self)
        requires
            pill_width_of(labels_of(tabs@)) <= u32::MAX,
        ensures
            r.wf(),
            r.texts() == labels_of(tabs@),
    {
        let ghost labels = labels_of(tabs@);
        let mut texts: Vec<String> = Vec::new();
        let mut chip_widths: Vec<u32> = Vec::new();
        let mut total: u32 = PILL_PAD_X;
        let mut i: usize = 0;
        while i < tabs.len()
            invariant
                i <= tabs@.len(),
                labels == labels_of(tabs@),
                pill_width_of(labels) <= u32::MAX,
                texts@.len() == i,
                chip_widths@.len() == i,
                forall|k: int| 0 <= k < i ==> (#[trigger] texts@[k])@ == labels[k],
                forall|k: int|
                    0 <= k < i ==> #[trigger] chip_widths@[k] == chip_width(labels[k]),
                total == chip_offset(labels, i as int) - (if i == 0 {
                    0
                } else {
                    TAB_GAP as int
                }),
            decreases tabs@.len() - i,
        {
            let mut text: String = tabs[i].name.clone();
            push_text(&mut text, " (");
            push_text(&mut text, tabs[i].hotkey.as_str());
            push_text(&mut text, ")");
            proof {
                assert(text@ == labels[i as int]);
                lemma_chip_offsets(labels, i as int, labels.len() as int);
                lemma_chip_offsets(labels, i + 1, labels.len() as int);
            }
            let width: u32 = chars_of(text.as_str()).len() as u32 * GLYPH_W + 2 * TAB_PAD_X;
            if i > 0 {
                total += TAB_GAP;
            }
            total += width;
            texts.push(text);
            chip_widths.push(width);
            i += 1;
        }
        let r = Self { tabs: texts, chip_widths, pill_width: total + PILL_PAD_X };
        proof {
            assert(r.texts() =~= labels);
        }
        r
    }

    /// `(width, height)` of the pill in pixels.
    pub fn size(&self) -> (r: (u32, u32))
        ensures
            r == (self.pill_width, PILL_H),
    {
        (self.pill_width, PILL_H)
    }

    /// Whether tab `i` is highlighted: missing flags read as inactive.
    pub open spec fn is_on(active: Seq<bool>, i: int) -> bool {
        i < active.len() && active[i]
    }

    /// A channel value after tabs `0..n` were drawn over `v`, the pill's
    /// top-left corner being `(x0, y0)`: for each tab the chip when it is
    /// active, then its text.
    pub open spec fn tabs_chan(
        self,
        n: int,
        x0: int,
        y0: int,
        active: Seq<bool>,
        alpha: u8,
        v: u8,
        x: int,
        y: int,
        c: int,
    ) -> u8
        decreases n,
    {
        if n <= 0 {
            v
        } else {
            let i = n - 1;
            let text = self.texts()[i];
            let left = x0 + chip_offset(self.texts(), i);
            let under = self.tabs_chan(i, x0, y0, active, alpha, v, x, y, c);
            let chip = if Legend::is_on(active, i) && in_rounded(
                x,
                y,
                left,
                y0 + CHIP_INSET_Y,
                chip_width(text) as u32,
                (PILL_H - 2 * CHIP_INSET_Y) as u32,
                ((PILL_H - 2 * CHIP_INSET_Y) / 2) as u32,
            ) {
                tinted(under, chip_color_spec(), scaled_alpha(CHIP_ALPHA, alpha), c)
            } else {
                under
            };
            if text_covers(text, left + TAB_PAD_X, y0 + PILL_PAD_Y, x, y) {
                tinted(
                    chip,
                    if Legend::is_on(active, i) {
                        text_active_spec()
                    } else {
                        text_inactive_spec()
                    },
                    alpha,
                    c,
                )
            } else {
                chip
            }
        }
    }

    /// A channel value after the pill was painted over `v` with its top-left
    /// corner at `(x0, y0)`.
    pub open spec fn pill_chan(
        self,
        x0: int,
        y0: int,
        active: Seq<bool>,
        alpha: u8,
        v: u8,
        x: int,
        y: int,
        c: int,
    ) -> u8 {
        let body = if in_rounded(x, y, x0, y0, self.pill_width, PILL_H, PILL_RADIUS) {
            tinted(v, pill_color_spec(), scaled_alpha(PILL_ALPHA, alpha), c)
        } else {
            v
        };
        self.tabs_chan(self.tabs@.len() as int, x0, y0, active, alpha, body, x, y, c)
    }

    /// Whether painting into a `width` by `height` frame changes anything.
    pub open spec fn paints(self, width: u32, height: u32, alpha: u8) -> bool {
        alpha != 0 && self.tabs@.len() > 0 && self.pill_width <= width && PILL_H <= height
    }

    /// Left edge of the pill: centered.
    pub open spec fn left_edge(self, width: u32) -> int {
        (width - self.pill_width) / 2
    }

    /// Top edge of the pill: below the margin where there is room for it.
    pub open spec fn top_edge(height: u32) -> int {
        min(TOP_MARGIN as int, height - PILL_H)
    }

    /// Whether `after` is the frame `before` with the pill painted on it.
    pub open spec fn painted(
        self,
        before: DibBuffer,
        active: Seq<bool>,
        alpha: u8,
        after: DibBuffer,
    ) -> bool {
        &&& after.wf()
        &&& after.same_shape(before)
        &&& forall|x: int, y: int, c: int|
            before.has(x, y) && 0 <= c < 4 ==> #[trigger] after.chan(x, y, c) == (if self.paints(
                before.width,
                before.height,
                alpha,
            ) {
                self.pill_chan(
                    self.left_edge(before.width),
                    Legend::top_edge(before.height),
                    active,
                    alpha,
                    before.chan(x, y, c),
                    x,
                    y,
                    c,
                )
            } else {
                before.chan(x, y, c)
            })
    }

    /// Whether `full` has one flag per tab and says of each what `active` says,
    /// a missing flag reading as inactive.
    pub open spec fn same_flags(self, active: Seq<bool>, full: Seq<bool>) -> bool {
        &&& full.len() == self.tabs@.len()
        &&& forall|i: int|
            0 <= i < full.len() ==> #[trigger] full[i] == (i < active.len() && active[i])
    }

    /// Paint the pill centered horizontally near the top of `buf`. `active[i]`
    /// highlights tab `i`; a missing flag reads as inactive and a surplus one is
    /// ignored. `alpha` scales the whole pill. Frames smaller than the pill are
    /// skipped.
    pub fn paint(&self, buf: &mut DibBuffer, active: &[bool], alpha: u8)
        requires
            self.wf(),
            old(buf).wf(),
        ensures
            self.painted(*old(buf), active@, alpha, *final(buf)),
            forall|full: Seq<bool>| #[trigger]
                self.same_flags(active@, full) ==> self.painted(
                    *old(buf),
                    full,
                    alpha,
                    *final(buf),
                ),
    {
        let (pw, ph): (u32, u32) = self.size();
        if alpha == 0 || self.tabs.len() == 0 || pw > buf.width || ph > buf.height {
            return;
        }
        self.paint_pill(buf, active, alpha);
        proof {
            assert forall|full: Seq<bool>| #[trigger] self.same_flags(
                active@,
                full,
            ) implies self.painted(*old(buf), full, alpha, *buf) by {
                lemma_flags_are_padded(*self, *old(buf), active@, full, alpha, *buf);
            }
        }
    }

    /// Paint the pill on a frame it fits.
    fn paint_pill(&self, buf: &mut DibBuffer, active: &[bool], alpha: u8)
        requires
            self.wf(),
            old(buf).wf(),
            self.paints(old(buf).width, old(buf).height, alpha),
        ensures
            self.painted(*old(buf), active@, alpha, *final(buf)),
    {
        let (pw, ph): (u32, u32) = self.size();
        let x0: i32 = ((buf.width - pw) / 2) as i32;
        let slack: u32 = buf.height - ph;
        let y0: i32 = if TOP_MARGIN < slack {
            TOP_MARGIN as i32
        } else {
            slack as i32
        };
        let ghost before = *buf;
        let pill_alpha: u8 = scale_alpha(PILL_ALPHA, alpha);
        fill_rounded(buf, x0, y0, pw, ph, PILL_RADIUS, pill_color(), pill_alpha);
        let ghost body = *buf;
        let mut chip_x: i32 = x0 + PILL_PAD_X as i32;
        let mut i: usize = 0;
        proof {
            lemma_chip_offsets(self.texts(), 0, self.tabs@.len() as int);
        }
        while i < self.tabs.len()
            invariant
                self.wf(),
                buf.wf(),
                before.wf(),
                buf.same_shape(before),
                pw == self.pill_width,
                i <= self.tabs@.len(),
                0 <= x0,
                0 <= y0 <= TOP_MARGIN,
                x0 + pw <= buf.width,
                y0 + PILL_H <= buf.height,
                chip_x == x0 + chip_offset(self.texts(), i as int),
                chip_x <= x0 + pw,
                forall|x: int, y: int, c: int|
                    before.has(x, y) && 0 <= c < 4 ==> #[trigger] buf.chan(x, y, c)
                        == self.tabs_chan(
                        i as int,
                        x0 as int,
                        y0 as int,
                        active@,
                        alpha,
                        body.chan(x, y, c),
                        x,
                        y,
                        c,
                    ),
            decreases self.tabs@.len() - i,
        {
            let cw: u32 = self.chip_widths[i];
            proof {
                lemma_chip_offsets(self.texts(), i as int, self.tabs@.len() as int);
                lemma_chip_offsets(self.texts(), i + 1, self.tabs@.len() as int);
                assert(self.texts()[i as int] == self.tabs@[i as int]@);
                assert(cw == chip_width(self.tabs@[i as int]@));
            }
            let on: bool = i < active.len() && active[i];
            if on {
                let chip_alpha: u8 = scale_alpha(CHIP_ALPHA, alpha);
                let ch: u32 = PILL_H - 2 * CHIP_INSET_Y;
                fill_rounded(
                    buf,
                    chip_x,
                    y0 + CHIP_INSET_Y as i32,
                    cw,
                    ch,
                    ch / 2,
                    chip_color(),
                    chip_alpha,
                );
            }
            let color: Rgb = if on {
                text_active()
            } else {
                text_inactive()
            };
            draw_text(
                buf,
                chip_x + TAB_PAD_X as i32,
                y0 + PILL_PAD_Y as i32,
                self.tabs[i].as_str(),
                color,
                alpha,
            );
            chip_x += (cw + TAB_GAP) as i32;
            i += 1;
        }
    }
}

/// Nothing outside the pill's rectangle is painted, and no alpha byte changes.
pub proof fn lemma_paint_stays_in_pill(
    legend: Legend,
    x0: int,
    y0: int,
    active: Seq<bool>,
    alpha: u8,
    v: u8,
    x: int,
    y: int,
    c: int,
)
    requires
        legend.wf(),
        !(x0 <= x < x0 + legend.pill_width && y0 <= y < y0 + PILL_H) || c == 3,
    ensures
        legend.pill_chan(x0, y0, active, alpha, v, x, y, c) == v,
{
    lemma_tabs_stay_in_pill(
        legend,
        legend.tabs@.len() as int,
        x0,
        y0,
        active,
        alpha,
        v,
        x,
        y,
        c,
    );
}

proof fn lemma_tabs_stay_in_pill(
    legend: Legend,
    n: int,
    x0: int,
    y0: int,
    active: Seq<bool>,
    alpha: u8,
    v: u8,
    x: int,
    y: int,
    c: int,
)
    requires
        legend.wf(),
        0 <= n <= legend.tabs@.len(),
        !(x0 <= x < x0 + legend.pill_width && y0 <= y < y0 + PILL_H) || c == 3,
    ensures
        legend.tabs_chan(n, x0, y0, active, alpha, v, x, y, c) == v,
    decreases n,
{
    if n > 0 {
        lemma_tabs_stay_in_pill(legend, n - 1, x0, y0, active, alpha, v, x, y, c);
        lemma_chip_offsets(legend.texts(), n - 1, legend.tabs@.len() as int);
        lemma_chip_offsets(legend.texts(), n, legend.tabs@.len() as int);
        assert(legend.texts()[n - 1] == legend.tabs@[n - 1]@);
        assert(legend.chip_widths@[n - 1] == chip_width(legend.tabs@[n - 1]@));
    }
}

/// Every tab's chip lies inside the pill, clear of its side paddings, and
/// chips do not overlap.
pub proof fn lemma_chips_are_disjoint(legend: Legend, i: int, j: int)
    requires
        legend.wf(),
        0 <= i < j < legend.tabs@.len(),
    ensures
        PILL_PAD_X <= chip_offset(legend.texts(), i),
        chip_offset(legend.texts(), i) + chip_width(legend.texts()[i]) + TAB_GAP <= chip_offset(
            legend.texts(),
            j,
        ),
        chip_offset(legend.texts(), j) + chip_width(legend.texts()[j]) + PILL_PAD_X
            <= legend.pill_width,
{
    lemma_chip_offsets(legend.texts(), i, j);
    lemma_chip_offsets(legend.texts(), j, legend.tabs@.len() as int);
}

/// Legends with the same texts have the same size and paint the same pixels.
pub proof fn lemma_texts_decide(
    a: Legend,
    b: Legend,
    width: u32,
    height: u32,
    active: Seq<bool>,
    alpha: u8,
    v: u8,
    x: int,
    y: int,
    c: int,
)
    requires
        a.wf(),
        b.wf(),
        a.texts() == b.texts(),
    ensures
        a.pill_width == b.pill_width,
        a.paints(width, height, alpha) == b.paints(width, height, alpha),
        a.left_edge(width) == b.left_edge(width),
        a.pill_chan(a.left_edge(width), Legend::top_edge(height), active, alpha, v, x, y, c)
            == b.pill_chan(b.left_edge(width), Legend::top_edge(height), active, alpha, v, x, y, c),
{
    assert(a.texts().len() == a.tabs@.len() && b.texts().len() == b.tabs@.len());
    let x0 = a.left_edge(width);
    let y0 = Legend::top_edge(height);
    let body = if in_rounded(x, y, x0, y0, a.pill_width, PILL_H, PILL_RADIUS) {
        tinted(v, pill_color_spec(), scaled_alpha(PILL_ALPHA, alpha), c)
    } else {
        v
    };
    lemma_tabs_of_same_texts(a, b, a.tabs@.len() as int, x0, y0, active, alpha, body, x, y, c);
}

proof fn lemma_tabs_of_same_texts(
    a: Legend,
    b: Legend,
    n: int,
    x0: int,
    y0: int,
    active: Seq<bool>,
    alpha: u8,
    v: u8,
    x: int,
    y: int,
    c: int,
)
    requires
        a.texts() == b.texts(),
    ensures
        a.tabs_chan(n, x0, y0, active, alpha, v, x, y, c) == b.tabs_chan(
            n,
            x0,
            y0,
            active,
            alpha,
            v,
            x,
            y,
            c,
        ),
    decreases n,
{
    if n > 0 {
        lemma_tabs_of_same_texts(a, b, n - 1, x0, y0, active, alpha, v, x, y, c);
    }
}

/// The legend of a session has the size of, and paints the same frames as, the
/// legend of its three tabs: SPOTLIGHT, ZOOM and SNIP, each with its binding.
pub proof fn lemma_hotkey_legend_is_of_its_tabs(
    h: HotkeySettings,
    tabs: Seq<LegendTab>,
    a: Legend,
    b: Legend,
    before: DibBuffer,
    active: Seq<bool>,
    alpha: u8,
    by_a: DibBuffer,
    by_b: DibBuffer,
)
    requires
        a.wf(),
        b.wf(),
        a.texts() == hotkey_texts(h),
        b.texts() == labels_of(tabs),
        tabs.len() == 3,
        tabs[0].name@ == "SPOTLIGHT"@ && tabs[0].hotkey@ == h.mode_spotlight.shown(),
        tabs[1].name@ == "ZOOM"@ && tabs[1].hotkey@ == h.zoom_hold.shown(),
        tabs[2].name@ == "SNIP"@ && tabs[2].hotkey@ == h.mode_snip.shown(),
        before.wf(),
        a.painted(before, active, alpha, by_a),
        b.painted(before, active, alpha, by_b),
    ensures
        a.texts() == b.texts(),
        a.pill_width == b.pill_width,
        by_a.same_shape(by_b),
        by_a.pixels@ == by_b.pixels@,
{
    assert(hotkey_texts(h) =~= labels_of(tabs));
    assert forall|x: int, y: int, c: int| by_a.has(x, y) && 0 <= c < 4 implies by_a.chan(x, y, c)
        == #[trigger] by_b.chan(x, y, c) by {
        assert(before.has(x, y));
        lemma_texts_decide(
            a,
            b,
            before.width,
            before.height,
            active,
            alpha,
            before.chan(x, y, c),
            x,
            y,
            c,
        );
        assert(by_a.chan(x, y, c) == by_b.chan(x, y, c));
    }
    by_a.lemma_same_bytes(by_b);
}

/// Painting with some flags paints the same frame as painting with one flag per
/// tab: a missing flag reads as inactive, a surplus one is ignored.
pub proof fn lemma_paint_pads_flags(
    legend: Legend,
    before: DibBuffer,
    active: Seq<bool>,
    full: Seq<bool>,
    alpha: u8,
    one: DibBuffer,
    other: DibBuffer,
)
    requires
        before.wf(),
        legend.same_flags(active, full),
        legend.painted(before, active, alpha, one),
        legend.painted(before, full, alpha, other),
    ensures
        one.same_shape(other),
        one.pixels@ == other.pixels@,
{
    lemma_flags_are_padded(legend, before, active, full, alpha, one);
    assert forall|x: int, y: int, c: int| one.has(x, y) && 0 <= c < 4 implies one.chan(x, y, c)
        == #[trigger] other.chan(x, y, c) by {
        assert(before.has(x, y));
        assert(one.chan(x, y, c) == other.chan(x, y, c));
    }
    one.lemma_same_bytes(other);
}

/// A frame painted with some flags is painted with one flag per tab.
proof fn lemma_flags_are_padded(
    legend: Legend,
    before: DibBuffer,
    active: Seq<bool>,
    full: Seq<bool>,
    alpha: u8,
    after: DibBuffer,
)
    requires
        legend.same_flags(active, full),
        legend.painted(before, active, alpha, after),
    ensures
        legend.painted(before, full, alpha, after),
{
    let x0 = legend.left_edge(before.width);
    let y0 = Legend::top_edge(before.height);
    assert forall|x: int, y: int, c: int| before.has(x, y) && 0 <= c < 4 implies #[trigger] after.chan(
        x,
        y,
        c,
    ) == (if legend.paints(before.width, before.height, alpha) {
        legend.pill_chan(x0, y0, full, alpha, before.chan(x, y, c), x, y, c)
    } else {
        before.chan(x, y, c)
    }) by {
        let v = before.chan(x, y, c);
        let body = if in_rounded(x, y, x0, y0, legend.pill_width, PILL_H, PILL_RADIUS) {
            tinted(v, pill_color_spec(), scaled_alpha(PILL_ALPHA, alpha), c)
        } else {
            v
        };
        lemma_tabs_of_padded_flags(
            legend,
            active,
            full,
            legend.tabs@.len() as int,
            x0,
            y0,
            alpha,
            body,
            x,
            y,
            c,
        );
    }
}

proof fn lemma_tabs_of_padded_flags(
    legend: Legend,
    active: Seq<bool>,
    full: Seq<bool>,
    n: int,
    x0: int,
    y0: int,
    alpha: u8,
    v: u8,
    x: int,
    y: int,
    c: int,
)
    requires
        n <= full.len(),
        forall|i: int| 0 <= i < full.len() ==> #[trigger] full[i] == (i < active.len() && active[i]),
    ensures
        legend.tabs_chan(n, x0, y0, active, alpha, v, x, y, c) == legend.tabs_chan(
            n,
            x0,
            y0,
            full,
            alpha,
            v,
            x,
            y,
            c,
        ),
    decreases n,
{
    if n > 0 {
        lemma_tabs_of_padded_flags(legend, active, full, n - 1, x0, y0, alpha, v, x, y, c);
        assert(full[n - 1] == (n - 1 < active.len() && active[n - 1]));
    }
}

} // verus!
