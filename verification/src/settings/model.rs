//! Application settings model: plain data with defaults.
//!
//! Every field has a default, so a settings text may leave any of them out.

use crate::hotkeys::gesture::{HotkeyGesture, Modifiers};
use crate::overlay::factor::{Factor, DEFAULT_MAX_BITS, DEFAULT_STEP_BITS, ONE_BITS};
use crate::text::chars_of;
use vstd::prelude::*;

verus! {

/// An opaque colour.
#[derive(Clone, Copy, PartialEq, Eq, Structural, Hash, Debug)]
pub struct Rgb {
    pub r: u8,
    pub g: u8,
    pub b: u8,
}

/// Value of a hexadecimal digit.
pub open spec fn hex_value(c: char) -> Option<u8> {
    if '0' <= c <= '9' {
        Some((c as u32 - 0x30) as u8)
    } else if 'a' <= c <= 'f' {
        Some((c as u32 - 0x61 + 10) as u8)
    } else if 'A' <= c <= 'F' {
        Some((c as u32 - 0x41 + 10) as u8)
    } else {
        None
    }
}

/// Digit for a value below 16, in capitals.
pub open spec fn hex_digit(v: u8) -> char {
    if v < 10 {
        (v + 0x30) as char
    } else {
        (v - 10 + 0x41) as char
    }
}

fn hex_value_of(c: char) -> (r: Option<u8>)
    ensures
        r == hex_value(c),
{
    if '0' <= c && c <= '9' {
        Some((c as u32 - 0x30) as u8)
    } else if 'a' <= c && c <= 'f' {
        Some((c as u32 - 0x61 + 10) as u8)
    } else if 'A' <= c && c <= 'F' {
        Some((c as u32 - 0x41 + 10) as u8)
    } else {
        None
    }
}

fn hex_digit_of(v: u8) -> (r: char)
    requires
        v < 16,
    ensures
        r == hex_digit(v),
{
    if v < 10 {
        (v + 0x30) as char
    } else {
        (v - 10 + 0x41) as char
    }
}

/// Byte written as two hexadecimal digits.
pub open spec fn hex_byte(hi: char, lo: char) -> Option<u8> {
    match (hex_value(hi), hex_value(lo)) {
        (Some(h), Some(l)) => Some((h * 16 + l) as u8),
        _ => None,
    }
}

fn hex_byte_of(hi: char, lo: char) -> (r: Option<u8>)
    ensures
        r == hex_byte(hi, lo),
{
    match (hex_value_of(hi), hex_value_of(lo)) {
        (Some(h), Some(l)) => Some(h * 16 + l),
        _ => None,
    }
}

impl Rgb {
    /// The colour's byte in a frame's channel `c` (blue, green, red order).
    pub open spec fn chan(self, c: int) -> u8 {
        if c == 0 {
            self.b
        } else if c == 1 {
            self.g
        } else {
            self.r
        }
    }

    /// The colour a `#RRGGBB` text stands for.
    pub open spec fn from_hex(text: Seq<char>) -> Option<Rgb> {
        if text.len() != 7 || text[0] != '#' {
            None
        } else {
            match (
                hex_byte(text[1], text[2]),
                hex_byte(text[3], text[4]),
                hex_byte(text[5], text[6]),
            ) {
                (Some(r), Some(g), Some(b)) => Some(Rgb { r, g, b }),
                _ => None,
            }
        }
    }

    /// The `#RRGGBB` text of the colour.
    pub open spec fn hex(self) -> Seq<char> {
        seq![
            '#',
            hex_digit(self.r / 16),
            hex_digit(self.r % 16),
            hex_digit(self.g / 16),
            hex_digit(self.g % 16),
            hex_digit(self.b / 16),
            hex_digit(self.b % 16),
        ]
    }

    /// Read a `#RRGGBB` text; digits in either case.
    pub fn parse_hex(text: &str) -> (r: Option<Rgb>)
        ensures
            r == Rgb::from_hex(text@),
    {
        let chars = chars_of(text);
        if chars.len() != 7 || chars[0] != '#' {
            return None;
        }
        match (
            hex_byte_of(chars[1], chars[2]),
            hex_byte_of(chars[3], chars[4]),
            hex_byte_of(chars[5], chars[6]),
        ) {
            (Some(r), Some(g), Some(b)) => Some(Rgb { r, g, b }),
            _ => None,
        }
    }

    /// The `#RRGGBB` text of the colour.
    pub fn to_hex(&self) -> (r: String)
        ensures
            r@ == self.hex(),
    {
        let mut out = String::new();
        out.push('#');
        out.push(hex_digit_of(self.r / 16));
        out.push(hex_digit_of(self.r % 16));
        out.push(hex_digit_of(self.g / 16));
        out.push(hex_digit_of(self.g % 16));
        out.push(hex_digit_of(self.b / 16));
        out.push(hex_digit_of(self.b % 16));
        proof {
            assert(out@ =~= self.hex());
        }
        out
    }
}

/// Reading back a colour's text gives the colour.
pub proof fn lemma_hex_round_trip(color: Rgb)
    ensures
        Rgb::from_hex(color.hex()) == Some(color),
{
}

/// Root settings object.
#[derive(Clone, Copy, PartialEq, Eq, Structural, Debug)]
pub struct AppSettings {
    pub hotkeys: HotkeySettings,
    pub spotlight: SpotlightSettings,
    pub zoom: ZoomSettings,
    pub overlay: OverlaySettings,
    /// Launch at login. Default: `false`.
    pub auto_start: bool,
}

/// Every hotkey of the application.
#[derive(Clone, Copy, PartialEq, Eq, Structural, Debug)]
pub struct HotkeySettings {
    /// Global hotkey: toggle screen freeze. Default: `Win+F`.
    pub freeze_toggle: HotkeyGesture,
    /// While frozen: spotlight. Default: `S`.
    pub mode_spotlight: HotkeyGesture,
    /// While frozen: zoom mode. Default: `2`.
    pub mode_zoom: HotkeyGesture,
    /// While frozen: capture. Default: `C`.
    pub mode_snip: HotkeyGesture,
    /// While frozen: zoom hold toggle. Default: `F`.
    pub zoom_hold: HotkeyGesture,
    /// Modifier held while scrolling to zoom. Default: `Shift`.
    pub zoom_modifier: Modifiers,
    /// Modifier held while scrolling to resize the spotlight circle. Default:
    /// `Ctrl`.
    pub spotlight_radius_modifier: Modifiers,
    /// Copy the selection (or the focused monitor's frame), then close.
    /// Default: `Ctrl+C`.
    pub snip_copy: HotkeyGesture,
    /// Unfreeze, or leave capture. Default: `Esc`.
    pub cancel: HotkeyGesture,
    /// Reset zoom to 1.0. Default: `0`.
    pub reset_zoom: HotkeyGesture,
}

/// A key without modifiers.
pub open spec fn plain_key(vk: u32) -> HotkeyGesture {
    HotkeyGesture {
        modifiers: Modifiers { alt: false, ctrl: false, shift: false, win: false },
        vk,
    }
}

impl HotkeySettings {
    /// The out-of-box bindings.
    pub open spec fn defaults() -> HotkeySettings {
        HotkeySettings {
            freeze_toggle: HotkeyGesture {
                modifiers: Modifiers { alt: false, ctrl: false, shift: false, win: true },
                vk: 0x46,
            },
            mode_spotlight: plain_key(0x53),
            mode_zoom: plain_key(0x32),
            mode_snip: plain_key(0x43),
            zoom_hold: plain_key(0x46),
            zoom_modifier: Modifiers { alt: false, ctrl: false, shift: true, win: false },
            spotlight_radius_modifier: Modifiers { alt: false, ctrl: true, shift: false, win: false },
            snip_copy: HotkeyGesture {
                modifiers: Modifiers { alt: false, ctrl: true, shift: false, win: false },
                vk: 0x43,
            },
            cancel: plain_key(0x1B),
            reset_zoom: plain_key(0x30),
        }
    }
}

impl Default for HotkeySettings {
    fn default() -> (r: Self)
        ensures
            r == HotkeySettings::defaults(),
    {
        let none = Modifiers::none();
        Self {
            freeze_toggle: HotkeyGesture::new(Modifiers::win(), 0x46),
            mode_spotlight: HotkeyGesture::new(none, 0x53),
            mode_zoom: HotkeyGesture::new(none, 0x32),
            mode_snip: HotkeyGesture::new(none, 0x43),
            zoom_hold: HotkeyGesture::new(none, 0x46),
            zoom_modifier: Modifiers::shift(),
            spotlight_radius_modifier: Modifiers::ctrl(),
            snip_copy: HotkeyGesture::new(Modifiers::ctrl(), 0x43),
            cancel: HotkeyGesture::new(none, 0x1B),
            reset_zoom: HotkeyGesture::new(none, 0x30),
        }
    }
}

#[derive(Clone, Copy, PartialEq, Eq, Structural, Debug)]
pub struct SpotlightSettings {
    /// Spotlight circle radius at freeze time in physical pixels. Default: 150.
    pub default_radius: u32,
}

impl Default for SpotlightSettings {
    fn default() -> (r: Self)
        ensures
            r.default_radius == 150,
    {
        Self { default_radius: 150 }
    }
}

#[derive(Clone, Copy, PartialEq, Eq, Structural, Debug)]
pub struct ZoomSettings {
    /// Multiplicative zoom change per wheel notch (> 1.0). Default: 1.25.
    pub step_factor: Factor,
    /// Minimum zoom. Default: 1.0.
    pub min: Factor,
    /// Maximum zoom. Default: 16.0.
    pub max: Factor,
}

impl Default for ZoomSettings {
    fn default() -> (r: Self)
        ensures
            r.step_factor.bits == DEFAULT_STEP_BITS,
            r.min.bits == ONE_BITS,
            r.max.bits == DEFAULT_MAX_BITS,
    {
        Self {
            step_factor: Factor::from_bits(DEFAULT_STEP_BITS),
            min: Factor::one(),
            max: Factor::from_bits(DEFAULT_MAX_BITS),
        }
    }
}

#[derive(Clone, Copy, PartialEq, Eq, Structural, Debug)]
pub struct OverlaySettings {
    /// Opacity of the veil outside spotlight and selection areas, 0 =
    /// invisible, 255 = solid. Default: 160.
    pub dim_opacity: u8,
    /// Veil colour. Default: black.
    pub color: Rgb,
}

impl Default for OverlaySettings {
    fn default() -> (r: Self)
        ensures
            r.dim_opacity == 160,
            r.color == (Rgb { r: 0, g: 0, b: 0 }),
    {
        Self { dim_opacity: 160, color: Rgb { r: 0, g: 0, b: 0 } }
    }
}

impl AppSettings {
    /// The out-of-box settings.
    pub open spec fn defaults() -> AppSettings {
        AppSettings {
            hotkeys: HotkeySettings::defaults(),
            spotlight: SpotlightSettings { default_radius: 150 },
            zoom: ZoomSettings {
                step_factor: Factor { bits: DEFAULT_STEP_BITS },
                min: Factor { bits: ONE_BITS },
                max: Factor { bits: DEFAULT_MAX_BITS },
            },
            overlay: OverlaySettings { dim_opacity: 160, color: Rgb { r: 0, g: 0, b: 0 } },
            auto_start: false,
        }
    }
}

impl Default for AppSettings {
    fn default() -> (r: Self)
        ensures
            r == AppSettings::defaults(),
    {
        Self {
            hotkeys: HotkeySettings::default(),
            spotlight: SpotlightSettings::default(),
            zoom: ZoomSettings::default(),
            overlay: OverlaySettings::default(),
            auto_start: false,
        }
    }
}

} // verus!
