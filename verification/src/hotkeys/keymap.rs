//! Native key codes and virtual-key codes.

use crate::hotkeys::gesture::Modifiers;
use vstd::prelude::*;

verus! {

/// Virtual-key code of each macOS key code (positions of an ANSI QWERTY
/// keyboard); 0 = none.
pub const CG_TO_VK: [u32; 128] = [
    0x41, 0x53, 0x44, 0x46, 0x48, 0x47, 0x5A, 0x58,
    0x43, 0x56, 0x00, 0x42, 0x51, 0x57, 0x45, 0x52,
    0x59, 0x54, 0x31, 0x32, 0x33, 0x34, 0x36, 0x35,
    0x00, 0x39, 0x37, 0x00, 0x38, 0x30, 0x00, 0x4F,
    0x55, 0x00, 0x49, 0x50, 0x0D, 0x4C, 0x4A, 0x00,
    0x4B, 0x00, 0x00, 0x00, 0x00, 0x4E, 0x4D, 0x00,
    0x09, 0x20, 0x00, 0x08, 0x00, 0x1B, 0x00, 0x00,
    0x00, 0x00, 0x00, 0x00, 0x00, 0x00, 0x00, 0x00,
    0x80, 0x00, 0x00, 0x00, 0x00, 0x00, 0x00, 0x00,
    0x00, 0x00, 0x00, 0x00, 0x00, 0x00, 0x00, 0x81,
    0x82, 0x00, 0x00, 0x00, 0x00, 0x00, 0x00, 0x00,
    0x00, 0x00, 0x83, 0x00, 0x00, 0x00, 0x00, 0x00,
    0x74, 0x75, 0x76, 0x72, 0x77, 0x78, 0x00, 0x7A,
    0x00, 0x7C, 0x7F, 0x7D, 0x00, 0x79, 0x00, 0x7B,
    0x00, 0x7E, 0x2D, 0x24, 0x21, 0x2E, 0x73, 0x23,
    0x71, 0x22, 0x70, 0x25, 0x27, 0x28, 0x26, 0x00,
];

/// Virtual-key code of a macOS key code.
pub open spec fn vk_of(code: int) -> Option<u32> {
    if 0 <= code < 128 && CG_TO_VK@[code] != 0 {
        Some(CG_TO_VK@[code])
    } else {
        None
    }
}

/// Virtual-key code of a macOS key code; `None` for keys without one.
pub fn cg_keycode_to_vk(code: u16) -> (r: Option<u32>)
    ensures
        r == vk_of(code as int),
{
    if code < 128 {
        let vk: u32 = CG_TO_VK[code as usize];
        if vk != 0 {
            return Some(vk);
        }
    }
    None
}

/// The first macOS key code, from `code` on, of a virtual-key code.
pub open spec fn keycode_from(vk: u32, code: int) -> Option<u16>
    decreases 128 - code,
{
    if code >= 128 {
        None
    } else if vk_of(code) == Some(vk) {
        Some(code as u16)
    } else {
        keycode_from(vk, code + 1)
    }
}

/// macOS key code of a virtual-key code.
pub open spec fn keycode_of(vk: u32) -> Option<u16> {
    keycode_from(vk, 0)
}

/// macOS key code of a virtual-key code; `None` for keys a Mac keyboard lacks.
pub fn vk_to_cg_keycode(vk: u32) -> (r: Option<u16>)
    ensures
        r == keycode_of(vk),
{
    let mut code: u16 = 0;
    while code < 128
        invariant
            code <= 128,
            keycode_of(vk) == keycode_from(vk, code as int),
        decreases 128 - code,
    {
        if vk != 0 && CG_TO_VK[code as usize] == vk {
            return Some(code);
        }
        code += 1;
    }
    None
}

/// A key code found for a virtual-key code maps back to it, and one is found
/// for every virtual-key code that some key maps to.
pub proof fn lemma_keycode_maps_back(vk: u32)
    ensures
        keycode_of(vk) matches Some(code) ==> vk_of(code as int) == Some(vk),
        keycode_of(vk) is None ==> forall|code: int| #[trigger] vk_of(code) != Some(vk),
{
    lemma_keycode_from(vk, 0);
}

proof fn lemma_keycode_from(vk: u32, from: int)
    requires
        0 <= from <= 128,
    ensures
        keycode_from(vk, from) matches Some(code) ==> vk_of(code as int) == Some(vk),
        keycode_from(vk, from) is None ==> forall|code: int|
            from <= code ==> #[trigger] vk_of(code) != Some(vk),
    decreases 128 - from,
{
    if from < 128 && vk_of(from) != Some(vk) {
        lemma_keycode_from(vk, from + 1);
    }
}

/// Virtual-key code of each Linux kernel key code (positions of an ANSI QWERTY
/// keyboard); 0 = none.
pub const EVDEV_TO_VK: [u32; 200] = [
    0x00, 0x1B, 0x31, 0x32, 0x33, 0x34, 0x35, 0x36,
    0x37, 0x38, 0x39, 0x30, 0x00, 0x00, 0x08, 0x09,
    0x51, 0x57, 0x45, 0x52, 0x54, 0x59, 0x55, 0x49,
    0x4F, 0x50, 0x00, 0x00, 0x0D, 0x00, 0x41, 0x53,
    0x44, 0x46, 0x47, 0x48, 0x4A, 0x4B, 0x4C, 0x00,
    0x00, 0x00, 0x00, 0x00, 0x5A, 0x58, 0x43, 0x56,
    0x42, 0x4E, 0x4D, 0x00, 0x00, 0x00, 0x00, 0x00,
    0x00, 0x20, 0x00, 0x70, 0x71, 0x72, 0x73, 0x74,
    0x75, 0x76, 0x77, 0x78, 0x79, 0x00, 0x00, 0x00,
    0x00, 0x00, 0x00, 0x00, 0x00, 0x00, 0x00, 0x00,
    0x00, 0x00, 0x00, 0x00, 0x00, 0x00, 0x00, 0x7A,
    0x7B, 0x00, 0x00, 0x00, 0x00, 0x00, 0x00, 0x00,
    0x00, 0x00, 0x00, 0x2C, 0x00, 0x00, 0x24, 0x26,
    0x21, 0x25, 0x27, 0x23, 0x28, 0x22, 0x2D, 0x2E,
    0x00, 0x00, 0x00, 0x00, 0x00, 0x00, 0x00, 0x00,
    0x00, 0x00, 0x00, 0x00, 0x00, 0x00, 0x00, 0x00,
    0x00, 0x00, 0x00, 0x00, 0x00, 0x00, 0x00, 0x00,
    0x00, 0x00, 0x00, 0x00, 0x00, 0x00, 0x00, 0x00,
    0x00, 0x00, 0x00, 0x00, 0x00, 0x00, 0x00, 0x00,
    0x00, 0x00, 0x00, 0x00, 0x00, 0x00, 0x00, 0x00,
    0x00, 0x00, 0x00, 0x00, 0x00, 0x00, 0x00, 0x00,
    0x00, 0x00, 0x00, 0x00, 0x00, 0x00, 0x00, 0x00,
    0x00, 0x00, 0x00, 0x00, 0x00, 0x00, 0x00, 0x7C,
    0x7D, 0x7E, 0x7F, 0x80, 0x81, 0x82, 0x83, 0x84,
    0x85, 0x86, 0x87, 0x00, 0x00, 0x00, 0x00, 0x00,
];

/// Virtual-key code of a Linux kernel key code.
pub open spec fn evdev_vk(code: int) -> Option<u32> {
    if 0 <= code < 200 && EVDEV_TO_VK@[code] != 0 {
        Some(EVDEV_TO_VK@[code])
    } else {
        None
    }
}

/// Virtual-key code of a Linux kernel key code; `None` for keys without one.
pub fn evdev_to_vk(code: u32) -> (r: Option<u32>)
    ensures
        r == evdev_vk(code as int),
{
    if code < 200 {
        let vk: u32 = EVDEV_TO_VK[code as usize];
        if vk != 0 {
            return Some(vk);
        }
    }
    None
}

/// The modifiers of a keyboard's modifier mask: bit 0 is Shift, bit 2 Control,
/// bit 3 Alt and bit 6 Win. Other bits are ignored.
pub open spec fn mask_modifiers(mask: u32) -> Modifiers {
    Modifiers {
        alt: mask as int / 8 % 2 == 1,
        ctrl: mask as int / 4 % 2 == 1,
        shift: mask as int % 2 == 1,
        win: mask as int / 64 % 2 == 1,
    }
}

/// The modifiers of a keyboard's modifier mask.
pub fn modifiers_of_mask(mask: u32) -> (r: Modifiers)
    ensures
        r == mask_modifiers(mask),
{
    Modifiers {
        alt: mask / 8 % 2 == 1,
        ctrl: mask / 4 % 2 == 1,
        shift: mask % 2 == 1,
        win: mask / 64 % 2 == 1,
    }
}

} // verus!
