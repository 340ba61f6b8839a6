//! The global freeze hotkey on macOS: what is asked of Carbon and what its
//! events mean. The calls themselves are the caller's part.

use crate::hotkeys::gesture::{HotkeyGesture, Modifiers};
use crate::hotkeys::keymap::{keycode_of, vk_to_cg_keycode};
use crate::text::{push_signed, push_text, signed_decimal};
use vstd::prelude::*;

verus! {

/// Keyboard events, `'keyb'`.
pub const K_EVENT_CLASS_KEYBOARD: u32 = 0x6b65_7962;

/// A hotkey was pressed.
pub const K_EVENT_HOT_KEY_PRESSED: u32 = 5;

/// The parameter that carries a hotkey's id, `'----'`.
pub const K_EVENT_PARAM_DIRECT_OBJECT: u32 = 0x2d2d_2d2d;

/// Type of a hotkey's id, `'hkid'`.
pub const TYPE_EVENT_HOT_KEY_ID: u32 = 0x686b_6964;

/// The event was not handled.
pub const EVENT_NOT_HANDLED: i32 = -9874;

/// Signature of this application's hotkeys, `'SPFZ'`.
pub const HOTKEY_SIGNATURE: u32 = 0x5350_465a;

/// Command, which stands for Win.
pub const CMD_KEY: u32 = 0x0100;

pub const SHIFT_KEY: u32 = 0x0200;

/// Option, which stands for Alt.
pub const OPTION_KEY: u32 = 0x0800;

pub const CONTROL_KEY: u32 = 0x1000;

/// The value of a flag when it is set.
pub open spec fn flag(set: bool, value: u32) -> int {
    if set {
        value as int
    } else {
        0
    }
}

/// The flags of some modifiers, one bit each.
pub open spec fn carbon_flags(m: Modifiers) -> int {
    flag(m.win, CMD_KEY) + flag(m.shift, SHIFT_KEY) + flag(m.alt, OPTION_KEY) + flag(
        m.ctrl,
        CONTROL_KEY,
    )
}

/// The flags of some modifiers.
pub fn carbon_modifiers(modifiers: Modifiers) -> (r: u32)
    ensures
        r == carbon_flags(modifiers),
{
    let mut out: u32 = 0;
    if modifiers.win {
        out += CMD_KEY;
    }
    if modifiers.shift {
        out += SHIFT_KEY;
    }
    if modifiers.alt {
        out += OPTION_KEY;
    }
    if modifiers.ctrl {
        out += CONTROL_KEY;
    }
    out
}

/// Different modifiers have different flags.
pub proof fn lemma_flags_differ(a: Modifiers, b: Modifiers)
    requires
        carbon_flags(a) == carbon_flags(b),
    ensures
        a == b,
{
}

/// The one event handler of the application, by its reference.
#[derive(Debug)]
pub struct CarbonHotkeyManager {
    pub handler: isize,
}

/// What to register: the arguments of the registration.
#[derive(Clone, Copy, PartialEq, Eq, Structural, Debug)]
pub struct HotKeyRequest {
    pub key_code: u32,
    pub modifiers: u32,
    pub signature: u32,
    pub id: u32,
}

impl CarbonHotkeyManager {
    /// The manager, once the handler is installed: status 0 and a reference.
    pub fn install(status: i32, handler: isize) -> (r: Result<Self, String>)
        ensures
            match r {
                Ok(m) => status == 0 && handler != 0 && m.handler == handler,
                Err(text) => (status != 0 || handler == 0) && text@
                    == "InstallEventHandler failed with OSStatus "@ + signed_decimal(status as int),
            },
    {
        if status != 0 || handler == 0 {
            let mut text: String = "InstallEventHandler failed with OSStatus ".to_owned();
            push_signed(&mut text, status as i64);
            return Err(text);
        }
        Ok(Self { handler })
    }

    /// What to register for a gesture. A key without a macOS keycode is
    /// refused.
    pub fn register(&self, gesture: HotkeyGesture) -> (r: Result<HotKeyRequest, String>)
        ensures
            match (r, keycode_of(gesture.vk)) {
                (Ok(q), Some(code)) => q == (HotKeyRequest {
                    key_code: code as u32,
                    modifiers: carbon_flags(gesture.modifiers) as u32,
                    signature: HOTKEY_SIGNATURE,
                    id: 1,
                }),
                (Err(text), None) => text@ == "the key "@ + gesture.shown()
                    + " has no macOS keycode"@,
                _ => false,
            },
    {
        match vk_to_cg_keycode(gesture.vk) {
            Some(code) => Ok(
                HotKeyRequest {
                    key_code: code as u32,
                    modifiers: carbon_modifiers(gesture.modifiers),
                    signature: HOTKEY_SIGNATURE,
                    id: 1,
                },
            ),
            None => {
                let mut text: String = "the key ".to_owned();
                push_text(&mut text, gesture.to_display().as_str());
                push_text(&mut text, " has no macOS keycode");
                Err(text)
            },
        }
    }
}

/// One registered hotkey, by its reference.
#[derive(Debug)]
pub struct CarbonHotkey {
    pub hotkey: isize,
}

impl CarbonHotkey {
    /// The hotkey, once it is registered: status 0 and a reference.
    pub fn settle(gesture: HotkeyGesture, status: i32, hotkey: isize) -> (r: Result<Self, String>)
        ensures
            match r {
                Ok(k) => status == 0 && hotkey != 0 && k.hotkey == hotkey,
                Err(text) => (status != 0 || hotkey == 0) && text@ == "RegisterEventHotKey for "@
                    + gesture.shown() + " failed with OSStatus "@ + signed_decimal(status as int),
            },
    {
        if status != 0 || hotkey == 0 {
            let mut text: String = "RegisterEventHotKey for ".to_owned();
            push_text(&mut text, gesture.to_display().as_str());
            push_text(&mut text, " failed with OSStatus ");
            push_signed(&mut text, status as i64);
            return Err(text);
        }
        Ok(Self { hotkey })
    }

    /// Rebinding registers first: the hotkey that is active afterwards is the
    /// new one when that was registered, else still the old one. The second
    /// part is what to release.
    pub fn rebind(old_key: CarbonHotkey, attempt: Option<CarbonHotkey>) -> (r: (
        CarbonHotkey,
        Option<CarbonHotkey>,
    ))
        ensures
            match attempt {
                Some(k) => r == (k, Some(old_key)),
                None => r == (old_key, None::<CarbonHotkey>),
            },
    {
        match attempt {
            Some(k) => (k, Some(old_key)),
            None => (old_key, None),
        }
    }
}

/// Whether an event is a press of one of this application's hotkeys;
/// `signature` is that of the hotkey, when it could be read.
pub open spec fn is_our_press(class: u32, kind: u32, signature: Option<u32>) -> bool {
    class == K_EVENT_CLASS_KEYBOARD && kind == K_EVENT_HOT_KEY_PRESSED && signature == Some(
        HOTKEY_SIGNATURE,
    )
}

/// What the handler does with an event: the status to return, and whether to
/// run the application's callback. 0 is returned exactly when it runs.
pub fn carbon_event_handler(class: u32, kind: u32, signature: Option<u32>) -> (r: (i32, bool))
    ensures
        r.1 == is_our_press(class, kind, signature),
        r.0 == (if is_our_press(class, kind, signature) {
            0
        } else {
            EVENT_NOT_HANDLED
        }),
{
    if class != K_EVENT_CLASS_KEYBOARD || kind != K_EVENT_HOT_KEY_PRESSED {
        return (EVENT_NOT_HANDLED, false);
    }
    match signature {
        Some(s) => {
            if s == HOTKEY_SIGNATURE {
                (0, true)
            } else {
                (EVENT_NOT_HANDLED, false)
            }
        },
        None => (EVENT_NOT_HANDLED, false),
    }
}

} // verus!
