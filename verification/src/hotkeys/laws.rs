//! What gestures and their texts promise, and which action a key has while
//! frozen.
//!
//! The vocabulary here belongs to the statements alone: no operation is defined
//! by it.

use crate::hotkeys::frozen::{
    configured, derived_entry, first_action, plain_entry, planned, shifted, taken_after_spotlight,
    FrozenAction, FrozenRegistration,
};
use crate::hotkeys::gesture::{
    key_name, lemma_first_plus, lemma_key_code_of_name, lemma_key_names_are_plain,
    lemma_parsed_prefix, parsed, HotkeyGesture, Modifiers, ParseGestureError,
};
use crate::hotkeys::keymap::mask_modifiers;
use crate::hotkeys::manager::{low_i32, scan};
use crate::overlay::modes::ModeKind;
use crate::settings::model::HotkeySettings;
use vstd::prelude::*;

verus! {

/// A key without modifiers.
pub open spec fn bare(vk: u32) -> HotkeyGesture {
    HotkeyGesture {
        modifiers: Modifiers { alt: false, ctrl: false, shift: false, win: false },
        vk,
    }
}

/// The name of a key alone stands for the key without modifiers.
proof fn lemma_bare_name(vk: u32)
    requires
        key_name(vk) is Some,
    ensures
        parsed(key_name(vk)->0) == Ok::<HotkeyGesture, ParseGestureError>(bare(vk)),
{
    let name = key_name(vk)->0;
    lemma_key_names_are_plain(vk);
    lemma_key_code_of_name(vk);
    lemma_first_plus(name, name.len() as int);
}

/// A capital letter or a digit stands for the key whose code it is.
pub proof fn lemma_letters_and_digits(c: char)
    requires
        'A' <= c <= 'Z' || '0' <= c <= '9',
    ensures
        parsed(seq![c]) == Ok::<HotkeyGesture, ParseGestureError>(bare(c as u32)),
        bare(c as u32).shown() == seq![c],
{
    lemma_bare_name(c as u32);
    lemma_shown_without_modifiers(c as u32);
}

proof fn lemma_shown_without_modifiers(vk: u32)
    requires
        key_name(vk) is Some,
    ensures
        bare(vk).shown() == key_name(vk)->0,
{
    assert(bare(vk).shown() =~= key_name(vk)->0);
}

/// `F1` to `F24` stand for the function keys, whose codes are consecutive.
pub proof fn lemma_function_keys(n: int, tens: char, ones: char)
    requires
        1 <= n <= 24,
        tens as int == '0' as int + n / 10,
        ones as int == '0' as int + n % 10,
    ensures
        n < 10 ==> parsed(seq!['F', ones]) == Ok::<HotkeyGesture, ParseGestureError>(
            bare((0x6F + n) as u32),
        ),
        n >= 10 ==> parsed(seq!['F', tens, ones]) == Ok::<HotkeyGesture, ParseGestureError>(
            bare((0x6F + n) as u32),
        ),
{
    let vk = (0x6F + n) as u32;
    if n < 10 {
        assert(key_name(vk)->0 =~= seq!['F', ones]);
    } else {
        assert(key_name(vk)->0 =~= seq!['F', tens, ones]);
    }
    lemma_bare_name(vk);
}

/// The keys with a word for a name.
#[verifier::rlimit(60)]
pub proof fn lemma_named_keys()
    ensures
        parsed("Backspace"@) == Ok::<HotkeyGesture, ParseGestureError>(bare(0x08)),
        parsed("Tab"@) == Ok::<HotkeyGesture, ParseGestureError>(bare(0x09)),
        parsed("Enter"@) == Ok::<HotkeyGesture, ParseGestureError>(bare(0x0D)),
        parsed("Pause"@) == Ok::<HotkeyGesture, ParseGestureError>(bare(0x13)),
        parsed("Esc"@) == Ok::<HotkeyGesture, ParseGestureError>(bare(0x1B)),
        parsed("Space"@) == Ok::<HotkeyGesture, ParseGestureError>(bare(0x20)),
        parsed("PageUp"@) == Ok::<HotkeyGesture, ParseGestureError>(bare(0x21)),
        parsed("PageDown"@) == Ok::<HotkeyGesture, ParseGestureError>(bare(0x22)),
        parsed("End"@) == Ok::<HotkeyGesture, ParseGestureError>(bare(0x23)),
        parsed("Home"@) == Ok::<HotkeyGesture, ParseGestureError>(bare(0x24)),
        parsed("Left"@) == Ok::<HotkeyGesture, ParseGestureError>(bare(0x25)),
        parsed("Up"@) == Ok::<HotkeyGesture, ParseGestureError>(bare(0x26)),
        parsed("Right"@) == Ok::<HotkeyGesture, ParseGestureError>(bare(0x27)),
        parsed("Down"@) == Ok::<HotkeyGesture, ParseGestureError>(bare(0x28)),
        parsed("PrintScreen"@) == Ok::<HotkeyGesture, ParseGestureError>(bare(0x2C)),
        parsed("Insert"@) == Ok::<HotkeyGesture, ParseGestureError>(bare(0x2D)),
        parsed("Delete"@) == Ok::<HotkeyGesture, ParseGestureError>(bare(0x2E)),
{
    lemma_bare_name(0x08);
    lemma_bare_name(0x09);
    lemma_bare_name(0x0D);
    lemma_bare_name(0x13);
    lemma_bare_name(0x1B);
    lemma_bare_name(0x20);
    lemma_bare_name(0x21);
    lemma_bare_name(0x22);
    lemma_bare_name(0x23);
    lemma_bare_name(0x24);
    lemma_bare_name(0x25);
    lemma_bare_name(0x26);
    lemma_bare_name(0x27);
    lemma_bare_name(0x28);
    lemma_bare_name(0x2C);
    lemma_bare_name(0x2D);
    lemma_bare_name(0x2E);
}

/// A modifier's name and a plus sign in front of a gesture's text add exactly
/// that modifier; naming it twice is refused.
#[verifier::rlimit(60)]
pub proof fn lemma_modifier_in_front(rest: Seq<char>)
    ensures
        ({
            let read = parsed(rest);
            &&& parsed("Ctrl+"@ + rest) == (match read {
                Ok(g) if !g.modifiers.ctrl => Ok::<HotkeyGesture, ParseGestureError>(
                    HotkeyGesture { modifiers: Modifiers { ctrl: true, ..g.modifiers }, vk: g.vk },
                ),
                Ok(_) => Err(ParseGestureError::RepeatedModifier),
                Err(e) => Err(e),
            })
            &&& parsed("Alt+"@ + rest) == (match read {
                Ok(g) if !g.modifiers.alt => Ok::<HotkeyGesture, ParseGestureError>(
                    HotkeyGesture { modifiers: Modifiers { alt: true, ..g.modifiers }, vk: g.vk },
                ),
                Ok(_) => Err(ParseGestureError::RepeatedModifier),
                Err(e) => Err(e),
            })
            &&& parsed("Shift+"@ + rest) == (match read {
                Ok(g) if !g.modifiers.shift => Ok::<HotkeyGesture, ParseGestureError>(
                    HotkeyGesture { modifiers: Modifiers { shift: true, ..g.modifiers }, vk: g.vk },
                ),
                Ok(_) => Err(ParseGestureError::RepeatedModifier),
                Err(e) => Err(e),
            })
            &&& parsed("Win+"@ + rest) == (match read {
                Ok(g) if !g.modifiers.win => Ok::<HotkeyGesture, ParseGestureError>(
                    HotkeyGesture { modifiers: Modifiers { win: true, ..g.modifiers }, vk: g.vk },
                ),
                Ok(_) => Err(ParseGestureError::RepeatedModifier),
                Err(e) => Err(e),
            })
        }),
{
    reveal_strlit("Ctrl");
    reveal_strlit("Alt");
    reveal_strlit("Shift");
    reveal_strlit("Win");
    reveal_strlit("Ctrl+");
    reveal_strlit("Alt+");
    reveal_strlit("Shift+");
    reveal_strlit("Win+");
    assert("Ctrl+"@ =~= "Ctrl"@.push('+'));
    assert("Alt+"@ =~= "Alt"@.push('+'));
    assert("Shift+"@ =~= "Shift"@.push('+'));
    assert("Win+"@ =~= "Win"@.push('+'));
    assert("Ctrl"@[0] != "Alt"@[0]);
    assert("Ctrl"@[0] != "Shift"@[0]);
    assert("Ctrl"@[0] != "Win"@[0]);
    assert("Alt"@[0] != "Shift"@[0]);
    assert("Alt"@[0] != "Win"@[0]);
    assert("Shift"@[0] != "Win"@[0]);
    lemma_parsed_prefix("Ctrl"@, rest);
    lemma_parsed_prefix("Alt"@, rest);
    lemma_parsed_prefix("Shift"@, rest);
    lemma_parsed_prefix("Win"@, rest);
}

/// A gesture's text names its modifiers in the order Ctrl, Alt, Shift, Win,
/// each followed by a plus sign, and then the key.
#[verifier::rlimit(60)]
pub proof fn lemma_shown_order(m: Modifiers, vk: u32)
    ensures
        ({
            let g = HotkeyGesture { modifiers: m, vk };
            if m.ctrl {
                g.shown() == "Ctrl+"@ + (HotkeyGesture {
                    modifiers: Modifiers { ctrl: false, ..m },
                    vk,
                }).shown()
            } else if m.alt {
                g.shown() == "Alt+"@ + (HotkeyGesture {
                    modifiers: Modifiers { alt: false, ..m },
                    vk,
                }).shown()
            } else if m.shift {
                g.shown() == "Shift+"@ + (HotkeyGesture {
                    modifiers: Modifiers { shift: false, ..m },
                    vk,
                }).shown()
            } else if m.win {
                g.shown() == "Win+"@ + bare(vk).shown()
            } else {
                g == bare(vk)
            }
        }),
{
    let g = HotkeyGesture { modifiers: m, vk };
    if m.ctrl {
        let h = HotkeyGesture { modifiers: Modifiers { ctrl: false, ..m }, vk };
        assert(g.shown() =~= "Ctrl+"@ + h.shown());
    } else if m.alt {
        let h = HotkeyGesture { modifiers: Modifiers { alt: false, ..m }, vk };
        assert(g.shown() =~= "Alt+"@ + h.shown());
    } else if m.shift {
        let h = HotkeyGesture { modifiers: Modifiers { shift: false, ..m }, vk };
        assert(g.shown() =~= "Shift+"@ + h.shown());
    } else if m.win {
        assert(g.shown() =~= "Win+"@ + bare(vk).shown());
    }
}

/// The names of some modifiers are their part of a gesture's text, without the
/// last plus sign.
pub proof fn lemma_names_are_a_gesture_without_its_key(m: Modifiers, vk: u32)
    requires
        key_name(vk) is Some,
    ensures
        m.ctrl || m.alt || m.shift || m.win ==> (HotkeyGesture { modifiers: m, vk }).shown()
            == m.names() + seq!['+'] + bare(vk).shown(),
        !(m.ctrl || m.alt || m.shift || m.win) ==> m.names().len() == 0,
{
    reveal_strlit("Ctrl+");
    reveal_strlit("Alt+");
    reveal_strlit("Shift+");
    reveal_strlit("Win+");
    lemma_shown_without_modifiers(vk);
    if m.ctrl || m.alt || m.shift || m.win {
        assert(m.prefix().len() > 0);
        assert(m.prefix().last() == '+');
        assert((HotkeyGesture { modifiers: m, vk }).shown() =~= m.names() + seq!['+'] + bare(
            vk,
        ).shown());
    }
}

/// Any key with a name can be registered; the modifier keys themselves cannot,
/// nor what is no key at all.
pub proof fn lemma_registerable_keys(g: HotkeyGesture)
    ensures
        key_name(g.vk) is Some ==> g.registerable(),
        g.vk == 0 || g.vk >= 0xFF ==> !g.registerable(),
        g.vk == 0x10 || g.vk == 0x11 || g.vk == 0x12 ==> !g.registerable(),
        g.vk == 0x5B || g.vk == 0x5C ==> !g.registerable(),
        0xA0 <= g.vk <= 0xA5 ==> !g.registerable(),
{
}

/// `g` is the key of `h` with Shift held in addition.
pub open spec fn with_shift(g: HotkeyGesture, h: HotkeyGesture) -> bool {
    &&& g.vk == h.vk
    &&& g.modifiers.shift
    &&& g.modifiers.alt == h.modifiers.alt
    &&& g.modifiers.ctrl == h.modifiers.ctrl
    &&& g.modifiers.win == h.modifiers.win
}

/// What a key does while frozen. The configured keys come first: spotlight,
/// capture, reset, copy, cancel. Shift with a mode's key adds that mode, unless
/// the combination is configured for something else. Every other key does
/// nothing.
#[verifier::rlimit(60)]
pub proof fn lemma_frozen_keys(h: HotkeySettings, g: HotkeyGesture)
    ensures
        first_action(planned(h), g) == (if g == h.mode_spotlight {
            Some(FrozenAction::SetMode(ModeKind::Spotlight))
        } else if g == h.mode_snip {
            Some(FrozenAction::SetMode(ModeKind::Snip))
        } else if g == h.reset_zoom {
            Some(FrozenAction::ResetZoom)
        } else if g == h.snip_copy {
            Some(FrozenAction::Copy)
        } else if g == h.cancel {
            Some(FrozenAction::Cancel)
        } else if g == h.freeze_toggle {
            None
        } else if with_shift(g, h.mode_spotlight) {
            Some(FrozenAction::AddMode(ModeKind::Spotlight))
        } else if with_shift(g, h.mode_snip) {
            Some(FrozenAction::AddMode(ModeKind::Snip))
        } else {
            None
        }),
{
    let plan = planned(h);
    let taken = configured(h);
    let more = taken_after_spotlight(h);
    assert(with_shift(g, h.mode_spotlight) <==> g == shifted(h.mode_spotlight));
    assert(with_shift(g, h.mode_snip) <==> g == shifted(h.mode_snip));
    lemma_taken(h, shifted(h.mode_spotlight));
    lemma_taken(h, shifted(h.mode_snip));
    let d = derived_entry(h.mode_spotlight, ModeKind::Spotlight, taken);
    let e = derived_entry(h.mode_snip, ModeKind::Snip, more);
    assert(more.contains(shifted(h.mode_snip)) <==> taken.contains(shifted(h.mode_snip)) || shifted(
        h.mode_snip,
    ) == shifted(h.mode_spotlight)) by {
        if !taken.contains(shifted(h.mode_spotlight)) {
            assert(more[6] == shifted(h.mode_spotlight));
            if taken.contains(shifted(h.mode_snip)) {
                let k = choose|k: int| 0 <= k < taken.len() && taken[k] == shifted(h.mode_snip);
                assert(more[k] == shifted(h.mode_snip));
            }
        }
    }
    let (dn, en) = (d.len() as int, e.len() as int);
    assert(plan.len() == 5 + dn + en);
    assert(plan[0] == plain_entry(h.mode_spotlight, ModeKind::Spotlight));
    assert(dn == 1 ==> plan[1] == d[0]);
    assert(plan[1 + dn] == plain_entry(h.mode_snip, ModeKind::Snip));
    assert(en == 1 ==> plan[2 + dn] == e[0]);
    assert(plan[2 + dn + en].gesture == h.reset_zoom);
    assert(plan[3 + dn + en].gesture == h.snip_copy);
    assert(plan[4 + dn + en].gesture == h.cancel);
    lemma_first_match(plan, g);
}

proof fn lemma_taken(h: HotkeySettings, g: HotkeyGesture)
    ensures
        configured(h).contains(g) <==> g == h.freeze_toggle || g == h.reset_zoom || g == h.snip_copy
            || g == h.cancel || g == h.mode_spotlight || g == h.mode_snip,
{
    let taken = configured(h);
    assert(taken[0] == h.freeze_toggle);
    assert(taken[1] == h.reset_zoom);
    assert(taken[2] == h.snip_copy);
    assert(taken[3] == h.cancel);
    assert(taken[4] == h.mode_spotlight);
    assert(taken[5] == h.mode_snip);
}

/// The first entry of a plan with a gesture decides.
proof fn lemma_first_match(plan: Seq<FrozenRegistration>, g: HotkeyGesture)
    ensures
        first_action(plan, g) is None ==> forall|i: int|
            0 <= i < plan.len() ==> (#[trigger] plan[i]).gesture != g,
        first_action(plan, g) is Some ==> exists|i: int|
            0 <= i < plan.len() && (#[trigger] plan[i]).gesture == g && first_action(plan, g)
                == Some(plan[i].action) && forall|j: int|
                0 <= j < i ==> (#[trigger] plan[j]).gesture != g,
    decreases plan.len(),
{
    if plan.len() > 0 && plan[0].gesture != g {
        let rest = plan.skip(1);
        lemma_first_match(rest, g);
        if first_action(rest, g) is None {
            assert forall|i: int| 0 <= i < plan.len() implies (#[trigger] plan[i]).gesture != g by {
                if i > 0 {
                    assert(rest[i - 1] == plan[i]);
                }
            }
        } else {
            let i = choose|i: int|
                0 <= i < rest.len() && (#[trigger] rest[i]).gesture == g && first_action(rest, g)
                    == Some(rest[i].action) && forall|j: int|
                    0 <= j < i ==> (#[trigger] rest[j]).gesture != g;
            assert(plan[i + 1] == rest[i]);
            assert forall|j: int| 0 <= j < i + 1 implies (#[trigger] plan[j]).gesture != g by {
                if j > 0 {
                    assert(rest[j - 1] == plan[j]);
                }
            }
        }
    } else if plan.len() > 0 {
        assert(plan[0].gesture == g);
    }
}

/// A keyboard's modifier mask has Shift in its lowest bit, Control in the third,
/// Alt in the fourth and Win in the seventh.
pub proof fn lemma_modifier_mask(mask: u32)
    ensures
        mask_modifiers(mask).shift <==> mask & 0x01 != 0,
        mask_modifiers(mask).ctrl <==> mask & 0x04 != 0,
        mask_modifiers(mask).alt <==> mask & 0x08 != 0,
        mask_modifiers(mask).win <==> mask & 0x40 != 0,
{
    assert(mask % 2 == 1 <==> mask & 0x01 != 0) by (bit_vector);
    assert(mask / 4 % 2 == 1 <==> mask & 0x04 != 0) by (bit_vector);
    assert(mask / 8 % 2 == 1 <==> mask & 0x08 != 0) by (bit_vector);
    assert(mask / 64 % 2 == 1 <==> mask & 0x40 != 0) by (bit_vector);
}

/// A hotkey event carries the id it was registered with.
pub proof fn lemma_event_carries_the_id(id: i32)
    requires
        1 <= id <= 0xBFFF,
    ensures
        low_i32(id as usize) == id,
{
}

/// Ids are searched one after the other from 1 to the highest one and then from
/// 1 again, so that every id comes up once in a round.
pub proof fn lemma_ids_come_round(start: i32, k: int)
    requires
        1 <= start <= 0xBFFF,
        0 <= k < 0xBFFF,
    ensures
        1 <= scan(start, k) <= 0xBFFF,
        scan(start, 0) == start,
        scan(start, k) < 0xBFFF ==> scan(start, k + 1) == scan(start, k) + 1,
        scan(start, k) == 0xBFFF ==> scan(start, k + 1) == 1,
{
}

/// Two sets of modifiers together are the smallest set that holds both.
pub proof fn lemma_modifiers_together(a: Modifiers, b: Modifiers, both: Modifiers)
    ensures
        a.with(b).holds(a),
        a.with(b).holds(b),
        both.holds(a) && both.holds(b) ==> both.holds(a.with(b)),
        a.holds(b) && b.holds(a) ==> a == b,
        a.holds(Modifiers { alt: false, ctrl: false, shift: false, win: false }),
        (Modifiers { alt: false, ctrl: false, shift: false, win: false }).holds(a) ==> !a.alt
            && !a.ctrl && !a.shift && !a.win,
{
}

} // verus!
