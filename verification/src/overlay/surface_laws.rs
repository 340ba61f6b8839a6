//! What overlay windows, transitions and the legend promise.
//!
//! The vocabulary here belongs to the statements alone: no operation is defined
//! by it.

use crate::geometry::{Point, Rect};
use crate::hotkeys::gesture::Modifiers;
use crate::overlay::composite::lemma_monitor_at;
use crate::overlay::controller::{flash_step, FlashStep};
use crate::overlay::events::OverlayEvent;
use crate::overlay::fade::{lemma_eased, progress, radius_scale, FadeDirection};
use crate::overlay::legend::{chip_offset, chip_width, hotkey_texts, pill_width_of, Legend};
use crate::overlay::window::{message_action, signed_word, wheel_route, WndAction};
use crate::settings::model::HotkeySettings;
use vstd::prelude::*;

verus! {

/// A signed word is the number of 16 bits, negative from half on, that differs
/// from the whole by a multiple of 65536.
pub proof fn lemma_signed_words(v: int)
    ensures
        -0x8000 <= signed_word(v) < 0x8000,
        (v - signed_word(v)) % 0x1_0000 == 0,
{
}

/// `p` is one of the rectangle's pixels.
pub open spec fn on_monitor(r: Rect, p: Point) -> bool {
    0 <= p.x - r.x < r.width && 0 <= p.y - r.y < r.height
}

/// Monitor `i` is the first that `p` is on.
pub open spec fn first_under(monitors: Seq<Rect>, p: Point, i: int) -> bool {
    &&& 0 <= i < monitors.len()
    &&& on_monitor(monitors[i], p)
    &&& forall|k: int| 0 <= k < i ==> !on_monitor(#[trigger] monitors[k], p)
}

/// A wheel event goes to the monitor the cursor is on, at the cursor's offset
/// from that monitor's corner, whichever window received it.
pub proof fn lemma_wheel_goes_to_the_cursor(
    p: Point,
    monitors: Seq<Rect>,
    receiver: usize,
    i: int,
)
    requires
        monitors.len() <= usize::MAX,
        first_under(monitors, p, i),
        p.x - monitors[i].x <= i32::MAX,
        p.y - monitors[i].y <= i32::MAX,
    ensures
        wheel_route(p, monitors, receiver).0 == i,
        wheel_route(p, monitors, receiver).1.x == p.x - monitors[i].x,
        wheel_route(p, monitors, receiver).1.y == p.y - monitors[i].y,
{
    assert forall|k: int| 0 <= k < i implies !(#[trigger] monitors[k]).covers(
        p.x as int,
        p.y as int,
    ) by {
        assert(!on_monitor(monitors[k], p));
    }
    lemma_monitor_at(p, monitors, i);
}

/// With the cursor on no monitor, a wheel event stays with the window that
/// received it.
pub proof fn lemma_wheel_off_every_monitor(p: Point, monitors: Seq<Rect>, receiver: usize)
    requires
        monitors.len() <= usize::MAX,
        receiver < monitors.len(),
        forall|k: int| 0 <= k < monitors.len() ==> !on_monitor(#[trigger] monitors[k], p),
        i32::MIN <= p.x - monitors[receiver as int].x <= i32::MAX,
        i32::MIN <= p.y - monitors[receiver as int].y <= i32::MAX,
    ensures
        wheel_route(p, monitors, receiver).0 == receiver,
        wheel_route(p, monitors, receiver).1.x == p.x - monitors[receiver as int].x,
        wheel_route(p, monitors, receiver).1.y == p.y - monitors[receiver as int].y,
{
    assert forall|k: int| 0 <= k < monitors.len() implies !(#[trigger] monitors[k]).covers(
        p.x as int,
        p.y as int,
    ) by {
        assert(!on_monitor(monitors[k], p));
    }
    lemma_monitor_at(p, monitors, monitors.len() as int);
}

/// The pointer messages of an overlay window are events of its own monitor at
/// the position they carry: x in the low word, y in the next one.
pub proof fn lemma_pointer_messages(
    wparam: usize,
    lparam: isize,
    modifiers: Modifiers,
    index: usize,
    monitors: Seq<Rect>,
    at: Point,
)
    requires
        -0x8000 <= at.x < 0x8000,
        -0x8000 <= at.y < 0x8000,
        (lparam - at.x) % 0x1_0000 == 0,
        (lparam as int / 0x1_0000 - at.y) % 0x1_0000 == 0,
    ensures
        message_action(true, 0x0200, wparam, lparam, modifiers, index, monitors)
            == (WndAction::Emit { monitor: index, event: OverlayEvent::MouseMove { at } }),
        message_action(true, 0x0201, wparam, lparam, modifiers, index, monitors)
            == (WndAction::Emit { monitor: index, event: OverlayEvent::LeftButtonDown { at } }),
        message_action(true, 0x0202, wparam, lparam, modifiers, index, monitors)
            == (WndAction::Emit { monitor: index, event: OverlayEvent::LeftButtonUp { at } }),
{
}

/// A wheel message carries its delta in the high word of its first parameter,
/// and goes where the cursor is.
pub proof fn lemma_wheel_messages(
    wparam: usize,
    lparam: isize,
    modifiers: Modifiers,
    index: usize,
    monitors: Seq<Rect>,
)
    ensures
        message_action(true, 0x020A, wparam, lparam, modifiers, index, monitors) matches WndAction::Emit {
            monitor,
            event: OverlayEvent::MouseWheel { at, delta, modifiers: held },
        } && held == modifiers && -0x8000 <= delta < 0x8000 && (wparam as int / 0x1_0000 - delta)
            % 0x1_0000 == 0 && (monitor, at) == wheel_route(
            Point {
                x: signed_word(lparam as int),
                y: signed_word(lparam as int / 0x1_0000),
            },
            monitors,
            index,
        ),
{
}

/// A key message is a key event with the key's code and the modifiers held.
pub proof fn lemma_key_messages(
    vk: u32,
    lparam: isize,
    modifiers: Modifiers,
    index: usize,
    monitors: Seq<Rect>,
)
    ensures
        message_action(true, 0x0100, vk as usize, lparam, modifiers, index, monitors)
            == (WndAction::Emit { monitor: index, event: OverlayEvent::KeyDown { vk, modifiers } }),
{
}

/// Before its context is attached, and for every message it does not know, an
/// overlay window does what any window does.
pub proof fn lemma_other_messages(
    has_context: bool,
    msg: u32,
    wparam: usize,
    lparam: isize,
    modifiers: Modifiers,
    index: usize,
    monitors: Seq<Rect>,
)
    requires
        msg != 0x0081,
        msg != 0x0082,
        !has_context || (msg != 0x0200 && msg != 0x0201 && msg != 0x0202 && msg != 0x020A && msg
            != 0x0100 && msg != 0x0014 && msg != 0x000F),
    ensures
        message_action(has_context, msg, wparam, lparam, modifiers, index, monitors)
            == WndAction::Default,
{
}

/// The progress of an entry is 255 times the ease-out cubic of its time,
/// rounded: with `left` milliseconds of 200 to go, `1 - (left / 200)^3`.
pub proof fn lemma_entry_is_ease_out_cubic(ms: u64, left: int)
    requires
        ms <= 200,
        left == 200 - ms,
    ensures
        ({
            let v = progress(ms, FadeDirection::In);
            let exact = 255 * (8_000_000 - left * left * left);
            &&& 2 * (8_000_000 * v - exact) <= 8_000_000
            &&& 2 * (exact - 8_000_000 * v) < 8_000_000
        }),
{
    lemma_eased(ms as int, 200);
}

/// The circle grows in step with the progress: from six tenths of its radius to
/// all of it, to the nearest thousandth.
pub proof fn lemma_circle_grows_in_step(alpha: u8)
    ensures
        -127 <= 255 * (radius_scale(alpha) - 600) - 400 * alpha <= 127,
{
}

/// The pill sits in the middle: what is left of it and what is right of it
/// differ by a pixel at most. It keeps its distance from the top where the frame
/// is tall enough.
pub proof fn lemma_pill_is_centered(legend: Legend, width: u32, height: u32)
    requires
        legend.pill_width <= width,
        crate::overlay::legend::PILL_H <= height,
    ensures
        ({
            let left = legend.left_edge(width);
            let right = width - left - legend.pill_width;
            0 <= left && 0 <= right - left <= 1
        }),
        0 <= Legend::top_edge(height) <= crate::overlay::legend::TOP_MARGIN,
        Legend::top_edge(height) + crate::overlay::legend::PILL_H <= height,
        crate::overlay::legend::PILL_H + crate::overlay::legend::TOP_MARGIN <= height
            ==> Legend::top_edge(height) == crate::overlay::legend::TOP_MARGIN,
{
}

/// The chips stand side by side from the left padding on, one gap apart, each
/// as wide as its text and its paddings; the right padding ends the pill.
pub proof fn lemma_chips_stand_side_by_side(texts: Seq<Seq<char>>, i: int)
    requires
        0 <= i < texts.len(),
    ensures
        chip_offset(texts, 0) == crate::overlay::legend::PILL_PAD_X,
        chip_offset(texts, i + 1) == chip_offset(texts, i) + chip_width(texts[i])
            + crate::overlay::legend::TAB_GAP,
        i == texts.len() - 1 ==> pill_width_of(texts) == chip_offset(texts, i) + chip_width(
            texts[i],
        ) + crate::overlay::legend::PILL_PAD_X,
        chip_width(texts[i]) == texts[i].len() * crate::overlay::legend::GLYPH_W + 2
            * crate::overlay::legend::TAB_PAD_X,
{
}

/// The legend names spotlight, zoom and snip in this order, each with the key
/// that is bound to it.
pub proof fn lemma_legend_names_the_keys(h: HotkeySettings)
    ensures
        hotkey_texts(h).len() == 3,
        hotkey_texts(h)[0] == "SPOTLIGHT ("@ + h.mode_spotlight.shown() + ")"@,
        hotkey_texts(h)[1] == "ZOOM ("@ + h.zoom_hold.shown() + ")"@,
        hotkey_texts(h)[2] == "SNIP ("@ + h.mode_snip.shown() + ")"@,
{
    reveal_strlit("SPOTLIGHT");
    reveal_strlit("ZOOM");
    reveal_strlit("SNIP");
    reveal_strlit(" (");
    reveal_strlit("SPOTLIGHT (");
    reveal_strlit("ZOOM (");
    reveal_strlit("SNIP (");
    assert("SPOTLIGHT"@ + " ("@ =~= "SPOTLIGHT ("@);
    assert("ZOOM"@ + " ("@ =~= "ZOOM ("@);
    assert("SNIP"@ + " ("@ =~= "SNIP ("@);
}

/// A flash shows the border for 70 milliseconds and then the plain view for
/// 50, as many times as there are flashes, and is over after that.
pub proof fn lemma_flashes(count: u32, k: int)
    requires
        0 <= k,
    ensures
        k < count ==> flash_step(count, 2 * k) == Some(FlashStep { bordered: true, hold_ms: 70 }),
        k < count ==> flash_step(count, 2 * k + 1) == Some(
            FlashStep { bordered: false, hold_ms: 50 },
        ),
        k >= 2 * count ==> flash_step(count, k) is None,
{
}

} // verus!
