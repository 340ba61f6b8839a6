//! What the macOS shell owes its user, stated over what the system hands in
//! and what the shell hands back. The vocabulary here belongs to the
//! statements alone: no operation is defined by it.

use crate::capture::DibBuffer;
use crate::geometry::{Point, Rect};
use crate::hotkeys::gesture::Modifiers;
use crate::hotkeys::keymap::vk_of;
use crate::overlay::events::OverlayEvent;
use crate::overlay::pixel_laws::{lemma_place, place};
use crate::platform::macos::capture::{
    decoded, denied, described, display_index, encoded, first_unavailable, lemma_first_sep,
    readable, screen_name, ScreenDesc,
};
use crate::platform::macos::hotkeys::{carbon_flags, is_our_press};
use crate::platform::macos::surface::{
    modifiers_of, monitored, screen_at, Invalidate, MacOverlaySurface, NativeEvent, SurfaceError,
};
use crate::platform::macos::tray::{menu_items, TrayEvent};
use crate::text::{decimal, lowered, occurs, parsed_number, signed_decimal};
use vstd::prelude::*;

verus! {

/// An event's modifiers are the bits of its flags that the system sets for
/// Shift, Control, Option and Command; no other bit matters.
pub proof fn lemma_modifier_bits(flags: u64)
    ensures
        modifiers_of(flags).shift <==> flags & 0x2_0000 != 0,
        modifiers_of(flags).ctrl <==> flags & 0x4_0000 != 0,
        modifiers_of(flags).alt <==> flags & 0x8_0000 != 0,
        modifiers_of(flags).win <==> flags & 0x10_0000 != 0,
{
    assert(flags / 0x2_0000 % 2 == 1 <==> flags & 0x2_0000 != 0) by (bit_vector);
    assert(flags / 0x4_0000 % 2 == 1 <==> flags & 0x4_0000 != 0) by (bit_vector);
    assert(flags / 0x8_0000 % 2 == 1 <==> flags & 0x8_0000 != 0) by (bit_vector);
    assert(flags / 0x10_0000 % 2 == 1 <==> flags & 0x10_0000 != 0) by (bit_vector);
}

/// A pointer event reports its own position; moving with the button held is
/// moving. The wheel also reports its distance and the modifiers. All of them
/// reach the window system too.
pub proof fn lemma_pointer_events(at: Point, delta: i32, flags: u64)
    ensures
        monitored(true, NativeEvent::MouseMoved { at }).report == Some(
            OverlayEvent::MouseMove { at },
        ),
        monitored(true, NativeEvent::LeftMouseDragged { at }) == monitored(
            true,
            NativeEvent::MouseMoved { at },
        ),
        monitored(true, NativeEvent::LeftMouseDown { at }).report == Some(
            OverlayEvent::LeftButtonDown { at },
        ),
        monitored(true, NativeEvent::LeftMouseUp { at }).report == Some(
            OverlayEvent::LeftButtonUp { at },
        ),
        monitored(true, NativeEvent::ScrollWheel { at, delta, flags }).report matches Some(
            OverlayEvent::MouseWheel { at: p, delta: d, modifiers },
        ) && p == at && d == delta && (modifiers.shift <==> flags & 0x2_0000 != 0)
            && (modifiers.ctrl <==> flags & 0x4_0000 != 0) && (modifiers.alt <==> flags & 0x8_0000
            != 0) && (modifiers.win <==> flags & 0x10_0000 != 0),
        monitored(true, NativeEvent::MouseMoved { at }).pass_on,
        monitored(true, NativeEvent::LeftMouseDown { at }).pass_on,
        monitored(true, NativeEvent::LeftMouseUp { at }).pass_on,
        monitored(true, NativeEvent::ScrollWheel { at, delta, flags }).pass_on,
{
    lemma_modifier_bits(flags);
}

/// A key sent to the overlay is reported with the modifiers held, when it has
/// a virtual-key code, and never goes further. What is not for this surface,
/// and what is no pointer or key event, goes by unreported.
pub proof fn lemma_key_events(key_code: u16, flags: u64, event: NativeEvent)
    ensures
        vk_of(key_code as int) is None ==> monitored(
            true,
            NativeEvent::KeyDown { key_code, flags },
        ).report is None,
        vk_of(key_code as int) matches Some(vk) ==> (monitored(
            true,
            NativeEvent::KeyDown { key_code, flags },
        ).report matches Some(OverlayEvent::KeyDown { vk: v, modifiers }) && v == vk
            && (modifiers.shift <==> flags & 0x2_0000 != 0) && (modifiers.ctrl <==> flags & 0x4_0000
            != 0) && (modifiers.alt <==> flags & 0x8_0000 != 0) && (modifiers.win <==> flags
            & 0x10_0000 != 0)),
        !monitored(true, NativeEvent::KeyDown { key_code, flags }).pass_on,
        monitored(false, event).report is None,
        monitored(false, event).pass_on,
        monitored(true, NativeEvent::Other).report is None,
        monitored(true, NativeEvent::Other).pass_on,
{
    lemma_modifier_bits(flags);
}

/// The overlay of a monitor goes to the first screen with that rectangle, and
/// to none when there is no such screen.
pub proof fn lemma_first_screen(screens: Seq<Rect>, rect: Rect, from: int)
    requires
        0 <= from <= screens.len() <= usize::MAX,
    ensures
        match screen_at(screens, rect, from) {
            Some(i) => {
                &&& from <= i < screens.len()
                &&& screens[i as int] == rect
                &&& forall|j: int| from <= j < i ==> #[trigger] screens[j] != rect
            },
            None => forall|j: int| from <= j < screens.len() ==> #[trigger] screens[j] != rect,
        },
    decreases screens.len() - from,
{
    if from < screens.len() && screens[from] != rect {
        lemma_first_screen(screens, rect, from + 1);
    }
}

/// A screen is paired with the first display of its id, and with none when
/// there is no such display.
pub proof fn lemma_first_display(displays: Seq<u32>, id: u32, from: int)
    requires
        0 <= from <= displays.len() <= usize::MAX,
    ensures
        match display_index(displays, id, from) {
            Some(i) => {
                &&& from <= i < displays.len()
                &&& displays[i as int] == id
                &&& forall|j: int| from <= j < i ==> #[trigger] displays[j] != id
            },
            None => forall|j: int| from <= j < displays.len() ==> #[trigger] displays[j] != id,
        },
    decreases displays.len() - from,
{
    if from < displays.len() && displays[from] != id {
        lemma_first_display(displays, id, from + 1);
    }
}

/// The screen that is named as unavailable is the first that has no display
/// of its id.
pub proof fn lemma_first_unavailable(screens: Seq<ScreenDesc>, displays: Seq<u32>, from: int)
    requires
        0 <= from <= screens.len() <= usize::MAX,
        displays.len() <= usize::MAX,
    ensures
        match first_unavailable(screens, displays, from) {
            Some(i) => {
                &&& from <= i < screens.len()
                &&& !displays.contains(screens[i as int].display_id)
                &&& forall|j: int|
                    from <= j < i ==> displays.contains((#[trigger] screens[j]).display_id)
            },
            None => forall|j: int|
                from <= j < screens.len() ==> displays.contains((#[trigger] screens[j]).display_id),
        },
    decreases screens.len() - from,
{
    if from < screens.len() {
        let id = screens[from].display_id;
        lemma_first_display(displays, id, 0);
        match display_index(displays, id, 0) {
            Some(i) => {
                assert(displays[i as int] == id);
                assert(displays.contains(id));
                lemma_first_unavailable(screens, displays, from + 1);
            },
            None => {
                assert(!displays.contains(id));
            },
        }
    }
}

/// A screen is named by its display's id; without one, by its place among the
/// screens.
pub proof fn lemma_screen_names(screen: ScreenDesc, index: int)
    requires
        0 <= index,
    ensures
        screen.display_id > 0 ==> screen_name(screen, index) == decimal(screen.display_id as nat),
        screen.display_id == 0 ==> screen_name(screen, index) == "display-"@ + decimal(
            index as nat,
        ),
{
}

/// Each modifier of the freeze hotkey adds its own flag; a hotkey without
/// modifiers has none.
pub proof fn lemma_hotkey_flags(m: Modifiers)
    ensures
        carbon_flags(Modifiers { win: true, ..m }) == carbon_flags(Modifiers { win: false, ..m })
            + 0x0100,
        carbon_flags(Modifiers { shift: true, ..m }) == carbon_flags(
            Modifiers { shift: false, ..m },
        ) + 0x0200,
        carbon_flags(Modifiers { alt: true, ..m }) == carbon_flags(Modifiers { alt: false, ..m })
            + 0x0800,
        carbon_flags(Modifiers { ctrl: true, ..m }) == carbon_flags(Modifiers { ctrl: false, ..m })
            + 0x1000,
        carbon_flags(Modifiers { alt: false, ctrl: false, shift: false, win: false }) == 0,
{
}

/// Only a hotkey press (kind 5 of the class `keyb`) of a hotkey that this
/// application signed (`SPFZ`) is taken.
pub proof fn lemma_our_press(class: u32, kind: u32, signature: u32)
    ensures
        is_our_press(class, kind, Some(signature)) <==> class == 0x6b65_7962 && kind == 5
            && signature == 0x5350_465a,
        !is_our_press(class, kind, None),
{
}

/// An error on its way between threads keeps its fields: what was between the
/// separators is read back, an empty domain and a code that is no number as
/// absent. A text that is no such encoding is all description.
#[verifier::rlimit(60)]
pub proof fn lemma_error_fields(domain: Seq<char>, code: Seq<char>, description: Seq<char>)
    requires
        !domain.contains('\u{1f}'),
        !code.contains('\u{1f}'),
    ensures
        decoded(domain + seq!['\u{1f}'] + code + seq!['\u{1f}'] + description) == (
            if domain.len() == 0 {
                None
            } else {
                Some(domain)
            },
            parsed_number(code),
            description,
        ),
        decoded(domain) == (None::<Seq<char>>, None::<i64>, domain),
        decoded(domain + seq!['\u{1f}'] + code) == (
            None::<Seq<char>>,
            None::<i64>,
            domain + seq!['\u{1f}'] + code,
        ),
{
    let sep = seq!['\u{1f}'];
    let n = domain.len() as int;
    let m = code.len() as int;
    assert forall|i: int| 0 <= i < n implies domain[i] != '\u{1f}' by {
        assert(domain.contains(domain[i]));
    }
    assert forall|i: int| 0 <= i < m implies code[i] != '\u{1f}' by {
        assert(code.contains(code[i]));
    }
    let text = domain + sep + code + sep + description;
    lemma_first_sep(text, n);
    let rest = text.skip(n + 1);
    assert(rest =~= code + sep + description);
    lemma_first_sep(rest, m);
    assert(text.take(n) =~= domain);
    assert(rest.take(m) =~= code);
    assert(rest.skip(m + 1) =~= description);
    lemma_first_sep(domain, n);
    let half = domain + sep + code;
    lemma_first_sep(half, n);
    assert(half.skip(n + 1) =~= code);
    lemma_first_sep(code, m);
}

/// An error is written as domain, code in decimal and description, a separator
/// between each; its own description where it has one, else its code in words.
pub proof fn lemma_error_text(domain: Seq<char>, code: i64, description: Seq<char>)
    ensures
        description.len() > 0 ==> described(code, description) == description,
        description.len() == 0 ==> described(code, description) == "ScreenCaptureKit error "@
            + signed_decimal(code as int),
        encoded(domain, code, description) == domain + seq!['\u{1f}'] + signed_decimal(code as int)
            + seq!['\u{1f}'] + described(code, description),
{
    assert(encoded(domain, code, description) =~= domain + seq!['\u{1f}'] + signed_decimal(
        code as int,
    ) + seq!['\u{1f}'] + described(code, description));
}

/// A denial is one of four things and nothing else: the system's own code for
/// it in the system's own domain, a domain or a description with a word for it
/// in any case, or no display at all while the check says no.
#[verifier::rlimit(60)]
pub proof fn lemma_denials(
    preflight_ok: bool,
    displays_empty: bool,
    domain: Seq<char>,
    code: i64,
    description: Seq<char>,
)
    ensures
        denied(
            preflight_ok,
            displays_empty,
            Some("com.apple.ScreenCaptureKit.SCStreamErrorDomain"@),
            Some(-3801i64),
            Some(description),
        ),
        denied(false, true, None, None, None),
        !denied(true, displays_empty, None, Some(code), None),
        !denied(preflight_ok, false, None, Some(code), None),
        occurs(lowered(description), "tcc"@) || occurs(lowered(description), "declined"@) || occurs(
            lowered(description),
            "screen recording"@,
        ) ==> denied(preflight_ok, displays_empty, None, None, Some(description)) && denied(
            preflight_ok,
            displays_empty,
            Some(description),
            None,
            None,
        ),
        !occurs(lowered(description), "tcc"@) && !occurs(lowered(description), "declined"@)
            && !occurs(lowered(description), "screen recording"@) && !occurs(
            lowered(domain),
            "tcc"@,
        ) && !occurs(lowered(domain), "declined"@) && !occurs(lowered(domain), "screen recording"@)
            && (code != -3801 || domain != "com.apple.ScreenCaptureKit.SCStreamErrorDomain"@)
            && !(displays_empty && !preflight_ok) ==> !denied(
            preflight_ok,
            displays_empty,
            Some(domain),
            Some(code),
            Some(description),
        ),
{
}

/// An image's bytes are used as they are only when they are whole rows of
/// eight-bit pixels of four channels.
pub proof fn lemma_readable_images(
    width: u32,
    height: u32,
    component: usize,
    pixel: usize,
    row: usize,
    bytes: Seq<u8>,
)
    requires
        width > 0,
        height > 0,
    ensures
        readable(width, height, component, pixel, row, Some(bytes)) <==> component == 8 && pixel
            == 32 && row >= width * 4 && (height - 1) * row + width * 4 <= bytes.len(),
        !readable(width, height, component, pixel, row, None),
{
}

/// The status menu: each title stands for its own event, all of them can be
/// chosen but the update entry while it is disabled, and the first line is
/// only a label.
pub proof fn lemma_status_menu(
    label: Seq<char>,
    enabled: bool,
    i: int,
    title: Seq<char>,
    event: Option<TrayEvent>,
    choosable: bool,
)
    requires
        0 <= i < menu_items(label, enabled).len(),
        menu_items(label, enabled)[i] == Some((title, event, choosable)),
    ensures
        event is None <==> i == 0,
        event is None ==> !choosable,
        event == Some(TrayEvent::MenuSpotlight) ==> title == "Spotlight"@ && choosable,
        event == Some(TrayEvent::MenuScreenshot) ==> title == "Screenshot"@ && choosable,
        event == Some(TrayEvent::MenuSettings) ==> title == "Settings…"@ && choosable,
        event == Some(TrayEvent::MenuOpenSettingsFolder) ==> title == "Open Settings Folder"@
            && choosable,
        event == Some(TrayEvent::MenuReloadSettings) ==> title == "Reload Settings"@ && choosable,
        event == Some(TrayEvent::MenuExit) ==> title == "Exit SpotFreeze"@ && choosable,
        event == Some(TrayEvent::MenuUpdate) ==> title == label && choosable == enabled,
{
}

/// A present brings the region's pixels of the frame into the store and keeps
/// all others; without a region it brings every pixel. A frame of another
/// layout is refused and changes nothing.
#[verifier::rlimit(60)]
pub proof fn lemma_stored_pixels(
    before: MacOverlaySurface,
    frame: DibBuffer,
    dirty: Option<Rect>,
    after: MacOverlaySurface,
    r: Result<Invalidate, SurfaceError>,
    x: int,
    y: int,
    c: int,
)
    requires
        MacOverlaySurface::presented(before, frame, dirty, after, r),
        before.wf(),
        frame.pixels@.len() == frame.stride * frame.height,
        0 <= x < before.width,
        0 <= y < before.height,
        0 <= c < 4,
    ensures
        r is Ok <==> frame.width == before.width && frame.height == before.height && frame.stride
            == 4 * frame.width,
        r is Err ==> after.pixels@ == before.pixels@,
        r is Ok ==> {
            let i = place(before.width, x, y, c);
            let shown = match dirty {
                Some(d) => 0 <= x - d.x < d.width && 0 <= y - d.y < d.height,
                None => true,
            };
            &&& shown ==> after.pixels@[i] == frame.pixels@[i]
            &&& !shown ==> after.pixels@[i] == before.pixels@[i]
            &&& shown ==> (r->Ok_0 matches Invalidate::Region(k) ==> 0 <= x - k.x < k.width && 0
                <= y - k.y < k.height)
        },
{
    lemma_place(before.width, before.height, x, y, c);
    if r is Ok {
        assert(frame.pixels@.len() == before.width * 4 * before.height);
        if r->Ok_0 is Region && dirty is Some {
            let k = r->Ok_0->Region_0;
            assert(k.covers(x, y) <==> dirty->0.covers(x, y));
        }
    }
}

} // verus!
