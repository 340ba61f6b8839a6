//! The notification-area icon: its image, tooltip field, popup menu and
//! lifetime. Registering it with the system is the caller's part.

use crate::cli::VERSION;
use crate::text::{chars_of, push_text};
use vstd::math::{abs, max};
use vstd::prelude::*;

verus! {

/// User intents reported by the tray icon.
#[derive(Clone, Copy, PartialEq, Eq, Structural, Debug)]
pub enum TrayEvent {
    /// Freeze into spotlight mode, or switch to it when frozen.
    MenuSpotlight,
    /// Freeze when unfrozen, then enter capture mode.
    MenuScreenshot,
    /// Read the settings file again.
    MenuReloadSettings,
    MenuSettings,
    /// Show the folder of the settings file.
    MenuOpenSettingsFolder,
    /// Ask, then exit.
    MenuExit,
}

pub const IDM_SPOTLIGHT: usize = 1;

pub const IDM_SCREENSHOT: usize = 2;

pub const IDM_RELOAD_SETTINGS: usize = 3;

pub const IDM_SETTINGS: usize = 4;

pub const IDM_OPEN_FOLDER: usize = 5;

pub const IDM_EXIT: usize = 6;

/// One entry of a popup menu.
pub enum MenuEntry {
    /// Grayed text.
    Label(String),
    Separator,
    /// A choice with its id.
    Choice(&'static str, usize),
}

/// The version line of a menu.
pub open spec fn version_label() -> Seq<char> {
    "SpotFreeze v"@ + VERSION@
}

/// What an entry shows: its text and its id, 0 for a label; `None` for a
/// separator.
pub open spec fn entry_shows(entry: MenuEntry) -> Option<(Seq<char>, usize)> {
    match entry {
        MenuEntry::Label(text) => Some((text@, 0)),
        MenuEntry::Separator => None,
        MenuEntry::Choice(text, id) => Some((text@, id)),
    }
}

/// The popup menu: a grayed version line, then the choices in three groups.
pub open spec fn menu_shows() -> Seq<Option<(Seq<char>, usize)>> {
    seq![
        Some((version_label(), 0)),
        None,
        Some(("Spotlight"@, IDM_SPOTLIGHT)),
        Some(("Screenshot"@, IDM_SCREENSHOT)),
        None,
        Some(("Reload Settings"@, IDM_RELOAD_SETTINGS)),
        Some(("Settings…"@, IDM_SETTINGS)),
        Some(("Open settings folder"@, IDM_OPEN_FOLDER)),
        None,
        Some(("Exit"@, IDM_EXIT)),
    ]
}

/// The version line of a menu.
pub fn version_line() -> (r: String)
    ensures
        r@ == version_label(),
{
    let mut out: String = "SpotFreeze v".to_owned();
    push_text(&mut out, VERSION);
    out
}

/// The popup menu's entries in order.
pub fn show_context_menu() -> (r: Vec<MenuEntry>)
    ensures
        r@.len() == menu_shows().len(),
        forall|i: int| 0 <= i < r@.len() ==> entry_shows(#[trigger] r@[i]) == menu_shows()[i],
{
    let mut menu: Vec<MenuEntry> = Vec::new();
    menu.push(MenuEntry::Label(version_line()));
    menu.push(MenuEntry::Separator);
    menu.push(MenuEntry::Choice("Spotlight", IDM_SPOTLIGHT));
    menu.push(MenuEntry::Choice("Screenshot", IDM_SCREENSHOT));
    menu.push(MenuEntry::Separator);
    menu.push(MenuEntry::Choice("Reload Settings", IDM_RELOAD_SETTINGS));
    menu.push(MenuEntry::Choice("Settings…", IDM_SETTINGS));
    menu.push(MenuEntry::Choice("Open settings folder", IDM_OPEN_FOLDER));
    menu.push(MenuEntry::Separator);
    menu.push(MenuEntry::Choice("Exit", IDM_EXIT));
    menu
}

/// The event of a chosen id.
pub open spec fn event_of(command: usize) -> Option<TrayEvent> {
    if command == IDM_SPOTLIGHT {
        Some(TrayEvent::MenuSpotlight)
    } else if command == IDM_SCREENSHOT {
        Some(TrayEvent::MenuScreenshot)
    } else if command == IDM_RELOAD_SETTINGS {
        Some(TrayEvent::MenuReloadSettings)
    } else if command == IDM_SETTINGS {
        Some(TrayEvent::MenuSettings)
    } else if command == IDM_OPEN_FOLDER {
        Some(TrayEvent::MenuOpenSettingsFolder)
    } else if command == IDM_EXIT {
        Some(TrayEvent::MenuExit)
    } else {
        None
    }
}

/// The event of a chosen id; `None` when the menu was dismissed.
pub fn menu_event(command: usize) -> (r: Option<TrayEvent>)
    ensures
        r == event_of(command),
{
    match command {
        IDM_SPOTLIGHT => Some(TrayEvent::MenuSpotlight),
        IDM_SCREENSHOT => Some(TrayEvent::MenuScreenshot),
        IDM_RELOAD_SETTINGS => Some(TrayEvent::MenuReloadSettings),
        IDM_SETTINGS => Some(TrayEvent::MenuSettings),
        IDM_OPEN_FOLDER => Some(TrayEvent::MenuOpenSettingsFolder),
        IDM_EXIT => Some(TrayEvent::MenuExit),
        _ => None,
    }
}

/// Every choice of the menu has an event, and no two have the same.
pub proof fn lemma_choices_are_distinct(i: int, j: int)
    requires
        0 <= i < j < menu_shows().len(),
        menu_shows()[i] is Some,
        menu_shows()[j] is Some,
        (menu_shows()[i]->0).1 != 0,
        (menu_shows()[j]->0).1 != 0,
    ensures
        event_of((menu_shows()[i]->0).1) is Some,
        event_of((menu_shows()[i]->0).1) != event_of((menu_shows()[j]->0).1),
{
}

pub const WM_DESTROY: u32 = 0x0002;

pub const WM_LBUTTONUP: u32 = 0x0202;

pub const WM_RBUTTONUP: u32 = 0x0205;

/// Message the icon reports mouse messages with (first of the application
/// range, plus one).
pub const WM_TRAY_CALLBACK: u32 = 0x8001;

/// What the icon's hook on the owner window does with a message.
#[derive(Clone, Copy, PartialEq, Eq, Structural, Debug)]
pub enum TrayAction {
    /// Show the menu and return 0.
    ShowMenu,
    /// Return 0.
    Ignore,
    /// Forward, then clean up as [`TrayIcon::remove`] says.
    ForwardAndRemove,
    /// Forward.
    Forward,
}

/// Decide what the icon's hook does: either mouse button opens the menu, and
/// the owner's destruction removes the icon. The mouse message is the low 32
/// bits of the long parameter.
pub fn tray_subclass_proc(msg: u32, mouse_message: u32) -> (r: TrayAction)
    ensures
        r == (if msg == WM_TRAY_CALLBACK {
            if mouse_message == WM_LBUTTONUP || mouse_message == WM_RBUTTONUP {
                TrayAction::ShowMenu
            } else {
                TrayAction::Ignore
            }
        } else if msg == WM_DESTROY {
            TrayAction::ForwardAndRemove
        } else {
            TrayAction::Forward
        }),
{
    if msg == WM_TRAY_CALLBACK {
        if mouse_message == WM_LBUTTONUP || mouse_message == WM_RBUTTONUP {
            TrayAction::ShowMenu
        } else {
            TrayAction::Ignore
        }
    } else if msg == WM_DESTROY {
        TrayAction::ForwardAndRemove
    } else {
        TrayAction::Forward
    }
}

/// What is to be released.
#[derive(Clone, Copy, PartialEq, Eq, Structural, Debug)]
pub struct TrayRelease {
    /// Take the icon out of the notification area.
    pub delete_icon: bool,
    /// Destroy this image.
    pub destroy_image: Option<isize>,
    /// Remove the hook and release its reference.
    pub release_hook: bool,
}

/// Why there is no tray icon.
#[derive(Clone, Copy, PartialEq, Eq, Structural, Debug)]
pub enum TrayError {
    /// The notification area refused the icon.
    IconRefused,
    /// The owner window could not be hooked.
    HookRefused,
}

impl TrayError {
    /// What the error says.
    pub fn message(self) -> (r: &'static str)
        ensures
            r@ == (match self {
                TrayError::IconRefused => "Shell_NotifyIconW(NIM_ADD) failed"@,
                TrayError::HookRefused => "SetWindowSubclass failed"@,
            }),
    {
        match self {
            TrayError::IconRefused => "Shell_NotifyIconW(NIM_ADD) failed",
            TrayError::HookRefused => "SetWindowSubclass failed",
        }
    }
}

/// The icon's registration: what is still to be released.
pub struct TrayIcon {
    pub hwnd: isize,
    /// Image handle, until destroyed.
    pub image: Option<isize>,
    /// Registered with the notification area.
    pub icon_added: bool,
    /// The hook on the owner window is installed.
    pub hook_held: bool,
}

impl TrayIcon {
    /// The icon once its image is created, from how adding it to the
    /// notification area and hooking the owner window went (the hook is tried
    /// only after the icon was added). A refusal comes with what is to be
    /// released: the image, and the icon where it was added.
    pub fn create(hwnd: isize, image: isize, added: bool, hooked: bool) -> (r: Result<
        Self,
        (TrayError, TrayRelease),
    >)
        ensures
            match r {
                Ok(icon) => added && hooked && icon == (TrayIcon {
                    hwnd,
                    image: Some(image),
                    icon_added: true,
                    hook_held: true,
                }),
                Err(e) => !(added && hooked) && e == (
                    if added {
                        TrayError::HookRefused
                    } else {
                        TrayError::IconRefused
                    },
                    TrayRelease {
                        delete_icon: added,
                        destroy_image: Some(image),
                        release_hook: false,
                    },
                ),
            },
    {
        if !added {
            return Err(
                (
                    TrayError::IconRefused,
                    TrayRelease {
                        delete_icon: false,
                        destroy_image: Some(image),
                        release_hook: false,
                    },
                ),
            );
        }
        if !hooked {
            return Err(
                (
                    TrayError::HookRefused,
                    TrayRelease {
                        delete_icon: true,
                        destroy_image: Some(image),
                        release_hook: false,
                    },
                ),
            );
        }
        Ok(Self { hwnd, image: Some(image), icon_added: true, hook_held: true })
    }

    /// The tooltip field to hand the system; `None` when the icon is not
    /// registered.
    pub fn set_tooltip(&self, tooltip: &str) -> (r: Option<[u16; 128]>)
        ensures
            r is Some <==> self.icon_added,
            r matches Some(field) ==> field@ == tooltip_field(tooltip@),
    {
        if !self.icon_added {
            return None;
        }
        let mut field: [u16; 128] = [0;128];
        write_tooltip(&mut field, tooltip);
        Some(field)
    }

    /// Remove the icon: what is to be released, each thing once.
    pub fn remove(&mut self) -> (r: TrayRelease)
        ensures
            r == (TrayRelease {
                delete_icon: old(self).icon_added,
                destroy_image: old(self).image,
                release_hook: old(self).hook_held,
            }),
            *final(self) == (TrayIcon {
                hwnd: old(self).hwnd,
                image: None,
                icon_added: false,
                hook_held: false,
            }),
    {
        let r = TrayRelease {
            delete_icon: self.icon_added,
            destroy_image: self.image,
            release_hook: self.hook_held,
        };
        self.image = None;
        self.icon_added = false;
        self.hook_held = false;
        r
    }
}

/// A removed icon has nothing left to release: removing twice, or removing and
/// then destroying the owner, releases nothing a second time.
pub proof fn lemma_remove_is_idempotent(icon: TrayIcon, again: TrayRelease)
    requires
        icon.image is None,
        !icon.icon_added,
        !icon.hook_held,
        again == (TrayRelease {
            delete_icon: icon.icon_added,
            destroy_image: icon.image,
            release_hook: icon.hook_held,
        }),
    ensures
        !again.delete_icon,
        again.destroy_image is None,
        !again.release_hook,
{
}

/// UTF-16 units of one character.
pub open spec fn char_units(c: char) -> Seq<u16> {
    let v = c as u32;
    if v < 0x1_0000 {
        seq![v as u16]
    } else {
        seq![
            (0xD800 + (v - 0x1_0000) / 0x400) as u16,
            (0xDC00 + (v - 0x1_0000) % 0x400) as u16,
        ]
    }
}

/// UTF-16 units of a text.
pub open spec fn utf16_units(text: Seq<char>) -> Seq<u16>
    decreases text.len(),
{
    if text.len() == 0 {
        Seq::empty()
    } else {
        utf16_units(text.drop_last()) + char_units(text.last())
    }
}

/// UTF-16 units of a text.
pub fn encode_units(text: &str) -> (r: Vec<u16>)
    ensures
        r@ == utf16_units(text@),
{
    let chars = chars_of(text);
    let mut out: Vec<u16> = Vec::new();
    let mut i: usize = 0;
    proof {
        assert(chars@.take(0) =~= Seq::<char>::empty());
    }
    while i < chars.len()
        invariant
            i <= chars@.len(),
            out@ == utf16_units(chars@.take(i as int)),
        decreases chars@.len() - i,
    {
        let v: u32 = chars[i] as u32;
        let ghost before = out@;
        if v < 0x1_0000 {
            out.push(v as u16);
        } else {
            out.push((0xD800 + (v - 0x1_0000) / 0x400) as u16);
            out.push((0xDC00 + (v - 0x1_0000) % 0x400) as u16);
        }
        proof {
            let now = chars@.take(i + 1);
            assert(now.drop_last() =~= chars@.take(i as int));
            assert(now.last() == chars@[i as int]);
            assert(out@ =~= before + char_units(chars@[i as int]));
        }
        i += 1;
    }
    proof {
        assert(chars@.take(i as int) =~= chars@);
    }
    out
}

/// The tooltip field for a text: its first 127 UTF-16 units, the rest zero.
pub open spec fn tooltip_field(text: Seq<char>) -> Seq<u16> {
    Seq::new(
        128,
        |i: int|
            if i < 127 && i < utf16_units(text).len() {
                utf16_units(text)[i]
            } else {
                0
            },
    )
}

/// Write a text into the tooltip field: at most 127 UTF-16 units, always
/// NUL-terminated.
pub fn write_tooltip(dst: &mut [u16; 128], text: &str)
    ensures
        final(dst)@ == tooltip_field(text@),
{
    let units = encode_units(text);
    let mut i: usize = 0;
    while i < 128
        invariant
            i <= 128,
            dst@.len() == 128,
            units@ == utf16_units(text@),
            forall|k: int| 0 <= k < i ==> #[trigger] dst@[k] == tooltip_field(text@)[k],
        decreases 128 - i,
    {
        dst[i] = if i < 127 && i < units.len() {
            units[i]
        } else {
            0
        };
        i += 1;
    }
    proof {
        assert(dst@ =~= tooltip_field(text@));
    }
}

/// Side of the icon for the system's small-icon metrics: 16 unless they are a
/// positive square, held to 16..=64.
pub fn icon_size(width: i32, height: i32) -> (r: usize)
    ensures
        r == crate::geometry::bounded(
            if width > 0 && width == height {
                width as int
            } else {
                16
            },
            16,
            64,
        ),
{
    let size: i32 = if width > 0 && width == height {
        width
    } else {
        16
    };
    if size < 16 {
        16
    } else if size > 64 {
        64
    } else {
        size as usize
    }
}

/// Tile colour (blue, green, red).
pub const NAVY: [u8; 3] = [0x2A, 0x17, 0x0F];

/// Disc colour.
pub const WHITE: [u8; 3] = [0xFC, 0xFA, 0xF8];

/// Ring and sparkle colour.
pub const SKY: [u8; 3] = [0xF8, 0xBD, 0x38];

/// The sparkle is dropped below this side.
pub const SPARKLE_MIN_SIZE: usize = 24;

/// Whether an icon's bytes, four per pixel, can be counted.
pub open spec fn icon_fits(size: usize) -> bool {
    size * size * 4 <= usize::MAX
}

/// An icon that fits has a side of less than 31 bits.
pub(crate) proof fn lemma_icon_fits(size: usize)
    requires
        icon_fits(size),
    ensures
        size <= 0x7fff_ffff,
{
    assert(size <= 0x7fff_ffff) by (nonlinear_arith)
        requires
            size * size * 4 <= 0xffff_ffff_ffff_ffff,
            0 <= size,
    ;
}

/// Signed distance of a pixel's center from the icon's center line, in half
/// pixels.
pub open spec fn off_center(v: int, size: int) -> int {
    2 * v + 1 - size
}

/// Inside the rounded square, whose corner radius is 22% of the side. `dx` and
/// `dy` are in half pixels; lengths are scaled by 100.
pub open spec fn in_tile(dx: int, dy: int, size: int) -> bool {
    let qx = max(100 * abs(dx) - 56 * size, 0);
    let qy = max(100 * abs(dy) - 56 * size, 0);
    qx * qx + qy * qy <= (44 * size) * (44 * size)
}

/// Offset of the sparkle from the center along each axis, in half pixels per
/// billion of the side: 86% of the side over the square root of two.
pub const SPARKLE_OFFSET: i128 = 608_111_832;

/// Arm of the sparkle, in half pixels per billion of the side: 24%.
pub const SPARKLE_ARM: i128 = 240_000_000;

/// Inside the four-point star `sqrt(u) + sqrt(v) <= sqrt(arm)` centered on the
/// ring at the upper right, `u` and `v` being the distances from its axes. The
/// roots are gone from the inequality after squaring twice.
pub open spec fn in_sparkle(dx: int, dy: int, size: int) -> bool {
    let u = abs(dx * 1_000_000_000 - size * SPARKLE_OFFSET) as int;
    let v = abs(dy * 1_000_000_000 + size * SPARKLE_OFFSET) as int;
    let rest = size * SPARKLE_ARM - u - v;
    rest >= 0 && 4 * (u * v) <= rest * rest
}

/// The icon at pixel `(x, y)`: `None` outside the tile; the sparkle (on large
/// icons), the disc of 30% radius, the ring of 6% width at 43%, and the tile.
pub open spec fn motif(size: int, x: int, y: int) -> Option<[u8; 3]> {
    let dx = off_center(x, size);
    let dy = off_center(y, size);
    let d = (100 * dx) * (100 * dx) + (100 * dy) * (100 * dy);
    if !in_tile(dx, dy, size) {
        None
    } else if size >= SPARKLE_MIN_SIZE && in_sparkle(dx, dy, size) {
        Some(SKY)
    } else if d <= (60 * size) * (60 * size) {
        Some(WHITE)
    } else if (80 * size) * (80 * size) <= d <= (92 * size) * (92 * size) {
        Some(SKY)
    } else {
        Some(NAVY)
    }
}

/// A product whose factors are small enough.
pub(crate) fn product(a: i128, b: i128) -> (r: i128)
    requires
        -6_000_000_000_000_000_000 <= a <= 6_000_000_000_000_000_000,
        -6_000_000_000_000_000_000 <= b <= 6_000_000_000_000_000_000,
    ensures
        r == a * b,
        -36_000_000_000_000_000_000_000_000_000_000_000_000 <= r
            <= 36_000_000_000_000_000_000_000_000_000_000_000_000,
{
    proof {
        assert(-36_000_000_000_000_000_000_000_000_000_000_000_000 <= a * b
            <= 36_000_000_000_000_000_000_000_000_000_000_000_000) by (nonlinear_arith)
            requires
                -6_000_000_000_000_000_000 <= a <= 6_000_000_000_000_000_000,
                -6_000_000_000_000_000_000 <= b <= 6_000_000_000_000_000_000,
        ;
    }
    a * b
}

pub(crate) fn magnitude(v: i128) -> (r: i128)
    requires
        i128::MIN < v,
    ensures
        r == abs(v as int),
{
    if v < 0 {
        -v
    } else {
        v
    }
}

fn tile_contains(dx: i128, dy: i128, s: i128) -> (r: bool)
    requires
        0 <= s <= 0x7fff_ffff,
        -s < dx < s,
        -s < dy < s,
    ensures
        r == in_tile(dx as int, dy as int, s as int),
{
    let ax: i128 = 100 * magnitude(dx) - 56 * s;
    let ay: i128 = 100 * magnitude(dy) - 56 * s;
    let qx: i128 = if ax > 0 {
        ax
    } else {
        0
    };
    let qy: i128 = if ay > 0 {
        ay
    } else {
        0
    };
    product(qx, qx) + product(qy, qy) <= product(44 * s, 44 * s)
}

fn sparkle_contains(dx: i128, dy: i128, s: i128) -> (r: bool)
    requires
        0 <= s <= 0x7fff_ffff,
        -s < dx < s,
        -s < dy < s,
    ensures
        r == in_sparkle(dx as int, dy as int, s as int),
{
    proof {
        assert(0 <= s * SPARKLE_OFFSET <= 0x7fff_ffff * 608_111_832) by (nonlinear_arith)
            requires
                0 <= s <= 0x7fff_ffff,
                SPARKLE_OFFSET == 608_111_832,
        ;
        assert(0 <= s * SPARKLE_ARM <= 0x7fff_ffff * 240_000_000) by (nonlinear_arith)
            requires
                0 <= s <= 0x7fff_ffff,
                SPARKLE_ARM == 240_000_000,
        ;
    }
    let offset: i128 = product(s, SPARKLE_OFFSET);
    let u: i128 = magnitude(dx * 1_000_000_000 - offset);
    let v: i128 = magnitude(dy * 1_000_000_000 + offset);
    let rest: i128 = product(s, SPARKLE_ARM) - u - v;
    rest >= 0 && 4 * product(u, v) <= product(rest, rest)
}

/// A pixel past the right or the lower edge is outside the tile.
proof fn lemma_outside_the_tile(size: int, x: int, y: int)
    requires
        0 <= size,
        0 <= x,
        0 <= y,
        x >= size || y >= size,
    ensures
        !in_tile(off_center(x, size), off_center(y, size), size),
{
    let dx = off_center(x, size);
    let dy = off_center(y, size);
    let qx = max(100 * abs(dx) - 56 * size, 0);
    let qy = max(100 * abs(dy) - 56 * size, 0);
    let r = 44 * size;
    assert(qx > r || qy > r);
    assert(qx * qx + qy * qy > r * r) by (nonlinear_arith)
        requires
            0 <= qx,
            0 <= qy,
            0 <= r,
            qx > r || qy > r,
    ;
}

/// The "frost spotlight" motif at pixel `(x, y)` of a `size` by `size` icon,
/// sampled at the pixel's center; `None` = transparent, as everything outside
/// the icon is.
pub fn motif_bgr(size: usize, x: usize, y: usize) -> (r: Option<[u8; 3]>)
    requires
        icon_fits(size),
    ensures
        r == motif(size as int, x as int, y as int),
{
    proof {
        lemma_icon_fits(size);
    }
    if x >= size || y >= size {
        proof {
            lemma_outside_the_tile(size as int, x as int, y as int);
        }
        return None;
    }
    let s: i128 = size as i128;
    let dx: i128 = 2 * x as i128 + 1 - s;
    let dy: i128 = 2 * y as i128 + 1 - s;
    if !tile_contains(dx, dy, s) {
        return None;
    }
    if size >= SPARKLE_MIN_SIZE && sparkle_contains(dx, dy, s) {
        return Some(SKY);
    }
    let d: i128 = product(100 * dx, 100 * dx) + product(100 * dy, 100 * dy);
    if d <= product(60 * s, 60 * s) {
        return Some(WHITE);
    }
    if product(80 * s, 80 * s) <= d && d <= product(92 * s, 92 * s) {
        return Some(SKY);
    }
    Some(NAVY)
}

/// The motif without its sparkle is the same mirrored left to right and top to
/// bottom.
pub proof fn lemma_motif_is_symmetric(size: int, x: int, y: int)
    requires
        0 < size < SPARKLE_MIN_SIZE,
        0 <= x < size,
        0 <= y < size,
    ensures
        motif(size, size - 1 - x, y) == motif(size, x, y),
        motif(size, x, size - 1 - y) == motif(size, x, y),
{
    let dx = off_center(x, size);
    let dy = off_center(y, size);
    assert(off_center(size - 1 - x, size) == -dx);
    assert(off_center(size - 1 - y, size) == -dy);
    assert((100 * -dx) * (100 * -dx) == (100 * dx) * (100 * dx)) by (nonlinear_arith);
    assert((100 * -dy) * (100 * -dy) == (100 * dy) * (100 * dy)) by (nonlinear_arith);
}

/// Bytes per row of the transparency mask: one bit per pixel, rows padded to
/// 16 bits.
pub open spec fn and_stride(size: int) -> int {
    (size + 15) / 16 * 2
}

/// Weight of pixel `k` of a mask byte: leftmost pixel first.
pub open spec fn bit_weight(k: int) -> int {
    if k == 0 {
        128
    } else if k == 1 {
        64
    } else if k == 2 {
        32
    } else if k == 3 {
        16
    } else if k == 4 {
        8
    } else if k == 5 {
        4
    } else if k == 6 {
        2
    } else {
        1
    }
}

/// The first `n` bits of byte `j` in row `y` of the transparency mask: 1 for
/// each transparent pixel, 0 for opaque ones and beyond the row's end.
pub open spec fn mask_bits(size: int, j: int, y: int, n: int) -> int
    decreases n,
{
    if n <= 0 {
        0
    } else {
        let x = 8 * j + n - 1;
        mask_bits(size, j, y, n - 1) + (if x < size && motif(size, x, y) is None {
            bit_weight(n - 1)
        } else {
            0
        })
    }
}

proof fn lemma_mask_bits(size: int, j: int, y: int, n: int)
    requires
        0 <= n <= 8,
    ensures
        0 <= mask_bits(size, j, y, n) <= 256 - (if n == 0 {
            256
        } else {
            bit_weight(n - 1)
        }),
    decreases n,
{
    if n > 0 {
        lemma_mask_bits(size, j, y, n - 1);
    }
}

fn weight(k: usize) -> (r: u32)
    requires
        k < 8,
    ensures
        r == bit_weight(k as int),
{
    match k {
        0 => 128,
        1 => 64,
        2 => 32,
        3 => 16,
        4 => 8,
        5 => 4,
        6 => 2,
        _ => 1,
    }
}

fn mask_byte(size: usize, j: usize, y: usize) -> (r: u8)
    requires
        icon_fits(size),
        j < and_stride(size as int),
        y < size,
    ensures
        r == mask_bits(size as int, j as int, y as int, 8),
{
    let mut byte: u32 = 0;
    let mut k: usize = 0;
    proof {
        lemma_icon_fits(size);
    }
    while k < 8
        invariant
            k <= 8,
            icon_fits(size),
            size <= 0x7fff_ffff,
            j < and_stride(size as int),
            y < size,
            byte == mask_bits(size as int, j as int, y as int, k as int),
        decreases 8 - k,
    {
        let x: usize = 8 * j + k;
        proof {
            lemma_mask_bits(size as int, j as int, y as int, k as int);
        }
        if x < size && motif_bgr(size, x, y).is_none() {
            byte += weight(k);
        }
        k += 1;
    }
    proof {
        lemma_mask_bits(size as int, j as int, y as int, 8);
    }
    byte as u8
}

/// Channel `c` (blue, green, red, unused) of the colour mask at `(x, y)`: zero
/// where transparent.
pub open spec fn color_byte(size: int, x: int, y: int, c: int) -> u8 {
    match motif(size, x, y) {
        Some(bgr) => if c < 3 {
            bgr@[c]
        } else {
            0
        },
        None => 0,
    }
}

/// The two masks of an icon: transparency (one bit per pixel, leftmost first,
/// rows padded to 16 bits) and colour (four bytes per pixel, top-down).
pub fn build_icon_masks(size: usize) -> (r: (Vec<u8>, Vec<u8>))
    requires
        icon_fits(size),
    ensures
        r.0@.len() == and_stride(size as int) * size,
        forall|y: int, j: int|
            0 <= y < size && 0 <= j < and_stride(size as int) ==> #[trigger] r.0@[y * and_stride(
                size as int,
            ) + j] == mask_bits(size as int, j, y, 8),
        r.1@.len() == size * size * 4,
        forall|x: int, y: int, c: int|
            0 <= x < size && 0 <= y < size && 0 <= c < 4 ==> #[trigger] r.1@[(y * size + x) * 4 + c]
                == color_byte(size as int, x, y, c),
{
    (build_and_mask(size), build_color_mask(size))
}

fn build_and_mask(size: usize) -> (mask: Vec<u8>)
    requires
        icon_fits(size),
    ensures
        mask@.len() == and_stride(size as int) * size,
        forall|y: int, j: int|
            0 <= y < size && 0 <= j < and_stride(size as int) ==> #[trigger] mask@[y * and_stride(
                size as int,
            ) + j] == mask_bits(size as int, j, y, 8),
{
    proof {
        lemma_icon_fits(size);
    }
    let stride: usize = (size + 15) / 16 * 2;
    let mut mask: Vec<u8> = Vec::new();
    let mut y: usize = 0;
    while y < size
        invariant
            icon_fits(size),
            stride == and_stride(size as int),
            y <= size,
            mask@.len() == y * stride,
            forall|r: int, j: int|
                0 <= r < y && 0 <= j < stride ==> #[trigger] mask@[r * stride + j] == mask_bits(
                    size as int,
                    j,
                    r,
                    8,
                ),
        decreases size - y,
    {
        let mut j: usize = 0;
        while j < stride
            invariant
                icon_fits(size),
                stride == and_stride(size as int),
                y < size,
                j <= stride,
                mask@.len() == y * stride + j,
                forall|r: int, k: int|
                    (0 <= r < y && 0 <= k < stride) || (r == y && 0 <= k < j)
                        ==> #[trigger] mask@[r * stride + k] == mask_bits(size as int, k, r, 8),
            decreases stride - j,
        {
            let ghost prior = mask@;
            mask.push(mask_byte(size, j, y));
            proof {
                assert forall|r: int, k: int|
                    (0 <= r < y && 0 <= k < stride) || (r == y && 0 <= k < j + 1) implies
                    #[trigger] mask@[r * stride + k] == mask_bits(size as int, k, r, 8) by {
                    if r < y {
                        assert(0 <= r * stride && r * stride + k < y * stride) by (nonlinear_arith)
                            requires
                                0 <= r < y,
                                0 <= k < stride,
                        ;
                        assert(mask@[r * stride + k] == prior[r * stride + k]);
                    } else if k < j {
                        assert(0 <= r * stride) by (nonlinear_arith)
                            requires
                                0 <= r,
                                0 <= stride,
                        ;
                        assert(mask@[r * stride + k] == prior[r * stride + k]);
                    }
                }
            }
            j += 1;
        }
        proof {
            assert((y + 1) * stride == y * stride + stride) by (nonlinear_arith);
        }
        y += 1;
    }
    proof {
        assert(size * stride == stride * size) by (nonlinear_arith);
    }
    mask
}

fn build_color_mask(size: usize) -> (mask: Vec<u8>)
    requires
        icon_fits(size),
    ensures
        mask@.len() == size * size * 4,
        forall|x: int, y: int, c: int|
            0 <= x < size && 0 <= y < size && 0 <= c < 4 ==> #[trigger] mask@[(y * size + x) * 4
                + c] == color_byte(size as int, x, y, c),
{
    let mut mask: Vec<u8> = Vec::new();
    let mut y: usize = 0;
    while y < size
        invariant
            icon_fits(size),
            y <= size,
            mask@.len() == y * size * 4,
            forall|px: int, py: int, c: int|
                0 <= px < size && 0 <= py < y && 0 <= c < 4 ==> #[trigger] mask@[(py * size + px)
                    * 4 + c] == color_byte(size as int, px, py, c),
        decreases size - y,
    {
        let mut x: usize = 0;
        while x < size
            invariant
                icon_fits(size),
                y < size,
                x <= size,
                mask@.len() == (y * size + x) * 4,
                forall|px: int, py: int, c: int|
                    0 <= px < size && 0 <= py && (py < y || py == y && px < x) && 0 <= c < 4
                        ==> #[trigger] mask@[(py * size + px) * 4 + c] == color_byte(
                        size as int,
                        px,
                        py,
                        c,
                    ),
            decreases size - x,
        {
            let ghost prior = mask@;
            let bgr: [u8; 3] = match motif_bgr(size, x, y) {
                Some(bgr) => bgr,
                None => [0, 0, 0],
            };
            mask.push(bgr[0]);
            mask.push(bgr[1]);
            mask.push(bgr[2]);
            mask.push(0);
            proof {
                assert forall|px: int, py: int, c: int|
                    0 <= px < size && 0 <= py && (py < y || py == y && px < x + 1) && 0 <= c
                        < 4 implies #[trigger] mask@[(py * size + px) * 4 + c] == color_byte(
                    size as int,
                    px,
                    py,
                    c,
                ) by {
                    if py < y {
                        assert(0 <= py * size && py * size + px < y * size) by (nonlinear_arith)
                            requires
                                0 <= py < y,
                                0 <= px < size,
                        ;
                        assert(mask@[(py * size + px) * 4 + c] == prior[(py * size + px) * 4 + c]);
                    } else if px < x {
                        assert(0 <= py * size) by (nonlinear_arith)
                            requires
                                0 <= py,
                                0 <= size,
                        ;
                        assert(mask@[(py * size + px) * 4 + c] == prior[(py * size + px) * 4 + c]);
                    }
                }
            }
            x += 1;
        }
        proof {
            assert((y + 1) * size == y * size + size) by (nonlinear_arith);
        }
        y += 1;
    }
    mask
}

/// Each choice of the popup menu leads to the event its text names, and every
/// event is on the menu once.
pub proof fn lemma_choices_name_their_events(i: int, text: Seq<char>, id: usize)
    requires
        0 <= i < menu_shows().len(),
        menu_shows()[i] == Some((text, id)),
        i > 0,
    ensures
        event_of(id) is Some,
        event_of(id) == Some(TrayEvent::MenuSpotlight) ==> text == "Spotlight"@,
        event_of(id) == Some(TrayEvent::MenuScreenshot) ==> text == "Screenshot"@,
        event_of(id) == Some(TrayEvent::MenuReloadSettings) ==> text == "Reload Settings"@,
        event_of(id) == Some(TrayEvent::MenuSettings) ==> text == "Settings…"@,
        event_of(id) == Some(TrayEvent::MenuOpenSettingsFolder) ==> text == "Open settings folder"@,
        event_of(id) == Some(TrayEvent::MenuExit) ==> text == "Exit"@,
{
}

/// A dismissed menu (no id) is no event.
pub proof fn lemma_dismissed_menu()
    ensures
        event_of(0) is None,
{
}

/// A mask row holds a bit for every pixel, in whole 16-bit words and no more
/// of them than it takes.
pub proof fn lemma_mask_rows(size: int)
    requires
        0 <= size,
    ensures
        and_stride(size) % 2 == 0,
        size <= 8 * and_stride(size) < size + 16,
{
}

/// Whether the pixel for bit `k` of byte `j` is on the row and has no colour.
spec fn bit_is_set(size: int, j: int, y: int, k: int) -> int {
    if 8 * j + k < size && motif(size, 8 * j + k, y) is None {
        1
    } else {
        0
    }
}

/// Bit `k` from the left of byte `j` of a mask row is set exactly where the
/// pixel `8j + k` is on the row and has no colour.
pub proof fn lemma_mask_bit_is_a_pixel(size: int, j: int, y: int, k: int)
    requires
        0 <= k < 8,
    ensures
        mask_bits(size, j, y, 8) / bit_weight(k) % 2 == 1 <==> 8 * j + k < size && motif(
            size,
            8 * j + k,
            y,
        ) is None,
        bit_weight(7) == 1,
        k < 7 ==> bit_weight(k) == 2 * bit_weight(k + 1),
        0 <= mask_bits(size, j, y, 8) <= 255,
{
    let b = |i: int| bit_is_set(size, j, y, i);
    assert forall|n: int| 0 < n <= 8 implies #[trigger] mask_bits(size, j, y, n) == mask_bits(
        size,
        j,
        y,
        n - 1,
    ) + bit_weight(n - 1) * bit_is_set(size, j, y, n - 1) by {}
    assert(mask_bits(size, j, y, 0) == 0);
    assert(mask_bits(size, j, y, 1) == 128 * b(0));
    assert(mask_bits(size, j, y, 2) == 128 * b(0) + 64 * b(1));
    assert(mask_bits(size, j, y, 3) == 128 * b(0) + 64 * b(1) + 32 * b(2));
    assert(mask_bits(size, j, y, 4) == 128 * b(0) + 64 * b(1) + 32 * b(2) + 16 * b(3));
    assert(mask_bits(size, j, y, 5) == mask_bits(size, j, y, 4) + 8 * b(4));
    assert(mask_bits(size, j, y, 6) == mask_bits(size, j, y, 5) + 4 * b(5));
    assert(mask_bits(size, j, y, 7) == mask_bits(size, j, y, 6) + 2 * b(6));
    assert(mask_bits(size, j, y, 8) == mask_bits(size, j, y, 7) + b(7));
    lemma_eight_bits(
        b(0),
        b(1),
        b(2),
        b(3),
        b(4),
        b(5),
        b(6),
        b(7),
        mask_bits(size, j, y, 8),
    );
}

/// The bits of a byte can be told apart.
proof fn lemma_eight_bits(
    b0: int,
    b1: int,
    b2: int,
    b3: int,
    b4: int,
    b5: int,
    b6: int,
    b7: int,
    byte: int,
)
    requires
        0 <= b0 <= 1,
        0 <= b1 <= 1,
        0 <= b2 <= 1,
        0 <= b3 <= 1,
        0 <= b4 <= 1,
        0 <= b5 <= 1,
        0 <= b6 <= 1,
        0 <= b7 <= 1,
        byte == 128 * b0 + 64 * b1 + 32 * b2 + 16 * b3 + 8 * b4 + 4 * b5 + 2 * b6 + b7,
    ensures
        byte / 128 % 2 == b0,
        byte / 64 % 2 == b1,
        byte / 32 % 2 == b2,
        byte / 16 % 2 == b3,
        byte / 8 % 2 == b4,
        byte / 4 % 2 == b5,
        byte / 2 % 2 == b6,
        byte / 1 % 2 == b7,
        0 <= byte <= 255,
{
}

} // verus!
