//! The status-bar item on macOS: its menu and its template icon. The menu-bar
//! objects are the caller's part.

use crate::natural::Natural;
use crate::tray::{
    icon_fits, lemma_icon_fits, magnitude, product, version_label, version_line,
};
use vstd::math::abs;
use vstd::prelude::*;

verus! {

/// What the user chose from the menu.
#[derive(Clone, Copy, PartialEq, Eq, Structural, Debug)]
pub enum TrayEvent {
    MenuSpotlight,
    MenuScreenshot,
    MenuSettings,
    MenuOpenSettingsFolder,
    MenuUpdate,
    MenuReloadSettings,
    MenuExit,
}

/// One entry of the menu.
#[derive(Debug)]
pub enum MacMenuItem {
    /// Grayed text.
    Label(String),
    Separator,
    Choice { title: String, event: TrayEvent, enabled: bool },
}

/// What an entry is: title, event (`None` for a label) and whether it can be
/// chosen; `None` for a separator.
pub open spec fn item_shows(item: MacMenuItem) -> Option<(Seq<char>, Option<TrayEvent>, bool)> {
    match item {
        MacMenuItem::Label(text) => Some((text@, None, false)),
        MacMenuItem::Separator => None,
        MacMenuItem::Choice { title, event, enabled } => Some((title@, Some(event), enabled)),
    }
}

/// Title of the update entry at first.
pub const UPDATE_LABEL: &'static str = "Check for updates…";

/// The status item.
#[derive(Debug)]
pub struct MacTray {
    pub tooltip: String,
    pub update_label: String,
    pub update_enabled: bool,
    /// Whether the icon is in the status bar.
    pub shown: bool,
}

/// The menu, with the update entry as it stands.
pub open spec fn menu_items(update_label: Seq<char>, update_enabled: bool) -> Seq<
    Option<(Seq<char>, Option<TrayEvent>, bool)>,
> {
    seq![
        Some((version_label(), None, false)),
        None,
        Some(("Spotlight"@, Some(TrayEvent::MenuSpotlight), true)),
        Some(("Screenshot"@, Some(TrayEvent::MenuScreenshot), true)),
        None,
        Some(("Settings…"@, Some(TrayEvent::MenuSettings), true)),
        Some(("Open Settings Folder"@, Some(TrayEvent::MenuOpenSettingsFolder), true)),
        Some((update_label, Some(TrayEvent::MenuUpdate), update_enabled)),
        Some(("Reload Settings"@, Some(TrayEvent::MenuReloadSettings), true)),
        None,
        Some(("Exit SpotFreeze"@, Some(TrayEvent::MenuExit), true)),
    ]
}

fn choice(title: &str, event: TrayEvent, enabled: bool) -> (r: MacMenuItem)
    ensures
        item_shows(r) == Some((title@, Some(event), enabled)),
{
    MacMenuItem::Choice { title: title.to_owned(), event, enabled }
}

impl MacTray {
    /// Create the status item. Refused when the item has no button to carry
    /// the icon.
    pub fn create(tooltip: &str, has_button: bool) -> (r: Option<Self>)
        ensures
            match r {
                Some(t) => {
                    &&& has_button
                    &&& t.tooltip@ == tooltip@
                    &&& t.update_label@ == UPDATE_LABEL@
                    &&& t.update_enabled
                    &&& t.shown
                },
                None => !has_button,
            },
    {
        if !has_button {
            return None;
        }
        Some(
            Self {
                tooltip: tooltip.to_owned(),
                update_label: UPDATE_LABEL.to_owned(),
                update_enabled: true,
                shown: true,
            },
        )
    }

    /// The menu's entries in order.
    pub fn menu(&self) -> (r: Vec<MacMenuItem>)
        ensures
            r@.len() == menu_items(self.update_label@, self.update_enabled).len(),
            forall|i: int|
                0 <= i < r@.len() ==> item_shows(#[trigger] r@[i]) == menu_items(
                    self.update_label@,
                    self.update_enabled,
                )[i],
    {
        let mut menu: Vec<MacMenuItem> = Vec::new();
        menu.push(MacMenuItem::Label(version_line()));
        menu.push(MacMenuItem::Separator);
        menu.push(choice("Spotlight", TrayEvent::MenuSpotlight, true));
        menu.push(choice("Screenshot", TrayEvent::MenuScreenshot, true));
        menu.push(MacMenuItem::Separator);
        menu.push(choice("Settings…", TrayEvent::MenuSettings, true));
        menu.push(choice("Open Settings Folder", TrayEvent::MenuOpenSettingsFolder, true));
        menu.push(
            choice(self.update_label.as_str(), TrayEvent::MenuUpdate, self.update_enabled),
        );
        menu.push(choice("Reload Settings", TrayEvent::MenuReloadSettings, true));
        menu.push(MacMenuItem::Separator);
        menu.push(choice("Exit SpotFreeze", TrayEvent::MenuExit, true));
        menu
    }

    /// Change the tooltip.
    pub fn set_tooltip(&mut self, tooltip: &str)
        ensures
            final(self).tooltip@ == tooltip@,
            final(self).update_label == old(self).update_label,
            final(self).update_enabled == old(self).update_enabled,
            final(self).shown == old(self).shown,
    {
        self.tooltip = tooltip.to_owned();
    }

    /// Change the update entry's title and whether it can be chosen.
    pub fn set_update_state(&mut self, label: &str, enabled: bool)
        ensures
            final(self).update_label@ == label@,
            final(self).update_enabled == enabled,
            final(self).tooltip == old(self).tooltip,
            final(self).shown == old(self).shown,
    {
        self.update_label = label.to_owned();
        self.update_enabled = enabled;
    }

    /// Take the icon out of the status bar; again is harmless.
    pub fn remove(&mut self)
        ensures
            !final(self).shown,
            final(self).tooltip == old(self).tooltip,
            final(self).update_label == old(self).update_label,
            final(self).update_enabled == old(self).update_enabled,
    {
        self.shown = false;
    }
}

/// Icon bitmap size in pixels: 22 points at twice the resolution.
pub const ICON_PIXELS: usize = 44;

/// Gray of a fully opaque pixel.
pub const MASK_GRAY: u32 = 32;

/// Offset of the sparkle's center from the icon's along each axis, in eighths
/// of a pixel per billion of the size: 0.46 of the size over the square root of
/// two.
pub const SPARKLE_AT: i128 = 2_602_152_955;

/// Length of the sparkle's arms in the same unit: 0.075 of the size.
pub const SPARKLE_REACH: i128 = 600_000_000;

/// `v` brought into `lo..=hi`.
pub open spec fn clamped(v: int, lo: int, hi: int) -> int {
    if v < lo {
        lo
    } else if v > hi {
        hi
    } else {
        v
    }
}

/// Whether `(x, y)` is in a `size` by `size` square with rounded corners.
pub open spec fn in_rounded_square(x: int, y: int, size: int, radius: int) -> bool {
    let dx = x - clamped(x, radius, size - radius);
    let dy = y - clamped(y, radius, size - radius);
    dx * dx + dy * dy <= radius * radius
}

fn clamp_to(v: i128, lo: i128, hi: i128) -> (r: i128)
    ensures
        r == clamped(v as int, lo as int, hi as int),
{
    if v < lo {
        lo
    } else if v > hi {
        hi
    } else {
        v
    }
}

/// Whether `(x, y)` is in a `size` by `size` square with rounded corners, all
/// in one unit.
pub fn rounded_rect_contains(x: i64, y: i64, size: i64, radius: i64) -> (r: bool)
    requires
        0 <= radius <= size - radius,
        -0x1fff_ffff_ffff_ffff <= x <= 0x1fff_ffff_ffff_ffff,
        -0x1fff_ffff_ffff_ffff <= y <= 0x1fff_ffff_ffff_ffff,
        size <= 0x1fff_ffff_ffff_ffff,
    ensures
        r == in_rounded_square(x as int, y as int, size as int, radius as int),
{
    let rad: i128 = radius as i128;
    let far: i128 = size as i128 - rad;
    let dx: i128 = x as i128 - clamp_to(x as i128, rad, far);
    let dy: i128 = y as i128 - clamp_to(y as i128, rad, far);
    product(dx, dx) + product(dy, dy) <= product(rad, rad)
}

/// Whether `(u, v)`, both non-negative, is in the four-pointed star with arms
/// of length `a`: u^(2/3) + v^(2/3) <= a^(2/3), cubed twice.
pub open spec fn in_star(u: int, v: int, a: int) -> bool {
    let rest = a * a - u * u - v * v;
    rest >= 0 && rest * rest * rest >= 27 * ((u * u) * (v * v) * (a * a))
}

fn star_contains(u: i128, v: i128, a: i128) -> (r: bool)
    requires
        0 <= u,
        0 <= v,
        0 <= a <= 6_000_000_000_000_000_000,
    ensures
        r == in_star(u as int, v as int, a as int),
{
    if u > a || v > a {
        proof {
            lemma_out_of_reach(u as int, v as int, a as int);
        }
        return false;
    }
    let uu: i128 = product(u, u);
    let vv: i128 = product(v, v);
    let aa: i128 = product(a, a);
    proof {
        assert(0 <= u * u && 0 <= v * v && 0 <= a * a) by (nonlinear_arith);
    }
    let rest: i128 = aa - uu - vv;
    if rest < 0 {
        return false;
    }
    let r = Natural::of(rest as u128);
    let cube = r.times(&r).times(&r);
    let bound = Natural::of(27).times(
        &Natural::of(uu as u128).times(&Natural::of(vv as u128)).times(&Natural::of(aa as u128)),
    );
    cube.at_least(&bound)
}

/// A point further along an axis than the star's arms is outside.
proof fn lemma_out_of_reach(u: int, v: int, a: int)
    requires
        0 <= u,
        0 <= v,
        0 <= a,
        u > a || v > a,
    ensures
        !in_star(u, v, a),
{
    assert(a * a - u * u - v * v < 0) by (nonlinear_arith)
        requires
            0 <= u,
            0 <= v,
            0 <= a,
            u > a || v > a,
    ;
}

/// Whether a sample point is in a clear part of the motif: the circle, the
/// frost ring, one of its four ticks, or the sparkle at the upper right. The
/// point is given in eighths of a pixel; fractions of the size are compared in
/// thousandths.
pub open spec fn clear_at(px: int, py: int, size: int) -> bool {
    let dx = px - 4 * size;
    let dy = py - 4 * size;
    let dist = (1000 * dx) * (1000 * dx) + (1000 * dy) * (1000 * dy);
    let ax = abs(dx);
    let ay = abs(dy);
    ||| dist <= (1920 * size) * (1920 * size)
    ||| (2640 * size) * (2640 * size) <= dist <= (3000 * size) * (3000 * size)
    ||| 3240 * size <= 1000 * ax <= 3680 * size && 1000 * ay <= 184 * size
    ||| 3240 * size <= 1000 * ay <= 3680 * size && 1000 * ax <= 184 * size
    ||| in_star(
        abs(1_000_000_000 * dx - SPARKLE_AT * size) as int,
        abs(1_000_000_000 * dy + SPARKLE_AT * size) as int,
        SPARKLE_REACH * size,
    )
}

/// Whether a sample point is in a clear part of the motif.
fn knocked_out_at(px: u64, py: u64, size: usize) -> (r: bool)
    requires
        icon_fits(size),
        px <= 8 * size,
        py <= 8 * size,
    ensures
        r == clear_at(px as int, py as int, size as int),
{
    proof {
        lemma_icon_fits(size);
    }
    let s: i128 = size as i128;
    let dx: i128 = px as i128 - 4 * s;
    let dy: i128 = py as i128 - 4 * s;
    let dist: i128 = product(1000 * dx, 1000 * dx) + product(1000 * dy, 1000 * dy);
    if dist <= product(1920 * s, 1920 * s) {
        return true;
    }
    if product(2640 * s, 2640 * s) <= dist && dist <= product(3000 * s, 3000 * s) {
        return true;
    }
    let ax: i128 = 1000 * magnitude(dx);
    let ay: i128 = 1000 * magnitude(dy);
    if 3240 * s <= ax && ax <= 3680 * s && ay <= 184 * s {
        return true;
    }
    if 3240 * s <= ay && ay <= 3680 * s && ax <= 184 * s {
        return true;
    }
    star_contains(
        magnitude(1_000_000_000 * dx - SPARKLE_AT * s),
        magnitude(1_000_000_000 * dy + SPARKLE_AT * s),
        SPARKLE_REACH * s,
    )
}

/// Whether a sample point is opaque: in the rounded square, and not in a clear
/// part. Both corner radius and size are in thousandths of an eighth of a
/// pixel.
pub open spec fn opaque_at(px: int, py: int, size: int) -> bool {
    in_rounded_square(1000 * px, 1000 * py, 8000 * size, 1760 * size) && !clear_at(px, py, size)
}

fn mask_opaque_at(px: u64, py: u64, size: usize) -> (r: bool)
    requires
        icon_fits(size),
        px <= 8 * size,
        py <= 8 * size,
    ensures
        r == opaque_at(px as int, py as int, size as int),
{
    proof {
        lemma_icon_fits(size);
    }
    rounded_rect_contains(
        1000 * px as i64,
        1000 * py as i64,
        8000 * size as i64,
        1760 * size as i64,
    ) && !knocked_out_at(px, py, size)
}

/// How many of the first `n` of a pixel's 4 by 4 sample points are opaque, row
/// by row.
pub open spec fn opaque_samples(x: int, y: int, size: int, n: int) -> int
    decreases n,
{
    if n <= 0 {
        0
    } else {
        opaque_samples(x, y, size, n - 1) + (if opaque_at(
            8 * x + 2 * ((n - 1) % 4) + 1,
            8 * y + 2 * ((n - 1) / 4) + 1,
            size,
        ) {
            1int
        } else {
            0
        })
    }
}

/// A pixel past the right or the lower edge has no opaque sample point.
proof fn lemma_outside_is_clear(x: int, y: int, size: int, n: int)
    requires
        0 <= size,
        0 <= x,
        0 <= y,
        x >= size || y >= size,
    ensures
        opaque_samples(x, y, size, n) == 0,
    decreases n,
{
    if n > 0 {
        lemma_outside_is_clear(x, y, size, n - 1);
        let px = 1000 * (8 * x + 2 * ((n - 1) % 4) + 1);
        let py = 1000 * (8 * y + 2 * ((n - 1) / 4) + 1);
        let r = 1760 * size;
        let dx = px - clamped(px, r, 8000 * size - r);
        let dy = py - clamped(py, r, 8000 * size - r);
        assert(dx > r || dy > r);
        assert(dx * dx + dy * dy > r * r) by (nonlinear_arith)
            requires
                0 <= r,
                dx > r || dy > r,
        ;
    }
}

/// How many of a pixel's 16 sample points are opaque; none outside the icon.
pub fn mask_coverage(x: usize, y: usize, size: usize) -> (r: u32)
    requires
        icon_fits(size),
    ensures
        r == opaque_samples(x as int, y as int, size as int, 16),
        r <= 16,
{
    proof {
        lemma_icon_fits(size);
    }
    if x >= size || y >= size {
        proof {
            lemma_outside_is_clear(x as int, y as int, size as int, 16);
        }
        return 0;
    }
    let mut hits: u32 = 0;
    let mut n: u64 = 0;
    while n < 16
        invariant
            icon_fits(size),
            size <= 0x7fff_ffff,
            x < size,
            y < size,
            n <= 16,
            hits <= n,
            hits == opaque_samples(x as int, y as int, size as int, n as int),
        decreases 16 - n,
    {
        let px: u64 = 8 * x as u64 + 2 * (n % 4) + 1;
        let py: u64 = 8 * y as u64 + 2 * (n / 4) + 1;
        if mask_opaque_at(px, py, size) {
            hits += 1;
        }
        n += 1;
    }
    hits
}

/// Opacity of a pixel: its share of opaque samples, rounded.
pub open spec fn mask_alpha(size: int, x: int, y: int) -> int {
    (opaque_samples(x, y, size, 16) * 255 + 8) / 16
}

/// Channel `c` of a pixel: the opacity, or the gray premultiplied with it.
pub open spec fn mask_byte(size: int, x: int, y: int, c: int) -> int {
    if c == 3 {
        mask_alpha(size, x, y)
    } else {
        MASK_GRAY * mask_alpha(size, x, y) / 255
    }
}

/// The template icon, `size` by `size`, four bytes per pixel: a dark rounded
/// square with the frost-spotlight motif clear.
pub fn icon_mask(size: usize) -> (out: Vec<u8>)
    requires
        icon_fits(size),
    ensures
        out@.len() == size * size * 4,
        forall|x: int, y: int, c: int|
            0 <= x < size && 0 <= y < size && 0 <= c < 4 ==> #[trigger] out@[(y * size + x) * 4 + c]
                == mask_byte(size as int, x, y, c),
{
    let mut out: Vec<u8> = Vec::new();
    let mut y: usize = 0;
    while y < size
        invariant
            icon_fits(size),
            y <= size,
            out@.len() == y * size * 4,
            forall|px: int, py: int, c: int|
                0 <= px < size && 0 <= py < y && 0 <= c < 4 ==> #[trigger] out@[(py * size + px) * 4
                    + c] == mask_byte(size as int, px, py, c),
        decreases size - y,
    {
        let mut x: usize = 0;
        while x < size
            invariant
                icon_fits(size),
                y < size,
                x <= size,
                out@.len() == (y * size + x) * 4,
                forall|px: int, py: int, c: int|
                    0 <= px < size && 0 <= py && (py < y || py == y && px < x) && 0 <= c < 4
                        ==> #[trigger] out@[(py * size + px) * 4 + c] == mask_byte(
                        size as int,
                        px,
                        py,
                        c,
                    ),
            decreases size - x,
        {
            let ghost prior = out@;
            let alpha: u32 = (mask_coverage(x, y, size) * 255 + 8) / 16;
            let gray: u32 = MASK_GRAY * alpha / 255;
            out.push(gray as u8);
            out.push(gray as u8);
            out.push(gray as u8);
            out.push(alpha as u8);
            proof {
                assert forall|px: int, py: int, c: int|
                    0 <= px < size && 0 <= py && (py < y || py == y && px < x + 1) && 0 <= c
                        < 4 implies #[trigger] out@[(py * size + px) * 4 + c] == mask_byte(
                    size as int,
                    px,
                    py,
                    c,
                ) by {
                    if py < y {
                        assert(0 <= py * size && py * size + px < y * size) by (nonlinear_arith)
                            requires
                                0 <= py < y,
                                0 <= px < size,
                        ;
                        assert(out@[(py * size + px) * 4 + c] == prior[(py * size + px) * 4 + c]);
                    } else if px < x {
                        assert(0 <= py * size) by (nonlinear_arith)
                            requires
                                0 <= py,
                                0 <= size,
                        ;
                        assert(out@[(py * size + px) * 4 + c] == prior[(py * size + px) * 4 + c]);
                    }
                }
            }
            x += 1;
        }
        proof {
            assert((y + 1) * size == y * size + size) by (nonlinear_arith);
        }
        y += 1;
    }
    out
}

/// The gray never exceeds the opacity: the pixels are premultiplied.
pub proof fn lemma_mask_premultiplied(size: int, x: int, y: int, c: int)
    requires
        0 <= c < 4,
    ensures
        0 <= mask_byte(size, x, y, c) <= mask_byte(size, x, y, 3) <= 255,
{
    lemma_samples_in_range(x, y, size, 16);
}

proof fn lemma_samples_in_range(x: int, y: int, size: int, n: int)
    requires
        0 <= n,
    ensures
        0 <= opaque_samples(x, y, size, n) <= n,
    decreases n,
{
    if n > 0 {
        lemma_samples_in_range(x, y, size, n - 1);
    }
}

} // verus!
