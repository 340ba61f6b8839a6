use spotfreeze::platform::macos::tray::{
    icon_mask, mask_coverage, rounded_rect_contains, MacMenuItem, MacTray,
    TrayEvent as MacTrayEvent, ICON_PIXELS,
};
use spotfreeze::tray::{
    build_icon_masks, encode_units, icon_size, menu_event, motif_bgr, show_context_menu,
    tray_subclass_proc, version_line, write_tooltip, MenuEntry, TrayAction, TrayError, TrayEvent,
    TrayIcon, IDM_EXIT, IDM_SPOTLIGHT, NAVY, SKY, WHITE, WM_DESTROY, WM_LBUTTONUP, WM_RBUTTONUP,
    WM_TRAY_CALLBACK,
};

/// Read the `[B, G, R]` bytes of pixel `(x, y)` from a colour mask.
fn xor_rgb(xor: &[u8], size: usize, x: usize, y: usize) -> [u8; 3] {
    let off = (y * size + x) * 4;
    [xor[off], xor[off + 1], xor[off + 2]]
}

/// Read the transparency bit of pixel `(x, y)` (1 = transparent).
fn and_bit(and: &[u8], size: usize, x: usize, y: usize) -> bool {
    let stride = size.div_ceil(16) * 2;
    and[y * stride + x / 8] & (0x80 >> (x % 8)) != 0
}

#[test]
fn icon_masks_have_ddb_layout() {
    for size in [16usize, 24, 32, 48] {
        let (and_mask, xor_mask) = build_icon_masks(size);
        assert_eq!(and_mask.len(), size.div_ceil(16) * 2 * size);
        assert_eq!(xor_mask.len(), size * size * 4);
        // Corners are transparent, the tile's edge midpoints opaque.
        for (x, y) in [(0, 0), (size - 1, 0), (0, size - 1), (size - 1, size - 1)] {
            assert!(
                and_bit(&and_mask, size, x, y),
                "corner ({x}, {y}) not transparent at {size}"
            );
        }
        for (x, y) in [
            (size / 2, 0),
            (size / 2, size - 1),
            (0, size / 2),
            (size - 1, size / 2),
        ] {
            assert!(
                !and_bit(&and_mask, size, x, y),
                "edge midpoint ({x}, {y}) transparent at {size}"
            );
        }
    }
}

#[test]
fn icon_pattern_is_frost_spotlight() {
    let size = 16usize;
    let (and, xor) = build_icon_masks(size);
    // Center of the icon is inside the spotlight disc → white.
    assert_eq!(xor_rgb(&xor, size, 8, 8), WHITE);
    // The ring sits at 43% of the edge on the horizontal axis → sky.
    assert_eq!(xor_rgb(&xor, size, 14, 8), SKY);
    // Between disc and ring the navy tile shows through.
    assert_eq!(xor_rgb(&xor, size, 13, 8), NAVY);
    // All four corners are outside the rounded square → transparent.
    for (x, y) in [(0, 0), (15, 0), (0, 15), (15, 15)] {
        assert!(and_bit(&and, size, x, y));
    }
}

#[test]
fn icon_sparkle_only_on_large_icons() {
    // On the ring at 45° upper-right, then ~70% of the arm length further
    // out: beyond the ring's outer edge, so only the sparkle paints sky.
    let size = 32usize;
    let (_and, xor) = build_icon_masks(size);
    assert_eq!(xor_rgb(&xor, size, 27, 6), SKY);
    // At 16 px the sparkle is dropped: the analogous pixel stays navy.
    let size = 16usize;
    let (_and, xor) = build_icon_masks(size);
    assert_eq!(xor_rgb(&xor, size, 14, 3), NAVY);
}

#[test]
fn icon_motif_is_centered_symmetrically() {
    // Only testable at 16 px: larger sizes carry the upper-right sparkle.
    let size = 16usize;
    let (_and, xor) = build_icon_masks(size);
    // Mirrored pixels across the center must share the same color.
    for y in 0..size {
        for x in 0..size / 2 {
            assert_eq!(
                xor_rgb(&xor, size, x, y),
                xor_rgb(&xor, size, size - 1 - x, y),
                "horizontal asymmetry at ({x}, {y})"
            );
        }
    }
    for y in 0..size / 2 {
        for x in 0..size {
            assert_eq!(
                xor_rgb(&xor, size, x, y),
                xor_rgb(&xor, size, x, size - 1 - y),
                "vertical asymmetry at ({x}, {y})"
            );
        }
    }
}

#[test]
fn tooltip_is_copied_and_nul_terminated() {
    let mut tip = [1u16; 128];
    write_tooltip(&mut tip, "SpotFreeze");
    assert_eq!(
        &tip[..10],
        &"SpotFreeze".encode_utf16().collect::<Vec<_>>()[..]
    );
    assert_eq!(tip[10], 0);
    assert!(tip[11..].iter().all(|&u| u == 0));
}

#[test]
fn tooltip_truncates_to_127_code_units() {
    let mut tip = [0u16; 128];
    write_tooltip(&mut tip, &"x".repeat(300));
    assert!(tip[..127].iter().all(|&u| u == 'x' as u16));
    assert_eq!(tip[127], 0);
}

#[test]
fn tooltip_handles_empty_and_exact_fit() {
    let mut tip = [1u16; 128];
    write_tooltip(&mut tip, "");
    assert!(tip.iter().all(|&u| u == 0));

    let exact = "y".repeat(127);
    write_tooltip(&mut tip, &exact);
    assert!(tip[..127].iter().all(|&u| u == 'y' as u16));
    assert_eq!(tip[127], 0);
}

/// The motif in floating point, at a pixel's center.
fn motif_by_floats(size: usize, x: usize, y: usize) -> Option<[u8; 3]> {
    let edge = size as f32;
    let px = x as f32 + 0.5;
    let py = y as f32 + 0.5;
    let c = edge / 2.0;

    // Rounded-square tile: outside when the distance past the corner square
    // exceeds the corner radius.
    let corner = edge * 0.22;
    let qx = ((px - c).abs() - (c - corner)).max(0.0);
    let qy = ((py - c).abs() - (c - corner)).max(0.0);
    if qx.hypot(qy) > corner {
        return None;
    }

    // Sparkle: |u|^k + |v|^k <= arm^k centered on the ring at 45° upper-right.
    if size >= 24 {
        let diag = edge * 0.43 * std::f32::consts::FRAC_1_SQRT_2;
        let u = px - (c + diag);
        let v = py - (c - diag);
        let arm = edge * 0.12;
        if u.abs().powf(0.5) + v.abs().powf(0.5) <= arm.powf(0.5) {
            return Some(SKY);
        }
    }

    let d = (px - c).hypot(py - c);
    if d <= edge * 0.30 {
        return Some(WHITE);
    }
    if (d - edge * 0.43).abs() <= edge * 0.06 / 2.0 {
        return Some(SKY);
    }
    Some(NAVY)
}

#[test]
fn the_motif_matches_its_floating_point_form() {
    for size in 16..=64usize {
        // Exact ties on the ring's inner edge are decided by rounding.
        if size == 35 || size == 45 {
            continue;
        }
        for y in 0..size {
            for x in 0..size {
                assert_eq!(
                    motif_bgr(size, x, y),
                    motif_by_floats(size, x, y),
                    "({x},{y}) at {size}"
                );
            }
        }
    }
}

#[test]
fn tooltips_are_utf16() {
    let text = "a𝄞é";
    assert_eq!(encode_units(text), text.encode_utf16().collect::<Vec<u16>>());
    // A pair is cut in half at the limit.
    let mut tip = [0u16; 128];
    write_tooltip(&mut tip, &format!("{}𝄞", "x".repeat(126)));
    assert_eq!((tip[126], tip[127]), (0xd834, 0));
}

#[test]
fn the_popup_menu_lists_its_choices() {
    let menu = show_context_menu();
    let texts: Vec<String> = menu
        .iter()
        .map(|e| match e {
            MenuEntry::Label(t) => format!("({t})"),
            MenuEntry::Separator => String::from("-"),
            MenuEntry::Choice(t, _) => t.to_string(),
        })
        .collect();
    assert_eq!(
        texts,
        vec![
            "(SpotFreeze v0.1.0)",
            "-",
            "Spotlight",
            "Screenshot",
            "-",
            "Reload Settings",
            "Settings…",
            "Open settings folder",
            "-",
            "Exit",
        ]
    );
    assert_eq!(version_line(), "SpotFreeze v0.1.0");
    assert_eq!(menu_event(IDM_SPOTLIGHT), Some(TrayEvent::MenuSpotlight));
    assert_eq!(menu_event(IDM_EXIT), Some(TrayEvent::MenuExit));
    assert_eq!(menu_event(0), None);
    {
        assert_eq!(tray_subclass_proc(WM_TRAY_CALLBACK, WM_RBUTTONUP), TrayAction::ShowMenu);
        assert_eq!(tray_subclass_proc(WM_TRAY_CALLBACK, WM_LBUTTONUP), TrayAction::ShowMenu);
        assert_eq!(tray_subclass_proc(WM_TRAY_CALLBACK, 0x0200), TrayAction::Ignore);
        assert_eq!(tray_subclass_proc(WM_DESTROY, 0), TrayAction::ForwardAndRemove);
        assert_eq!(tray_subclass_proc(0x0400, 0), TrayAction::Forward);
    }
}

#[test]
fn a_tray_icon_is_released_once() {
    let mut t = TrayIcon::create(3, 4, true, true).ok().unwrap();
    assert!(t.set_tooltip("hi").is_some());
    let first = t.remove();
    assert!(first.delete_icon && first.release_hook);
    assert_eq!(first.destroy_image, Some(4));
    let second = t.remove();
    assert!(!second.delete_icon && !second.release_hook);
    assert_eq!(second.destroy_image, None);
    {
        assert_eq!(icon_size(32, 32), 32);
        assert!(icon_size(0, -4) > 0);
    }
}

#[test]
fn a_refused_tray_icon_releases_what_it_took() {
    let (e, rest) = TrayIcon::create(3, 4, false, false).err().unwrap();
    assert!(matches!(e, TrayError::IconRefused));
    assert_eq!(e.message(), "Shell_NotifyIconW(NIM_ADD) failed");
    assert!(!rest.delete_icon && !rest.release_hook);
    assert_eq!(rest.destroy_image, Some(4));
    let (e, rest) = TrayIcon::create(3, 4, true, false).err().unwrap();
    assert!(matches!(e, TrayError::HookRefused));
    assert_eq!(e.message(), "SetWindowSubclass failed");
    assert!(rest.delete_icon && !rest.release_hook);
    assert_eq!(rest.destroy_image, Some(4));
}

#[test]
fn the_motif_ends_at_its_tile() {
    for size in [16usize, 17, 32] {
        assert_eq!(motif_bgr(size, size, 0), None);
        assert_eq!(motif_bgr(size, 0, size), None);
        assert_eq!(motif_bgr(size, size / 2, size + 3), None);
        assert!(motif_bgr(size, size / 2, size / 2).is_some());
        assert_eq!(mask_coverage(size, size / 2, size), 0);
        assert_eq!(mask_coverage(size / 2, size, size), 0);
    }
}

// ---- the status-bar icon --------------------------------------------------------

fn alpha(mask: &[u8], size: usize, x: usize, y: usize) -> u8 {
    mask[(y * size + x) * 4 + 3]
}

#[test]
fn mask_has_dark_square_and_clear_circle() {
    let size = ICON_PIXELS;
    let mask = icon_mask(size);
    // Center of the icon: inside the spotlight hole → transparent.
    assert_eq!(alpha(&mask, size, size / 2, size / 2), 0);
    // Mid-edge points: inside the square, past the tick tips → opaque.
    assert_eq!(alpha(&mask, size, size / 2, 0), 255);
    assert_eq!(alpha(&mask, size, 0, size / 2), 255);
    // The fully opaque pixels are the dark gray of the Windows motif.
    let offset = (size / 2) * 4;
    assert_eq!(&mask[offset..offset + 4], &[32, 32, 32, 255]);
}

#[test]
fn mask_corners_are_clear() {
    let size = ICON_PIXELS;
    let mask = icon_mask(size);
    for (x, y) in [(0, 0), (size - 1, 0), (0, size - 1), (size - 1, size - 1)] {
        assert_eq!(
            alpha(&mask, size, x, y),
            0,
            "corner ({x},{y}) must be clear"
        );
    }
}

#[test]
fn frost_ring_is_knocked_out() {
    // Center 22.0 for size 44: the ring band spans radii
    // 0.33×44=14.52 .. 0.375×44=16.5, the opaque band between the circle
    // and the ring is fully dark.
    let size = ICON_PIXELS;
    let mask = icon_mask(size);
    // (34.5, 22.5): radius 12.5 — opaque band between circle and ring.
    assert_eq!(alpha(&mask, size, 34, 22), 255, "band must stay opaque");
    // (37.5, 22.5): radius 15.5 — inside the frost ring.
    assert_eq!(alpha(&mask, size, 37, 22), 0, "ring must be clear");
    // (9.5, 9.5): radius ~17-18 on the upper-left diagonal — past the
    // ring, off the tick axes, away from the sparkle.
    assert_eq!(alpha(&mask, size, 9, 9), 255, "diagonal must stay opaque");
}

#[test]
fn frost_ticks_are_knocked_out_on_the_axes() {
    let size = ICON_PIXELS;
    let mask = icon_mask(size);
    // Tick band on the +x axis: radii 0.405×44=17.82 .. 0.46×44=20.24.
    assert_eq!(alpha(&mask, size, 41, 22), 0, "+x tick must be clear");
    assert_eq!(alpha(&mask, size, 3, 22), 0, "-x tick must be clear");
    assert_eq!(alpha(&mask, size, 22, 41), 0, "+y tick must be clear");
    assert_eq!(alpha(&mask, size, 22, 3), 0, "-y tick must be clear");
}

#[test]
fn sparkle_sits_upper_right_only() {
    let size = ICON_PIXELS;
    let mask = icon_mask(size);
    // Sparkle center: (22, 22) + 0.46×44×(√2/2, -√2/2) ≈ (36.3, 7.7).
    assert_eq!(alpha(&mask, size, 36, 8), 0, "sparkle must be clear");
    // The mirrored spots stay opaque: the sparkle breaks the symmetry.
    assert_eq!(alpha(&mask, size, 7, 8), 255, "upper-left stays opaque");
    assert_eq!(alpha(&mask, size, 36, 36), 255, "lower-right stays opaque");
}

#[test]
fn mask_edges_are_antialiased_and_premultiplied() {
    let size = ICON_PIXELS;
    let mask = icon_mask(size);
    // 4×4 supersampling must leave partially covered pixels on the shape
    // edges, and the gray must be premultiplied against the alpha.
    assert!(
        (0..size * size).any(|i| {
            let a = mask[i * 4 + 3];
            a > 0 && a < 255
        }),
        "expected partially covered edge pixels"
    );
    for i in 0..size * size {
        let a = mask[i * 4 + 3];
        let gray = (32 * a as u32 / 255) as u8;
        assert_eq!(mask[i * 4], gray, "B not premultiplied at pixel {i}");
        assert_eq!(mask[i * 4 + 1], gray, "G not premultiplied at pixel {i}");
        assert_eq!(mask[i * 4 + 2], gray, "R not premultiplied at pixel {i}");
    }
}

#[test]
fn rounded_rect_math() {
    // In tenths. Center band: everywhere inside.
    assert!(rounded_rect_contains(50, 20, 100, 20));
    assert!(rounded_rect_contains(50, 80, 100, 20));
    // Corner arc center is (2,2): the arc passes through (2,0) and (0,2).
    assert!(rounded_rect_contains(20, 5, 100, 20));
    // The far corner point is outside the arc.
    assert!(!rounded_rect_contains(1, 1, 100, 20));
}

#[test]
fn mask_size_and_len_are_consistent() {
    let mask = icon_mask(16);
    assert_eq!(mask.len(), 16 * 16 * 4);
}

/// The icon's opaque samples in floating point.
fn coverage_by_floats(x: usize, y: usize, size: usize) -> u32 {
    let s = size as f64;
    let mut hits = 0;
    for sy in 0..4 {
        for sx in 0..4 {
            let px = x as f64 + (sx as f64 + 0.5) / 4.0;
            let py = y as f64 + (sy as f64 + 0.5) / 4.0;
            let r = s * 0.22;
            let dx = px - px.clamp(r, s - r);
            let dy = py - py.clamp(r, s - r);
            if dx * dx + dy * dy <= r * r && !clear_by_floats(px, py, s) {
                hits += 1;
            }
        }
    }
    hits
}

fn clear_by_floats(px: f64, py: f64, s: f64) -> bool {
    let dx = px - s / 2.0;
    let dy = py - s / 2.0;
    let dist = (dx * dx + dy * dy).sqrt();
    if dist <= s * 0.24 || (s * 0.33..=s * 0.375).contains(&dist) {
        return true;
    }
    let tick = |along: f64, perp: f64| {
        (s * 0.405..=s * 0.46).contains(&along.abs()) && perp.abs() <= s * 0.023
    };
    if tick(dx, dy) || tick(dy, dx) {
        return true;
    }
    let off = s * 0.46 * std::f64::consts::FRAC_1_SQRT_2;
    let a = s * 0.075;
    let ux = ((px - (s / 2.0 + off)).abs() / a).powf(2.0 / 3.0);
    let uy = ((py - (s / 2.0 - off)).abs() / a).powf(2.0 / 3.0);
    ux + uy <= 1.0
}

#[test]
fn the_icon_matches_its_floating_point_form() {
    for size in 1..=64usize {
        for y in 0..size {
            for x in 0..size {
                assert_eq!(
                    mask_coverage(x, y, size),
                    coverage_by_floats(x, y, size),
                    "({x},{y}) at {size}"
                );
            }
        }
    }
}

#[test]
fn the_status_menu_lists_its_choices() {
    let mut tray = MacTray::create("tip", true).unwrap();
    assert!(MacTray::create("tip", false).is_none());
    let titles = |t: &MacTray| -> Vec<String> {
        t.menu()
            .iter()
            .map(|e| match e {
                MacMenuItem::Label(t) => format!("({t})"),
                MacMenuItem::Separator => String::from("-"),
                MacMenuItem::Choice { title, .. } => title.clone(),
            })
            .collect()
    };
    assert_eq!(
        titles(&tray),
        vec![
            "(SpotFreeze v0.1.0)",
            "-",
            "Spotlight",
            "Screenshot",
            "-",
            "Settings…",
            "Open Settings Folder",
            "Check for updates…",
            "Reload Settings",
            "-",
            "Exit SpotFreeze",
        ]
    );
    tray.set_update_state("Updating", false);
    assert!(matches!(
        &tray.menu()[7],
        MacMenuItem::Choice { title, event: MacTrayEvent::MenuUpdate, enabled: false }
            if title == "Updating"
    ));
    tray.set_tooltip("new");
    assert_eq!(tray.tooltip, "new");
    tray.remove();
    assert!(!tray.shown);
}
