use spotfreeze::capture::DibBuffer;
use spotfreeze::hotkeys::gesture::HotkeyGesture;
use spotfreeze::overlay::legend::{
    blend_px, draw_text, glyph, pill_color, rounded_rect_contains, scale_alpha, text_inactive,
    Legend, LegendTab, CHIP_INSET_Y, FONT8X8, PILL_PAD_X, PILL_PAD_Y, TAB_GAP, TAB_PAD_X,
    TOP_MARGIN,
};
use spotfreeze::settings::model::{HotkeySettings, Rgb};

/// Solid test frame (`[B, G, R, A]` per pixel).
fn frame(w: u32, h: u32, c: [u8; 4]) -> DibBuffer {
    DibBuffer {
        width: w,
        height: h,
        stride: w * 4,
        pixels: c.repeat((w * h) as usize),
    }
}

fn px(buf: &DibBuffer, x: u32, y: u32) -> [u8; 4] {
    let i = (y * buf.stride + x * 4) as usize;
    buf.pixels[i..i + 4].try_into().unwrap()
}

fn tabs(spec: &[(&str, &str)]) -> Vec<LegendTab> {
    spec.iter()
        .map(|&(name, hotkey)| LegendTab {
            name: name.into(),
            hotkey: hotkey.into(),
        })
        .collect()
}

// ---- font table ---------------------------------------------------------

#[test]
fn font_covers_printable_ascii() {
    assert_eq!(FONT8X8.len(), 95);
    // Space is empty; every letter/digit glyph has some pixels set.
    assert_eq!(glyph(' '), [0; 8]);
    for ch in ('0'..='9').chain('A'..='Z').chain('a'..='z') {
        assert!(
            glyph(ch).iter().any(|&b| b != 0),
            "glyph for {ch:?} must not be empty"
        );
    }
}

#[test]
fn glyph_matches_the_font8x8_basic_reference() {
    // Pinned rows from font8x8_basic (public domain): 'A', '0', '+'.
    assert_eq!(
        glyph('A'),
        [0x0C, 0x1E, 0x33, 0x33, 0x3F, 0x33, 0x33, 0x00]
    );
    assert_eq!(
        glyph('0'),
        [0x3E, 0x63, 0x73, 0x7B, 0x6F, 0x67, 0x3E, 0x00]
    );
    assert_eq!(
        glyph('+'),
        [0x00, 0x0C, 0x0C, 0x3F, 0x0C, 0x0C, 0x00, 0x00]
    );
}

#[test]
fn non_ascii_falls_back_to_question_mark() {
    assert_eq!(glyph('\u{1F600}'), glyph('?'));
    assert_eq!(glyph('\u{7}'), glyph('?'));
    assert_ne!(glyph('?'), [0; 8]);
}

// ---- layout -------------------------------------------------------------

#[test]
fn size_is_exact_from_tab_texts() {
    // Two-times scaling: "A (B)" = 5 chars -> text 80 px, chip 112;
    // "CC (DD)" = 7 chars -> text 112 px, chip 144.
    let legend = Legend::new(&tabs(&[("A", "B"), ("CC", "DD")]));
    let (w, h) = legend.size();
    assert_eq!(h, 40, "glyph 16 + 2 * pad 12");
    assert_eq!(w, 2 * 24 + (112 + 144) + 8, "pads + chips + one gap");
}

#[test]
fn from_hotkeys_uses_the_freeze_time_bindings() {
    let hotkeys = HotkeySettings::default();
    let legend = Legend::from_hotkeys(&hotkeys);
    assert_eq!(
        legend.tabs,
        vec![
            "SPOTLIGHT (S)".to_string(),
            "ZOOM (F)".to_string(),
            "SNIP (C)".to_string(),
        ]
    );
    // Default bindings: "SPOTLIGHT (S)" = 13 chars, the others 8.
    let (w, _) = legend.size();
    assert_eq!(w, 48 + (240 + 160 + 160) + 16);
}

#[test]
fn from_hotkeys_renders_custom_bindings() {
    let mut hotkeys = HotkeySettings::default();
    hotkeys.zoom_hold = HotkeyGesture::parse("Ctrl+G").unwrap();
    let legend = Legend::from_hotkeys(&hotkeys);
    assert_eq!(legend.tabs[1], "ZOOM (Ctrl+G)");
}

// ---- rounded_rect_contains ----------------------------------------------

#[test]
fn rounded_rect_includes_bands_excludes_corner_outside_the_radius() {
    // 20x20 rect at (0,0), radius 5: corner (0,0) is out (dx=dy=5 -> 50 > 25),
    // edge midpoints and band pixels are in.
    let contains = |x, y| rounded_rect_contains(x, y, 0, 0, 20, 20, 5);
    assert!(!contains(0, 0), "diagonal corner pixel outside");
    assert!(contains(5, 0), "top edge at the radius");
    assert!(contains(10, 0), "top band");
    assert!(contains(0, 10), "left band");
    assert!(!contains(19, 19), "far corner symmetric to (0,0)");
    assert!(!contains(-1, 10), "outside the rect");
    assert!(!contains(20, 10), "right edge exclusive");
    // The corner circle boundary itself is inclusive.
    assert!(contains(5, 5), "corner circle center pixel");
}

#[test]
fn rounded_rect_radius_clamps_to_half_the_short_side() {
    // 20x6 rect, radius 10 -> clamped to 3: (0,0) dx=dy=3 -> 18 > 9 out.
    assert!(!rounded_rect_contains(0, 0, 0, 0, 20, 6, 10));
    assert!(rounded_rect_contains(3, 0, 0, 0, 20, 6, 10));
    // Zero radius: the plain rectangle.
    assert!(rounded_rect_contains(0, 0, 0, 0, 20, 6, 0));
}

// ---- blend_px / scale_alpha ----------------------------------------------

#[test]
fn blend_px_exact_math_and_bounds() {
    let mut buf = frame(4, 4, [100, 100, 100, 200]);
    let red = Rgb { r: 200, g: 0, b: 0 };
    blend_px(&mut buf, 1, 1, red, 128);
    // channel = (100 * 127 + fg * 128) / 255; B and G take fg 0, R takes 200.
    let [b, g, r, a] = px(&buf, 1, 1);
    assert_eq!(b, ((100u32 * 127) / 255) as u8);
    assert_eq!(g, ((100u32 * 127) / 255) as u8);
    assert_eq!(r, ((100u32 * 127 + 200 * 128) / 255) as u8);
    assert_eq!(a, 200, "alpha byte untouched");
    // Out of bounds and zero alpha: no-ops, no panic.
    let before = buf.pixels.clone();
    blend_px(&mut buf, -1, 0, red, 255);
    blend_px(&mut buf, 4, 0, red, 255);
    blend_px(&mut buf, 0, 0, red, 0);
    assert_eq!(buf.pixels, before);
}

#[test]
fn scale_alpha_rounds_and_keeps_endpoints() {
    assert_eq!(scale_alpha(190, 255), 190);
    assert_eq!(scale_alpha(190, 0), 0);
    assert_eq!(scale_alpha(190, 128), ((190u32 * 128 + 127) / 255) as u8);
}

// ---- paint ---------------------------------------------------------------

#[test]
fn paint_centers_the_pill_near_the_top() {
    let legend = Legend::new(&tabs(&[("A", "B")]));
    let (pw, ph) = legend.size();
    let mut buf = frame(400, 160, [100, 100, 100, 255]);
    legend.paint(&mut buf, &[false], 255);
    let x0 = (400 - pw) / 2;
    let y0 = TOP_MARGIN;
    // Pill center: blended toward pill_color() at PILL_ALPHA.
    let want = |fg: u8| ((100u32 * (255 - 190) + fg as u32 * 190) / 255) as u8;
    assert_eq!(
        px(&buf, x0 + pw / 2, y0 + ph / 2),
        [
            want(pill_color().b),
            want(pill_color().g),
            want(pill_color().r),
            255
        ]
    );
    // The pill bbox corner pixel is outside the rounded shape: untouched.
    assert_eq!(px(&buf, x0, y0), [100, 100, 100, 255]);
    // Far outside the pill: untouched.
    assert_eq!(px(&buf, 0, 0), [100, 100, 100, 255]);
    assert_eq!(px(&buf, 399, 159), [100, 100, 100, 255]);
}

#[test]
fn paint_renders_the_tab_text_glyphs() {
    let legend = Legend::new(&tabs(&[("A", "B")]));
    let (pw, _) = legend.size();
    let mut buf = frame(400, 160, [0, 0, 0, 255]);
    legend.paint(&mut buf, &[false], 255);
    let x0 = ((400 - pw) / 2) as u32;
    let y0 = TOP_MARGIN;
    let text_x = x0 + PILL_PAD_X + TAB_PAD_X;
    let text_y = y0 + PILL_PAD_Y;
    // 'A' row 0 is 0x0C (bits 2-3): at 2x scale the pixel 4 columns in
    // carries the inactive text color; pixel 8 carries only the pill.
    let text_pixel = px(&buf, text_x + 4, text_y);
    assert_eq!(text_pixel[3], 255);
    assert!(
        text_pixel[0] >= text_inactive().b - 1,
        "text pixel blended toward the text color: {text_pixel:?}"
    );
    assert_ne!(
        text_pixel,
        px(&buf, text_x + 8, text_y),
        "set vs unset glyph pixel"
    );
}

#[test]
fn paint_highlights_the_active_tab() {
    let legend = Legend::new(&tabs(&[("AA", "B"), ("CC", "D")]));
    let (pw, _) = legend.size();
    let mut on = frame(400, 160, [60, 60, 60, 255]);
    legend.paint(&mut on, &[true, false], 255);
    let mut off = frame(400, 160, [60, 60, 60, 255]);
    legend.paint(&mut off, &[false, false], 255);
    let x0 = ((400 - pw) / 2) as u32;
    let y0 = TOP_MARGIN;
    // A pixel inside the first chip but off its text: brighter when active.
    let chip_px = (x0 + PILL_PAD_X + 4, y0 + CHIP_INSET_Y + 14);
    let [b_on, g_on, r_on, _] = px(&on, chip_px.0, chip_px.1);
    let [b_off, g_off, r_off, _] = px(&off, chip_px.0, chip_px.1);
    assert!(
        b_on > b_off && g_on > g_off && r_on > r_off,
        "chip brightens"
    );
    // The same probe under an inactive tab never brightens.
    let second_chip = x0 + PILL_PAD_X + legend.chip_widths[0] + TAB_GAP + 4;
    assert_eq!(
        px(&on, second_chip, chip_px.1),
        px(&off, second_chip, chip_px.1),
        "inactive tab identical in both paints"
    );
}

#[test]
fn paint_scales_with_alpha_and_alpha_zero_is_a_noop() {
    let legend = Legend::new(&tabs(&[("A", "B")]));
    let mut buf = frame(400, 160, [100, 100, 100, 255]);
    let before = buf.pixels.clone();
    legend.paint(&mut buf, &[false], 0);
    assert_eq!(buf.pixels, before, "alpha 0 paints nothing");
    let mut half = frame(400, 160, [100, 100, 100, 255]);
    legend.paint(&mut half, &[false], 128);
    let (pw, ph) = legend.size();
    let cx = ((400 - pw) / 2 + pw / 2) as u32;
    let cy = TOP_MARGIN + ph / 2;
    let want = ((100u32 * (255 - scale_alpha(190, 128) as u32)
        + pill_color().b as u32 * scale_alpha(190, 128) as u32)
        / 255) as u8;
    assert_eq!(px(&half, cx, cy)[0], want);
}

#[test]
fn paint_skips_monitors_smaller_than_the_pill_and_empty_legends() {
    let legend = Legend::new(&tabs(&[("SPOTLIGHT", "S"), ("ZOOM", "F"), ("SNIP", "C")]));
    let mut tiny = frame(32, 32, [100, 100, 100, 255]);
    let before = tiny.pixels.clone();
    legend.paint(&mut tiny, &[true, false, false], 255);
    assert_eq!(tiny.pixels, before, "tiny monitor: skipped, not clipped");
    let empty = Legend::new(&[]);
    let mut buf = frame(400, 64, [100, 100, 100, 255]);
    let before = buf.pixels.clone();
    empty.paint(&mut buf, &[], 255);
    assert_eq!(buf.pixels, before);
    // Fewer active flags than tabs: the rest read as inactive (no panic).
    let mut buf2 = frame(400, 64, [100, 100, 100, 255]);
    legend.paint(&mut buf2, &[true], 255);
}

#[test]
fn text_is_drawn_glyph_by_glyph_at_twice_the_size() {
    let mut buf = frame(40, 20, [0, 0, 0, 255]);
    let white = Rgb { r: 255, g: 255, b: 255 };
    draw_text(&mut buf, 2, 1, "+A", white, 255);
    for (n, ch) in "+A".chars().enumerate() {
        for row in 0..8u32 {
            for col in 0..8u32 {
                let on = glyph(ch)[row as usize] >> col & 1 == 1;
                for (dx, dy) in [(0, 0), (1, 0), (0, 1), (1, 1)] {
                    let x = 2 + 16 * n as u32 + 2 * col + dx;
                    let y = 1 + 2 * row + dy;
                    let want = if on { [255, 255, 255, 255] } else { [0, 0, 0, 255] };
                    assert_eq!(px(&buf, x, y), want, "{ch} ({x},{y})");
                }
            }
        }
    }
}

#[test]
fn text_outside_the_buffer_is_left_out() {
    let white = Rgb { r: 255, g: 255, b: 255 };
    // The same text, wholly inside a larger buffer.
    let mut large = frame(120, 60, [0, 0, 0, 255]);
    draw_text(&mut large, 30, 20, "A0+", white, 255);
    let mut small = frame(40, 20, [0, 0, 0, 255]);
    draw_text(&mut small, -10, -5, "A0+", white, 255);
    for y in 0..20u32 {
        for x in 0..40u32 {
            assert_eq!(px(&small, x, y), px(&large, x + 40, y + 25), "({x},{y})");
        }
    }
    let before = small.pixels.clone();
    draw_text(&mut small, i32::MAX, 0, "A", white, 255);
    draw_text(&mut small, 0, i32::MIN, "A", white, 255);
    assert_eq!(small.pixels, before);
}

#[test]
fn hotkey_legend_is_the_legend_of_its_tabs() {
    let h = HotkeySettings::default();
    let spotlight = h.mode_spotlight.to_display();
    let zoom = h.zoom_hold.to_display();
    let snip = h.mode_snip.to_display();
    let a = Legend::from_hotkeys(&h);
    let b = Legend::new(&tabs(&[
        ("SPOTLIGHT", spotlight.as_str()),
        ("ZOOM", zoom.as_str()),
        ("SNIP", snip.as_str()),
    ]));
    assert_eq!(a.size(), b.size());
    let mut one = frame(800, 160, [60, 70, 80, 255]);
    let mut two = one.clone();
    a.paint(&mut one, &[true, false, true], 200);
    b.paint(&mut two, &[true, false, true], 200);
    assert_eq!(one.pixels, two.pixels);
}

#[test]
fn missing_flags_are_inactive_and_surplus_ones_ignored() {
    let legend = Legend::new(&tabs(&[("AA", "B"), ("CC", "D")]));
    let painted = |flags: &[bool]| {
        let mut buf = frame(400, 160, [60, 60, 60, 255]);
        legend.paint(&mut buf, flags, 255);
        buf.pixels
    };
    assert_eq!(painted(&[true]), painted(&[true, false]));
    assert_eq!(painted(&[]), painted(&[false, false]));
    assert_eq!(painted(&[true, false, true, true]), painted(&[true, false]));
}
