use spotfreeze::capture::DibBuffer;
use spotfreeze::geometry::{Point, Rect};
use spotfreeze::overlay::composite::{
    accent, blend_channel, compose_frame, crop_normalized, darken, draw_border, isqrt_u64,
    local_to_virtual, monitor_index_at, resample_nearest, spotlight_hole, tint, virtual_to_local,
    zoom_resample, RenderState, ZoomFilter, CAPTURE_FRAME_THICKNESS,
};
use spotfreeze::overlay::factor::Factor;
use spotfreeze::settings::model::Rgb;

fn map_at(o: u32, extent: u32, zoom: f32, focus: i32) -> f32 {
    focus as f32 + (o as f32 + 0.5 - extent as f32 / 2.0) / zoom - 0.5
}

/// Zoom with the sample positions and the blend of the renderer.
fn zoomed(
    src: &DibBuffer,
    viewport: Rect,
    zoom: f32,
    focus: Point,
    filter: ZoomFilter,
) -> DibBuffer {
    let (vw, vh) = (viewport.width, viewport.height);
    let pick = |v: f32| match filter {
        ZoomFilter::Nearest => v.round() as i32,
        ZoomFilter::Bilinear => v.floor() as i32,
    };
    let cols: Vec<i32> = (0..vw).map(|x| pick(map_at(x, vw, zoom, focus.x))).collect();
    let rows: Vec<i32> = (0..vh).map(|y| pick(map_at(y, vh, zoom, focus.y))).collect();
    let blend = |a: u8, b: u8, c: u8, d: u8, x: u32, y: u32| {
        let px = map_at(x, vw, zoom, focus.x);
        let py = map_at(y, vh, zoom, focus.y);
        let fx = px - px.floor();
        let fy = py - py.floor();
        let v = a as f32 * ((1.0 - fx) * (1.0 - fy))
            + b as f32 * (fx * (1.0 - fy))
            + c as f32 * ((1.0 - fx) * fy)
            + d as f32 * (fx * fy);
        v.round() as u8
    };
    zoom_resample(src, viewport, &cols, &rows, filter, blend)
}

/// Build a buffer from a pixel generator.
fn make_buf(w: u32, h: u32, f: impl Fn(u32, u32) -> [u8; 4]) -> DibBuffer {
    let mut pixels = Vec::with_capacity((w * h * 4) as usize);
    for y in 0..h {
        for x in 0..w {
            pixels.extend_from_slice(&f(x, y));
        }
    }
    DibBuffer {
        width: w,
        height: h,
        stride: w * 4,
        pixels,
    }
}

/// Distinct, deterministic pattern: every pixel unique-ish per channel.
fn pattern(x: u32, y: u32) -> [u8; 4] {
    [
        (x * 7 + y) as u8,
        (y * 5 + x) as u8,
        (x.wrapping_add(y) * 3) as u8,
        255,
    ]
}

fn px(buf: &DibBuffer, x: u32, y: u32) -> [u8; 4] {
    let i = (y * buf.stride + x * 4) as usize;
    buf.pixels[i..i + 4].try_into().unwrap()
}

fn solid(w: u32, h: u32, c: [u8; 4]) -> DibBuffer {
    make_buf(w, h, |_, _| c)
}

// ---- darken --------------------------------------------------------

#[test]
fn darken_alpha_zero_is_noop() {
    let mut buf = make_buf(16, 16, pattern);
    let before = buf.pixels.clone();
    darken(&mut buf, 0);
    assert_eq!(buf.pixels, before);
}

#[test]
fn darken_full_alpha_is_black_but_keeps_alpha() {
    let mut buf = make_buf(8, 8, |x, y| [x as u8, y as u8, 200, 123]);
    darken(&mut buf, 255);
    for y in 0..8 {
        for x in 0..8 {
            assert_eq!(px(&buf, x, y), [0, 0, 0, 123]);
        }
    }
}

#[test]
fn darken_exact_channel_math() {
    // Exhaustive over representative channel values × dim alphas.
    for &ch in &[0u8, 1, 2, 127, 128, 200, 254, 255] {
        for &a in &[0u8, 1, 63, 128, 191, 254, 255] {
            let mut buf = solid(1, 1, [ch, ch, ch, 77]);
            darken(&mut buf, a);
            let expect = (ch as u32 * (255 - a as u32) / 255) as u8;
            assert_eq!(px(&buf, 0, 0), [expect, expect, expect, 77], "ch={ch} a={a}");
        }
    }
}

#[test]
fn darken_empty_buffer_no_panic() {
    let mut buf = DibBuffer::default();
    darken(&mut buf, 128);
    assert!(buf.pixels.is_empty());
}

// ---- spotlight_hole ------------------------------------------------

#[test]
fn spotlight_exact_circle_boundary() {
    // 9x9, center (4,4), r=2: verify EVERY pixel against dx^2+dy^2<=4.
    let src = make_buf(9, 9, pattern);
    let mut dst = solid(9, 9, [10, 10, 10, 255]);
    spotlight_hole(&mut dst, &src, Point::new(4, 4), 2);
    for y in 0..9i32 {
        for x in 0..9i32 {
            let dx = x - 4;
            let dy = y - 4;
            let inside = dx * dx + dy * dy <= 4;
            let got = px(&dst, x as u32, y as u32);
            if inside {
                assert_eq!(got, pattern(x as u32, y as u32), "({x},{y}) should be restored");
            } else {
                assert_eq!(got, [10, 10, 10, 255], "({x},{y}) should stay dark");
            }
        }
    }
}

#[test]
fn spotlight_radius_zero_copies_single_pixel() {
    let src = make_buf(5, 5, pattern);
    let mut dst = solid(5, 5, [0, 0, 0, 255]);
    spotlight_hole(&mut dst, &src, Point::new(2, 3), 0);
    assert_eq!(px(&dst, 2, 3), pattern(2, 3));
    // Everything else untouched.
    for y in 0..5 {
        for x in 0..5 {
            if (x, y) != (2, 3) {
                assert_eq!(px(&dst, x, y), [0, 0, 0, 255]);
            }
        }
    }
}

#[test]
fn spotlight_radius_zero_offscreen_copies_nothing() {
    let src = make_buf(4, 4, pattern);
    let mut dst = solid(4, 4, [9, 9, 9, 255]);
    spotlight_hole(&mut dst, &src, Point::new(-3, 10), 0);
    assert_eq!(dst, solid(4, 4, [9, 9, 9, 255]));
}

#[test]
fn spotlight_circle_partially_offscreen_top_left() {
    // Center (-1,-1) r=2 on 4x4: only pixels with (x+1)^2+(y+1)^2<=4.
    let src = make_buf(4, 4, pattern);
    let mut dst = solid(4, 4, [1, 2, 3, 255]);
    spotlight_hole(&mut dst, &src, Point::new(-1, -1), 2);
    for y in 0..4i32 {
        for x in 0..4i32 {
            let inside = (x + 1) * (x + 1) + (y + 1) * (y + 1) <= 4;
            let expect = if inside {
                pattern(x as u32, y as u32)
            } else {
                [1, 2, 3, 255]
            };
            assert_eq!(px(&dst, x as u32, y as u32), expect, "({x},{y})");
        }
    }
    // (0,0) is inside: 1 + 1 <= 4.
    assert_eq!(px(&dst, 0, 0), pattern(0, 0));
}

#[test]
fn spotlight_circle_partially_offscreen_bottom_right() {
    let src = make_buf(6, 6, pattern);
    let mut dst = solid(6, 6, [0, 0, 0, 255]);
    spotlight_hole(&mut dst, &src, Point::new(7, 7), 3);
    for y in 0..6i32 {
        for x in 0..6i32 {
            let inside = (x - 7) * (x - 7) + (y - 7) * (y - 7) <= 9;
            let expect = if inside {
                pattern(x as u32, y as u32)
            } else {
                [0, 0, 0, 255]
            };
            assert_eq!(px(&dst, x as u32, y as u32), expect, "({x},{y})");
        }
    }
}

#[test]
fn spotlight_huge_radius_restores_everything() {
    let src = make_buf(32, 24, pattern);
    let mut dst = solid(32, 24, [5, 5, 5, 255]);
    spotlight_hole(&mut dst, &src, Point::new(16, 12), 10_000);
    assert_eq!(dst.pixels, src.pixels);
}

// ---- zoom_resample -------------------------------------------------

#[test]
fn zoom_identity_is_exact_both_filters() {
    // Even dimensions + centered focus => zoom 1.0 reproduces src exactly.
    let src = make_buf(8, 6, pattern);
    let viewport = Rect::new(0, 0, 8, 6);
    let focus = Point::new(4, 3);
    for filter in [ZoomFilter::Nearest, ZoomFilter::Bilinear] {
        let out = zoomed(&src, viewport, 1.0, focus, filter);
        assert_eq!(out.width, 8);
        assert_eq!(out.height, 6);
        assert_eq!(out.stride, 32);
        assert_eq!(out.pixels, src.pixels, "filter {filter:?}");
    }
}

#[test]
fn zoom_2x_nearest_exact_mapping() {
    // viewport 8x8, zoom 2, focus (2,2) on 4x4 src.
    // src_x = 2 + (ox+0.5-4)/2 - 0.5 => nearest column map [0,0,1,1,2,2,3,3].
    let src = make_buf(4, 4, pattern);
    let out = zoomed(&src, Rect::new(0, 0, 8, 8), 2.0, Point::new(2, 2), ZoomFilter::Nearest);
    for oy in 0..8u32 {
        for ox in 0..8u32 {
            let expect = pattern(ox / 2, oy / 2);
            assert_eq!(px(&out, ox, oy), expect, "({ox},{oy})");
        }
    }
}

#[test]
fn zoom_out_edge_clipping_replicates_edge_pixels() {
    // 4x4 src, viewport 8x8, zoom 0.5, focus at the CORNER (0,0).
    // src_x = 0 + (ox+0.5-4)/0.5 - 0.5 = 2*ox - 7.5 (nearest, then clamp).
    // ox:      0    1    2    3   4   5   6   7
    // src_x: -7.5 -5.5 -3.5 -1.5 0.5 2.5 4.5 6.5
    // round:  -8   -6   -4   -2   1   3   5   7  (f32::round, half away from 0)
    // clamp:   0    0    0    0   1   3   3   3
    let src = make_buf(4, 4, pattern);
    let out = zoomed(&src, Rect::new(0, 0, 8, 8), 0.5, Point::new(0, 0), ZoomFilter::Nearest);
    let colmap = [0u32, 0, 0, 0, 1, 3, 3, 3];
    for oy in 0..8u32 {
        for ox in 0..8u32 {
            let expect = pattern(colmap[ox as usize], colmap[oy as usize]);
            assert_eq!(px(&out, ox, oy), expect, "({ox},{oy})");
        }
    }
    // Corner is the replicated edge pixel, not black.
    assert_eq!(px(&out, 0, 0), pattern(0, 0));
}

#[test]
fn zoom_bilinear_exact_half_blend() {
    // 2x1 src [0,0,0,255] / [100,200,50,255]; viewport 3x1, focus (1,0), zoom 1.
    // src_x = 1 + (ox + 0.5 - 1.5)/1 - 0.5 = ox - 0.5.
    // ox=0 -> -0.5 (clamped: both taps pixel 0) ; ox=1 -> 0.5 (50/50 blend);
    // ox=2 -> 1.5 (clamped: both taps pixel 1).
    let src = make_buf(2, 1, |x, _| if x == 0 { [0, 0, 0, 255] } else { [100, 200, 50, 255] });
    let out = zoomed(&src, Rect::new(0, 0, 3, 1), 1.0, Point::new(1, 0), ZoomFilter::Bilinear);
    assert_eq!(px(&out, 0, 0), [0, 0, 0, 255]);
    assert_eq!(px(&out, 1, 0), [50, 100, 25, 255]);
    assert_eq!(px(&out, 2, 0), [100, 200, 50, 255]);
}

#[test]
fn zoom_bilinear_vertical_quarter_blend() {
    // 1x2 src: top [0,0,0,255], bottom [200,100,0,255].
    // viewport 1x5, focus (0,1), zoom 1: src_y = 1 + (oy+0.5-2.5) - 0.5 = oy - 1.5.
    // oy=0 -> -1.5 clamp top; oy=3 -> 1.5 clamp bottom; oy=2 -> 0.5 => 50/50.
    let src = make_buf(1, 2, |_, y| if y == 0 { [0, 0, 0, 255] } else { [200, 100, 0, 255] });
    let out = zoomed(&src, Rect::new(0, 0, 1, 5), 1.0, Point::new(0, 1), ZoomFilter::Bilinear);
    assert_eq!(px(&out, 0, 0), [0, 0, 0, 255]);
    assert_eq!(px(&out, 0, 2), [100, 50, 0, 255]);
    assert_eq!(px(&out, 0, 3), [200, 100, 0, 255]);
    assert_eq!(px(&out, 0, 4), [200, 100, 0, 255]);
}

#[test]
fn zoom_zero_viewport_and_empty_src_are_safe() {
    let src = make_buf(4, 4, pattern);
    let out = zoomed(&src, Rect::new(0, 0, 0, 0), 2.0, Point::new(0, 0), ZoomFilter::Nearest);
    assert_eq!(out.pixels.len(), 0);
    let empty = DibBuffer::default();
    let out2 = zoomed(&empty, Rect::new(0, 0, 4, 4), 2.0, Point::new(0, 0), ZoomFilter::Bilinear);
    assert_eq!(out2.pixels.len(), 4 * 4 * 4); // zeroed, no panic
}

#[test]
fn zoom_viewport_xy_ignored() {
    let src = make_buf(8, 6, pattern);
    let a = zoomed(&src, Rect::new(0, 0, 8, 6), 1.0, Point::new(4, 3), ZoomFilter::Nearest);
    let b = zoomed(&src, Rect::new(-1920, 500, 8, 6), 1.0, Point::new(4, 3), ZoomFilter::Nearest);
    assert_eq!(a.pixels, b.pixels);
}

// ---- crop_normalized -----------------------------------------------

#[test]
fn crop_positive_drag_exact_contents() {
    let src = make_buf(8, 8, pattern);
    let out = crop_normalized(&src, Point::new(2, 3), Point::new(6, 5)).unwrap();
    assert_eq!((out.width, out.height, out.stride), (4, 2, 16));
    for y in 0..2u32 {
        for x in 0..4u32 {
            assert_eq!(px(&out, x, y), pattern(x + 2, y + 3));
        }
    }
}

#[test]
fn crop_negative_drag_normalized() {
    let src = make_buf(8, 8, pattern);
    let fwd = crop_normalized(&src, Point::new(2, 3), Point::new(6, 5)).unwrap();
    // Both reversed axes and swapped endpoint order must give the same crop.
    let rev = crop_normalized(&src, Point::new(6, 5), Point::new(2, 3)).unwrap();
    let mixed = crop_normalized(&src, Point::new(6, 3), Point::new(2, 5)).unwrap();
    assert_eq!(fwd.pixels, rev.pixels);
    assert_eq!(fwd.pixels, mixed.pixels);
    assert_eq!((rev.width, rev.height), (4, 2));
}

#[test]
fn crop_partially_outside_is_clipped() {
    let src = make_buf(4, 4, pattern);
    let out = crop_normalized(&src, Point::new(-10, 2), Point::new(3, 90)).unwrap();
    assert_eq!((out.width, out.height), (3, 2)); // x: 0..3, y: 2..4
    for y in 0..2u32 {
        for x in 0..3u32 {
            assert_eq!(px(&out, x, y), pattern(x, y + 2));
        }
    }
}

#[test]
fn crop_fully_outside_returns_none() {
    let src = make_buf(4, 4, pattern);
    assert!(crop_normalized(&src, Point::new(10, 10), Point::new(20, 20)).is_none());
    assert!(crop_normalized(&src, Point::new(-20, -20), Point::new(-10, -10)).is_none());
    assert!(crop_normalized(&src, Point::new(0, -50), Point::new(4, -1)).is_none());
    assert!(crop_normalized(&src, Point::new(5, 0), Point::new(50, 4)).is_none());
}

#[test]
fn crop_zero_area_returns_none() {
    let src = make_buf(4, 4, pattern);
    assert!(crop_normalized(&src, Point::new(2, 2), Point::new(2, 2)).is_none());
    assert!(crop_normalized(&src, Point::new(1, 1), Point::new(3, 1)).is_none()); // zero height
    assert!(crop_normalized(&src, Point::new(1, 1), Point::new(1, 3)).is_none()); // zero width
}

#[test]
fn crop_full_buffer() {
    let src = make_buf(4, 4, pattern);
    let out = crop_normalized(&src, Point::new(0, 0), Point::new(4, 4)).unwrap();
    assert_eq!(out.pixels, src.pixels);
}

// ---- multi-monitor mapping ------------------------------------------

fn three_monitors() -> Vec<Rect> {
    vec![
        Rect::new(0, 0, 1920, 1080),       // primary
        Rect::new(-1920, 0, 1920, 1080),   // left of primary (negative x)
        Rect::new(1920, -200, 2560, 1440), // right, slightly higher
    ]
}

#[test]
fn monitor_index_at_hits_and_misses() {
    let mons = three_monitors();
    assert_eq!(monitor_index_at(Point::new(0, 0), &mons), Some(0));
    assert_eq!(monitor_index_at(Point::new(1919, 1079), &mons), Some(0));
    assert_eq!(monitor_index_at(Point::new(-1, 500), &mons), Some(1));
    assert_eq!(monitor_index_at(Point::new(-1920, 0), &mons), Some(1));
    assert_eq!(monitor_index_at(Point::new(1920, 0), &mons), Some(2)); // right edge exclusive
    assert_eq!(monitor_index_at(Point::new(3000, 1000), &mons), Some(2));
    assert_eq!(monitor_index_at(Point::new(1920, -201), &mons), None); // above monitor 2
    assert_eq!(monitor_index_at(Point::new(-1921, 0), &mons), None);
    assert_eq!(monitor_index_at(Point::new(0, 1080), &mons), None); // below primary
    assert_eq!(monitor_index_at(Point::new(0, 0), &[]), None);
}

#[test]
fn coordinate_mapping_roundtrip_negative_virtual() {
    let mon = Rect::new(-1920, -100, 1920, 1080);
    let virt = Point::new(-1000, 500);
    let local = virtual_to_local(virt, mon);
    assert_eq!(local, Point::new(920, 600));
    assert_eq!(local_to_virtual(local, mon), virt);
    // Corners.
    assert_eq!(virtual_to_local(Point::new(-1920, -100), mon), Point::new(0, 0));
    assert_eq!(local_to_virtual(Point::new(0, 0), mon), Point::new(-1920, -100));
}

#[test]
fn coordinate_mapping_primary_is_identity() {
    let primary = Rect::new(0, 0, 1920, 1080);
    let p = Point::new(37, 42);
    assert_eq!(virtual_to_local(p, primary), p);
    assert_eq!(local_to_virtual(p, primary), p);
}

#[test]
fn isqrt_is_the_floor_of_the_root() {
    for n in 0..2000u64 {
        let r = isqrt_u64(n);
        assert!(r * r <= n && n < (r + 1) * (r + 1), "{n}");
    }
    assert_eq!(isqrt_u64(u64::MAX), 0xffff_ffff);
    assert_eq!(isqrt_u64(0xffff_fffe_0000_0001), 0xffff_ffff);
    assert_eq!(isqrt_u64(0xffff_fffe_0000_0000), 0xffff_fffe);
}

#[test]
fn darkening_is_monotone() {
    for ch in [0u8, 1, 100, 254] {
        for a in [0u8, 1, 128, 254, 255] {
            let mut low = solid(1, 1, [ch, ch, ch, 9]);
            let mut high = solid(1, 1, [ch + 1, ch + 1, ch + 1, 9]);
            darken(&mut low, a);
            darken(&mut high, a);
            assert!(px(&low, 0, 0)[0] <= px(&high, 0, 0)[0]);
        }
    }
}

#[test]
fn nearest_samples_are_clamped_to_the_frame() {
    let src = make_buf(3, 2, pattern);
    let out = resample_nearest(&src, &[-5, 1, 99], &[1, -1]);
    assert_eq!((out.width, out.height), (3, 2));
    assert_eq!(px(&out, 0, 0), pattern(0, 1));
    assert_eq!(px(&out, 1, 0), pattern(1, 1));
    assert_eq!(px(&out, 2, 1), pattern(2, 0));
}

#[test]
fn blending_endpoints_are_exact() {
    for (a, b) in [(0u8, 255u8), (17, 203), (255, 0)] {
        assert_eq!(blend_channel(a, b, 0), a);
        assert_eq!(blend_channel(a, b, 255), b);
    }
    let red = Rgb { r: 255, g: 0, b: 10 };
    assert_eq!(tint([1, 2, 3, 4], red, 255), [10, 0, 255, 4]);
    assert_eq!(tint([1, 2, 3, 4], red, 0), [1, 2, 3, 4]);
}

const BLACK: Rgb = Rgb { r: 0, g: 0, b: 0 };

fn bare() -> RenderState {
    RenderState { zoom: None, spotlight: None, snip: None, capture: false }
}

#[test]
fn composing_without_a_veil_keeps_the_frame() {
    let src = make_buf(6, 5, pattern);
    let mut out = DibBuffer::new(6, 5);
    compose_frame(&src, &mut out, &bare(), &[], &[], 0, BLACK);
    assert_eq!(out.pixels, src.pixels);
    {
        let src = make_buf(4, 4, pattern);
        let mut out = DibBuffer::new(4, 4);
        let two = Factor::from_bits(2.0f32.to_bits());
        let state = RenderState { zoom: Some((two, Point::new(0, 0))), ..bare() };
        compose_frame(&src, &mut out, &state, &[0, 0, 1, 1], &[2, 2, 3, 3], 0, BLACK);
        for y in 0..4u32 {
            for x in 0..4u32 {
                assert_eq!(px(&out, x, y), pattern(x / 2, y / 2 + 2));
            }
        }
    }
}

#[test]
fn composing_a_spotlight_dims_outside_the_circle() {
    let src = make_buf(9, 9, pattern);
    let mut out = DibBuffer::new(9, 9);
    let state = RenderState { spotlight: Some((Point::new(4, 4), 2)), ..bare() };
    compose_frame(&src, &mut out, &state, &[], &[], 128, BLACK);
    let mut dark = src.clone();
    darken(&mut dark, 128);
    for y in 0..9i32 {
        for x in 0..9i32 {
            let inside = (x - 4) * (x - 4) + (y - 4) * (y - 4) <= 4;
            let expect = if inside { &src } else { &dark };
            assert_eq!(px(&out, x as u32, y as u32), px(expect, x as u32, y as u32));
        }
    }
}

#[test]
fn capture_mode_draws_the_accent_frame() {
    let src = solid(12, 12, [9, 9, 9, 255]);
    let mut out = DibBuffer::new(12, 12);
    let state = RenderState { capture: true, ..bare() };
    compose_frame(&src, &mut out, &state, &[], &[], 0, BLACK);
    let a = accent();
    assert_eq!(px(&out, 0, 0), [a.b, a.g, a.r, 255]);
    assert_eq!(px(&out, CAPTURE_FRAME_THICKNESS - 1, 6), [a.b, a.g, a.r, 255]);
    assert_eq!(px(&out, 6, 6), [9, 9, 9, 255]);
}

#[test]
fn a_border_covers_the_edge_only() {
    let mut buf = solid(6, 6, [0, 0, 0, 7]);
    draw_border(&mut buf, Rgb { r: 3, g: 2, b: 1 }, 1);
    for y in 0..6u32 {
        for x in 0..6u32 {
            let edge = x == 0 || y == 0 || x == 5 || y == 5;
            assert_eq!(px(&buf, x, y)[0] == 1, edge, "({x},{y})");
        }
    }
}
