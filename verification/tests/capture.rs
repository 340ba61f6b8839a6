use spotfreeze::capture::{
    capture_extent, capture_monitor, copy_dib_to_clipboard, enumerate_monitors, force_opaque,
    pack_cfdib, utf16_to_string, CaptureError, DibBuffer, GdiCapturer, MonitorInfo,
    ReportedMonitor, BITMAPINFOHEADER_SIZE,
};
use spotfreeze::geometry::Rect;

#[test]
fn new_has_expected_layout() {
    let b = DibBuffer::new(3, 2);
    assert_eq!(b.width, 3);
    assert_eq!(b.height, 2);
    assert_eq!(b.stride, 12);
    assert_eq!(b.pixels.len(), 24);
    assert!(b.pixels.iter().all(|&x| x == 0));
}

#[test]
fn new_zero_sized_is_empty() {
    let b = DibBuffer::new(0, 0);
    assert_eq!(b.stride, 0);
    assert!(b.pixels.is_empty());
    let b2 = DibBuffer::new(5, 0);
    assert!(b2.pixels.is_empty());
}

#[test]
fn pixel_reads_bgra_in_order() {
    let mut b = DibBuffer::new(2, 2);
    // Write pixel (1, 0) as [B, G, R, A] = [10, 20, 30, 40].
    let idx = 4;
    b.pixels[idx..idx + 4].copy_from_slice(&[10, 20, 30, 40]);
    assert_eq!(b.pixel(1, 0), Some([10, 20, 30, 40]));
    assert_eq!(b.pixel(0, 0), Some([0, 0, 0, 0]));
}

#[test]
fn pixel_out_of_bounds_returns_none() {
    let b = DibBuffer::new(2, 2);
    assert_eq!(b.pixel(2, 0), None);
    assert_eq!(b.pixel(0, 2), None);
    assert_eq!(b.pixel(9, 9), None);
}

#[test]
fn utf16_stops_at_nul() {
    let buf: [u16; 5] = [u16::from(b'A'), u16::from(b'B'), 0, u16::from(b'C'), 0];
    assert_eq!(utf16_to_string(&buf), "AB");
}

#[test]
fn utf16_without_nul_uses_whole_buffer() {
    let buf: [u16; 3] = [u16::from(b'X'), u16::from(b'Y'), u16::from(b'Z')];
    assert_eq!(utf16_to_string(&buf), "XYZ");
}

#[test]
fn utf16_empty_and_all_nul() {
    assert_eq!(utf16_to_string(&[]), "");
    assert_eq!(utf16_to_string(&[0, 0, 0]), "");
}

#[test]
fn utf16_decodes_device_name_shape() {
    // "\\.\DISPLAY1" as UTF-16, NUL-padded to 32 units.
    let text = "\\\\.\\DISPLAY1";
    let mut buf = [0u16; 32];
    for (i, u) in text.encode_utf16().enumerate() {
        buf[i] = u;
    }
    assert_eq!(utf16_to_string(&buf), text);
}

#[test]
fn utf16_pairs_and_lone_halves() {
    assert_eq!(utf16_to_string(&[0xd834, 0xdd1e, 0x41]), "𝄞A");
    assert_eq!(utf16_to_string(&[0xd834, 0x41]), "\u{fffd}A");
    assert_eq!(utf16_to_string(&[0xdd1e]), "\u{fffd}");
}

/// 2x2 buffer with distinct bytes whose alpha is not 255.
fn sample_2x2() -> DibBuffer {
    DibBuffer {
        width: 2,
        height: 2,
        stride: 8,
        pixels: vec![
            1, 2, 3, 4, 5, 6, 7, 8, // row 0
            9, 10, 11, 12, 13, 14, 15, 16, // row 1
        ],
    }
}

#[test]
fn pack_cfdib_total_length() {
    let packed = pack_cfdib(&sample_2x2());
    assert_eq!(packed.len(), BITMAPINFOHEADER_SIZE + 2 * 2 * 4);
}

#[test]
fn pack_cfdib_header_fields() {
    let packed = pack_cfdib(&sample_2x2());
    let u32_at = |off: usize| u32::from_le_bytes(packed[off..off + 4].try_into().unwrap());
    let i32_at = |off: usize| i32::from_le_bytes(packed[off..off + 4].try_into().unwrap());
    let u16_at = |off: usize| u16::from_le_bytes(packed[off..off + 2].try_into().unwrap());

    assert_eq!(u32_at(0), BITMAPINFOHEADER_SIZE as u32); // size
    assert_eq!(i32_at(4), 2); // width
    assert_eq!(i32_at(8), 2); // height (positive => bottom-up)
    assert_eq!(u16_at(12), 1); // planes
    assert_eq!(u16_at(14), 32); // bits per pixel
    assert_eq!(u32_at(16), 0); // compression: none
    assert_eq!(u32_at(20), 16); // image size
    assert_eq!(i32_at(24), 0); // horizontal resolution
    assert_eq!(i32_at(28), 0); // vertical resolution
    assert_eq!(u32_at(32), 0); // colours used
    assert_eq!(u32_at(36), 0); // colours that matter
}

#[test]
fn pack_cfdib_flips_rows_and_forces_alpha() {
    let packed = pack_cfdib(&sample_2x2());
    let px = &packed[BITMAPINFOHEADER_SIZE..];
    // First emitted row must be the source's bottom row, alpha 255.
    assert_eq!(&px[0..8], &[9, 10, 11, 255, 13, 14, 15, 255]);
    assert_eq!(&px[8..16], &[1, 2, 3, 255, 5, 6, 7, 255]);
    assert!(px.chunks_exact(4).all(|p| p[3] == 255));
}

#[test]
fn pack_cfdib_single_pixel() {
    let dib = DibBuffer {
        width: 1,
        height: 1,
        stride: 4,
        pixels: vec![200, 100, 50, 0],
    };
    let packed = pack_cfdib(&dib);
    assert_eq!(packed.len(), BITMAPINFOHEADER_SIZE + 4);
    assert_eq!(&packed[BITMAPINFOHEADER_SIZE..], &[200, 100, 50, 255]);
}

#[test]
fn clipboard_payload_packs_frames_and_refuses_empty_ones() {
    assert_eq!(copy_dib_to_clipboard(&sample_2x2()), Some(pack_cfdib(&sample_2x2())));
    assert_eq!(copy_dib_to_clipboard(&DibBuffer::new(0, 0)), None);
}

#[test]
fn force_opaque_sets_every_alpha_byte() {
    let mut pixels = vec![1, 2, 3, 0, 5, 6, 7, 200, 9, 10, 11, 255];
    force_opaque(&mut pixels);
    assert_eq!(pixels, vec![1, 2, 3, 255, 5, 6, 7, 255, 9, 10, 11, 255]);
}

#[test]
fn force_opaque_ignores_a_trailing_partial_pixel() {
    let mut pixels = vec![0, 0, 0, 0, 9, 9];
    force_opaque(&mut pixels);
    assert_eq!(pixels, vec![0, 0, 0, 255, 9, 9]);
}

fn monitor(rect: Rect) -> MonitorInfo {
    MonitorInfo {
        rect,
        dpi_x: 96,
        dpi_y: 96,
        is_primary: true,
        device_name: String::from("DISPLAY1"),
    }
}

#[test]
fn captured_bits_become_an_opaque_frame() {
    let mon = monitor(Rect::new(-5, 7, 2, 1));
    assert_eq!(capture_extent(&mon), Some((2, 1)));
    let dib = capture_monitor(&mon, &[1, 2, 3, 0, 5, 6, 7, 9]).unwrap();
    assert_eq!((dib.width, dib.height, dib.stride), (2, 1, 8));
    assert_eq!(dib.pixels, vec![1, 2, 3, 255, 5, 6, 7, 255]);
    {
        let mon = monitor(Rect::new(0, 0, 2, 1));
        assert_eq!(capture_monitor(&mon, &[1, 2, 3, 0]), Err(CaptureError::SizeMismatch));
    }
}

#[test]
fn enumerated_monitor_fields() {
    let name: Vec<u16> = "D1".encode_utf16().chain([0, 0]).collect();
    let left = ReportedMonitor {
        left: -1920,
        top: 0,
        right: 0,
        bottom: 1080,
        dpi: Some((144, 120)),
        flags: 1,
        device: name.clone(),
    };
    let main = ReportedMonitor {
        left: 0,
        top: 0,
        right: 10,
        bottom: 10,
        dpi: None,
        flags: 0,
        device: name,
    };
    let found = enumerate_monitors(&[left, main]);
    assert_eq!(found[0].rect, Rect::new(-1920, 0, 1920, 1080));
    assert_eq!((found[0].dpi_x, found[0].dpi_y), (144, 120));
    assert!(found[0].is_primary);
    assert_eq!(found[0].device_name, "D1");
    assert_eq!((found[1].dpi_x, found[1].dpi_y), (96, 96));
    assert!(!found[1].is_primary);
}

#[test]
fn every_monitor_is_captured_or_named() {
    let mons = || vec![monitor(Rect::new(0, 0, 1, 1)), monitor(Rect::new(1, 0, 0, 4))];
    let gdi = GdiCapturer::default();
    let out = gdi.capture_all(mons(), &[vec![1, 2, 3, 4], vec![]]).unwrap();
    assert_eq!(out[0].1.pixels, vec![1, 2, 3, 255]);
    assert_eq!(out[1].1, DibBuffer::new(0, 0));
    assert_eq!(
        gdi.capture_all(mons(), &[vec![1], vec![]]),
        Err(String::from("capturing DISPLAY1"))
    );
    assert_eq!(gdi.capture_all(vec![], &[]), Ok(vec![]));
}

#[test]
fn frames_are_copied_and_written_pixel_by_pixel() {
    let mut b = DibBuffer::new(2, 2);
    b.put(0, 1, [1, 2, 3, 4]);
    assert_eq!(b.get(0, 1), [1, 2, 3, 4]);
    assert_eq!(b.get(1, 1), [0, 0, 0, 0]);
    assert_eq!(b.get(0, 0), [0, 0, 0, 0]);
    {
        let src = sample_2x2();
        assert_eq!(src.duplicate(), src);
        assert_eq!(DibBuffer::default(), DibBuffer::new(0, 0));
    }
}
