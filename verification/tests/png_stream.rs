use spotfreeze::capture::png::{bgra_to_rgba, encode_png, PngError};
use spotfreeze::capture::DibBuffer;

const PNG_SIGNATURE: [u8; 8] = [0x89, b'P', b'N', b'G', 0x0d, 0x0a, 0x1a, 0x0a];

/// 2x2 buffer with distinct channels to catch swaps.
fn sample_2x2() -> DibBuffer {
    DibBuffer {
        width: 2,
        height: 2,
        stride: 8,
        pixels: vec![
            1, 2, 3, 4, 5, 6, 7, 8, // row 0
            9, 10, 11, 12, 13, 14, 15, 16, // row 1
        ],
    }
}

/// The sample's RGBA pixels.
fn sample_2x2_rgba() -> Vec<u8> {
    vec![
        3, 2, 1, 4, 7, 6, 5, 8, // row 0
        11, 10, 9, 12, 15, 14, 13, 16, // row 1
    ]
}

#[test]
fn starts_with_the_png_signature() {
    let png = encode_png(&sample_2x2()).unwrap();
    assert!(png.len() > PNG_SIGNATURE.len());
    assert_eq!(png[..8], PNG_SIGNATURE);
}

#[test]
fn ihdr_carries_dimensions_and_format() {
    let png = encode_png(&sample_2x2()).unwrap();
    // The header chunk follows the 8-byte signature: 4 length bytes, its
    // name, then width and height as big-endian numbers.
    assert_eq!(&png[12..16], b"IHDR");
    assert_eq!(u32::from_be_bytes(png[16..20].try_into().unwrap()), 2); // width
    assert_eq!(u32::from_be_bytes(png[20..24].try_into().unwrap()), 2); // height
    assert_eq!(png[24], 8); // bit depth
    assert_eq!(png[25], 6); // truecolour with alpha
}

#[test]
fn decode_round_trip_restores_the_rgba_pixels() {
    let src = sample_2x2();
    let png = encode_png(&src).unwrap();

    let decoder = ::png::Decoder::new(std::io::Cursor::new(&png));
    let mut reader = decoder.read_info().unwrap();
    let mut buf = vec![0; reader.output_buffer_size().unwrap()];
    let info = reader.next_frame(&mut buf).unwrap();

    assert_eq!((info.width, info.height), (2, 2));
    assert_eq!(info.color_type, ::png::ColorType::Rgba);
    assert_eq!(info.bit_depth, ::png::BitDepth::Eight);
    buf.truncate(info.buffer_size());
    assert_eq!(buf, sample_2x2_rgba());
}

#[test]
fn single_pixel_encodes() {
    let dib = DibBuffer {
        width: 1,
        height: 1,
        stride: 4,
        pixels: vec![200, 100, 50, 255],
    };
    let png = encode_png(&dib).unwrap();
    assert!(png.starts_with(&PNG_SIGNATURE));
}

#[test]
fn empty_buffer_errors() {
    assert!(encode_png(&DibBuffer::new(0, 0)).is_err());
    assert!(encode_png(&DibBuffer::new(4, 0)).is_err());
    assert!(encode_png(&DibBuffer::new(0, 4)).is_err());
    assert_eq!(encode_png(&DibBuffer::new(4, 0)), Err(PngError::Empty));
}

#[test]
fn layout_violating_the_contract_errors() {
    // Stride not equal to width * 4.
    let mut dib = sample_2x2();
    dib.stride = 12;
    assert!(encode_png(&dib).is_err());
    assert_eq!(encode_png(&dib), Err(PngError::Layout));
    // Pixel count not matching stride * height.
    let mut dib = sample_2x2();
    dib.pixels.truncate(4);
    assert!(encode_png(&dib).is_err());
}

#[test]
fn swapping_channels_twice_restores_them() {
    let px = sample_2x2().pixels;
    assert_eq!(bgra_to_rgba(&px), sample_2x2_rgba());
    assert_eq!(bgra_to_rgba(&bgra_to_rgba(&px)), px);
}
