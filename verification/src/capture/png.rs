//! PNG encoding of [`DibBuffer`] frames (BGRA to RGBA).

use crate::capture::DibBuffer;
use vstd::prelude::*;

verus! {

/// `png::EncodingError`, carried through unread.
#[verifier::external_type_specification]
#[verifier::external_body]
pub struct ExEncodingError(png::EncodingError);

/// The stream `png::Encoder` writes for an 8-bit RGBA image with its default
/// options.
pub uninterp spec fn png_stream(width: u32, height: u32, rgba: Seq<u8>) -> Seq<u8>;

/// The image that `png::Decoder`, with the limits it has by default, reads from
/// a stream: its width, its height and the bytes of its 8-bit RGBA pixels;
/// `None` where it reads no such image.
pub uninterp spec fn png_image(stream: Seq<u8>) -> Option<(u32, u32, Seq<u8>)>;

/// The four big-endian bytes of `v`.
pub open spec fn be32(v: u32) -> Seq<u8> {
    seq![
        (v / 0x100_0000) as u8,
        (v / 0x1_0000 % 0x100) as u8,
        (v / 0x100 % 0x100) as u8,
        (v % 0x100) as u8,
    ]
}

/// The widest image whose row fits the 64 MiB that a decoder allows itself by
/// default.
pub const MAX_DECODED_WIDTH: u32 = 0x100_0000;

/// The first bytes of a PNG stream of an 8-bit RGBA image: the signature, then
/// the IHDR chunk's length, name and data (dimensions, bit depth 8, colour type
/// 6, and zero compression, filter and interlace methods).
pub open spec fn png_head(width: u32, height: u32) -> Seq<u8> {
    seq![0x89u8, 0x50u8, 0x4Eu8, 0x47u8, 0x0Du8, 0x0Au8, 0x1Au8, 0x0Au8] + be32(13) + seq![
        0x49u8,
        0x48u8,
        0x44u8,
        0x52u8,
    ] + be32(width) + be32(height) + seq![8u8, 6u8, 0u8, 0u8, 0u8]
}

/// `png::Encoder` with colour type RGBA and bit depth 8: header, image data and
/// end chunk written to memory. It reports no error for an image with pixels
/// whose bytes are as many as its dimensions say. The stream depends on the
/// dimensions and the pixel bytes alone, begins with the signature and the IHDR
/// chunk, and holds the image without loss: `png::Decoder` reads the same
/// dimensions and bytes from it, wherever one row of four bytes per pixel is
/// within its default limit of 64 MiB. The compressed bytes themselves are not
/// described, nor what such a decoder makes of wider images.
#[verifier::external_body]
fn write_png(width: u32, height: u32, rgba: &Vec<u8>) -> (r: Result<Vec<u8>, png::EncodingError>)
    requires
        0 < width,
        0 < height,
        rgba@.len() == width * 4 * height,
    ensures
        match r {
            Ok(bytes) => {
                &&& png_stream(width, height, rgba@) == bytes@
                &&& width <= MAX_DECODED_WIDTH ==> png_image(bytes@) == Some(
                    (width, height, rgba@),
                )
                &&& bytes@.len() > 29
                &&& bytes@.subrange(0, 29) == png_head(width, height)
            },
            Err(_) => false,
        },
{
    let mut out = Vec::new();
    let mut encoder = png::Encoder::new(&mut out, width, height);
    encoder.set_color(png::ColorType::Rgba);
    encoder.set_depth(png::BitDepth::Eight);
    let mut writer = encoder.write_header()?;
    writer.write_image_data(rgba)?;
    drop(writer);
    Ok(out)
}

/// BGRA bytes with blue and red swapped in every complete pixel.
pub open spec fn swapped(bgra: Seq<u8>) -> Seq<u8> {
    Seq::new(
        (bgra.len() / 4 * 4) as nat,
        |i: int|
            if i % 4 == 0 {
                bgra[i + 2]
            } else if i % 4 == 2 {
                bgra[i - 2]
            } else {
                bgra[i]
            },
    )
}

/// BGRA to RGBA: swap blue and red in every complete pixel; alpha passes
/// through and a trailing partial pixel is dropped.
pub fn bgra_to_rgba(bgra: &Vec<u8>) -> (r: Vec<u8>)
    ensures
        r@ == swapped(bgra@),
{
    let mut rgba: Vec<u8> = Vec::new();
    let mut i: usize = 0;
    while bgra.len() - i >= 4
        invariant
            i <= bgra.len(),
            i % 4 == 0,
            rgba@.len() == i,
            forall|k: int| 0 <= k < i ==> #[trigger] rgba@[k] == swapped(bgra@)[k],
        decreases bgra.len() - i,
    {
        rgba.push(bgra[i + 2]);
        rgba.push(bgra[i + 1]);
        rgba.push(bgra[i]);
        rgba.push(bgra[i + 3]);
        i += 4;
    }
    proof {
        assert(rgba@ =~= swapped(bgra@));
    }
    rgba
}

/// Swapping blue and red twice changes nothing.
pub proof fn lemma_swap_twice(bgra: Seq<u8>)
    requires
        bgra.len() % 4 == 0,
    ensures
        swapped(swapped(bgra)) == bgra,
{
    assert(swapped(swapped(bgra)) =~= bgra);
}

/// Why a frame could not be encoded.
#[derive(Clone, Copy, PartialEq, Eq, Structural, Debug)]
pub enum PngError {
    /// The frame has no pixels.
    Empty,
    /// The buffer's layout is not that of a well-formed frame.
    Layout,
    /// The encoder reported an error; it does so for no well-formed frame.
    Encoder,
}

/// Encode a frame as an 8-bit RGBA PNG. Every well-formed frame with pixels is
/// encoded, and decoding a frame of at most [`MAX_DECODED_WIDTH`] pixels across
/// gives its pixels back with blue and red swapped.
pub fn encode_png(dib: &DibBuffer) -> (r: Result<Vec<u8>, PngError>)
    ensures
        r is Ok <==> dib.width != 0 && dib.height != 0 && dib.wf(),
        match r {
            Ok(bytes) => {
                &&& png_stream(dib.width, dib.height, swapped(dib.pixels@)) == bytes@
                &&& dib.width <= MAX_DECODED_WIDTH ==> png_image(bytes@) == Some(
                    (dib.width, dib.height, swapped(dib.pixels@)),
                )
                &&& bytes@.len() > 29
                &&& bytes@.subrange(0, 29) == png_head(dib.width, dib.height)
            },
            Err(PngError::Empty) => dib.width == 0 || dib.height == 0,
            Err(PngError::Layout) => dib.width != 0 && dib.height != 0 && !dib.wf(),
            Err(PngError::Encoder) => false,
        },
{
    if dib.width == 0 || dib.height == 0 {
        return Err(PngError::Empty);
    }
    proof {
        assert(0 <= dib.stride * dib.height <= 0xffff_ffff * 0xffff_ffff) by (nonlinear_arith)
            requires
                0 <= dib.stride <= 0xffff_ffff,
                0 <= dib.height <= 0xffff_ffff,
        ;
    }
    if dib.stride as u64 != dib.width as u64 * 4 || dib.pixels.len() as u128 != dib.stride as u128
        * dib.height as u128 {
        return Err(PngError::Layout);
    }
    let rgba = bgra_to_rgba(&dib.pixels);
    proof {
        assert(dib.stride * dib.height == (dib.width * dib.height) * 4) by (nonlinear_arith)
            requires
                dib.stride == dib.width * 4,
        ;
    }
    match write_png(dib.width, dib.height, &rgba) {
        Ok(bytes) => Ok(bytes),
        Err(_) => Err(PngError::Encoder),
    }
}

} // verus!
