//! Copying strided frame memory into tightly packed buffers.

use crate::capture::{force_opaque, opaque_bytes, push_slice, DibBuffer};
use crate::overlay::composite::size_fits;
use vstd::prelude::*;

verus! {

/// Source row of output row `y`.
pub open spec fn source_row(y: int, height: u32, y_invert: bool) -> int {
    if y_invert {
        height - 1 - y
    } else {
        y
    }
}

/// Whether `len` bytes hold `height` rows of `width` pixels, `stride` bytes
/// apart.
pub open spec fn rows_fit(len: nat, stride: int, width: u32, height: u32) -> bool {
    height > 0 ==> (height - 1) * stride + width * 4 <= len
}

/// `frame` holds the rows of `src`, `src_stride` bytes apart, with every alpha
/// byte 255.
pub open spec fn holds_rows(
    src: Seq<u8>,
    src_stride: int,
    y_invert: bool,
    frame: DibBuffer,
) -> bool {
    &&& frame.wf()
    &&& forall|x: int, y: int, c: int|
        frame.has(x, y) && 0 <= c < 4 ==> #[trigger] frame.chan(x, y, c) == (if c == 3 {
            255
        } else {
            src[source_row(y, frame.height, y_invert) * src_stride + x * 4 + c]
        })
}

/// Copy rows out of a frame's memory into a tightly packed, top-down buffer
/// with every alpha byte 255. Rows are `src_stride` bytes apart; `y_invert`
/// means the last row comes first.
pub fn rows_to_dib(
    src: &[u8],
    src_stride: usize,
    width: u32,
    height: u32,
    y_invert: bool,
) -> (r: DibBuffer)
    requires
        size_fits(width, height),
        rows_fit(src@.len(), src_stride as int, width, height),
    ensures
        r.wf(),
        r.width == width,
        r.height == height,
        forall|x: int, y: int, c: int|
            r.has(x, y) && 0 <= c < 4 ==> #[trigger] r.chan(x, y, c) == (if c == 3 {
                255
            } else {
                src@[source_row(y, height, y_invert) * src_stride + x * 4 + c]
            }),
        holds_rows(src@, src_stride as int, y_invert, r),
{
    let stride: usize = (width * 4) as usize;
    let step: usize = src_stride;
    let mut pixels: Vec<u8> = Vec::new();
    let mut y: u32 = 0;
    while y < height
        invariant
            y <= height,
            stride == width * 4,
            step == src_stride,
            rows_fit(src@.len(), src_stride as int, width, height),
            pixels@.len() == y * stride,
            forall|r: int, k: int|
                0 <= r < y && 0 <= k < stride ==> #[trigger] pixels@[r * stride + k]
                    == src@[source_row(r, height, y_invert) * src_stride + k],
        decreases height - y,
    {
        let row: u32 = if y_invert {
            height - 1 - y
        } else {
            y
        };
        proof {
            assert(src.len() == src@.len());
            assert(0 <= row * step && row * step + stride <= src@.len()) by (nonlinear_arith)
                requires
                    0 <= row <= height - 1,
                    0 <= step,
                    (height - 1) * step + stride <= src@.len(),
            ;
        }
        let start: usize = row as usize * step;
        let ghost prior = pixels@;
        push_slice(&mut pixels, src, start, stride);
        proof {
            assert((y + 1) * stride == y * stride + stride) by (nonlinear_arith);
            assert forall|r: int, k: int|
                0 <= r < y + 1 && 0 <= k < stride implies #[trigger] pixels@[r * stride + k]
                == src@[source_row(r, height, y_invert) * src_stride + k] by {
                if r < y {
                    assert(0 <= r * stride && r * stride + k < y * stride) by (nonlinear_arith)
                        requires
                            0 <= r < y,
                            0 <= k < stride,
                    ;
                    assert(pixels@[r * stride + k] == prior[r * stride + k]);
                }
            }
        }
        y += 1;
    }
    let ghost copied = pixels@;
    force_opaque(pixels.as_mut_slice());
    let out = DibBuffer { width, height, stride: width * 4, pixels };
    proof {
        assert(height * stride == stride * height) by (nonlinear_arith);
        assert(out.pixels@ == opaque_bytes(copied));
        assert forall|x: int, yy: int, c: int| out.has(x, yy) && 0 <= c < 4 implies
            #[trigger] out.chan(x, yy, c) == (if c == 3 {
            255
        } else {
            src@[source_row(yy, height, y_invert) * src_stride + x * 4 + c]
        }) by {
            out.lemma_offset(x, yy);
            assert(copied[yy * stride + (x * 4 + c)] == src@[source_row(yy, height, y_invert)
                * src_stride + (x * 4 + c)]);
        }
    }
    out
}

} // verus!
