//! What frames promise on their way in and out of the program.
//!
//! The vocabulary here belongs to the statements alone: no operation is defined
//! by it.

use crate::capture::png::{be32, png_head, swapped};
use crate::capture::rows::{holds_rows, source_row};
use crate::capture::{
    bitmap_header, blitted, first_refused, is_high_surrogate, is_low_surrogate, le32, opaque_bytes,
    refuses, until_nul, utf16_text, wrap_u32, DibBuffer, MonitorInfo, ReportedMonitor,
};
use crate::tray::{char_units, tooltip_field, utf16_units};
use vstd::prelude::*;

verus! {

/// Making bytes opaque keeps every pixel's colour and sets its alpha to 255; a
/// partial pixel at the end keeps what it has.
pub proof fn lemma_opaque_keeps_colours(bytes: Seq<u8>, k: int)
    requires
        0 <= k,
    ensures
        opaque_bytes(bytes).len() == bytes.len(),
        4 * k + 3 < bytes.len() ==> {
            let o = opaque_bytes(bytes);
            &&& o[4 * k] == bytes[4 * k]
            &&& o[4 * k + 1] == bytes[4 * k + 1]
            &&& o[4 * k + 2] == bytes[4 * k + 2]
            &&& o[4 * k + 3] == 255
        },
{
}

/// A captured frame has its monitor's size, the colours that were blitted for
/// it, and is opaque throughout.
pub proof fn lemma_captured_frame(mon: MonitorInfo, bits: Seq<u8>, frame: DibBuffer, x: int, y: int)
    requires
        blitted(mon, bits, frame),
        0 < mon.rect.width <= 0x3fff_ffff,
        0 < mon.rect.height <= 0x7fff_ffff,
        bits.len() == mon.rect.width * 4 * mon.rect.height,
        0 <= x < mon.rect.width,
        0 <= y < mon.rect.height,
    ensures
        frame.wf(),
        frame.width == mon.rect.width,
        frame.height == mon.rect.height,
        frame.chan(x, y, 0) == bits[(y * mon.rect.width + x) * 4],
        frame.chan(x, y, 1) == bits[(y * mon.rect.width + x) * 4 + 1],
        frame.chan(x, y, 2) == bits[(y * mon.rect.width + x) * 4 + 2],
        frame.chan(x, y, 3) == 255,
{
    let w = mon.rect.width as int;
    assert(frame.stride == w * 4);
    frame.lemma_offset(x, y);
    assert(y * (w * 4) == (y * w) * 4) by (nonlinear_arith);
    let k = y * w + x;
    assert(frame.offset(x, y) == 4 * k);
    assert(0 <= k) by (nonlinear_arith)
        requires
            k == y * w + x,
            0 <= x,
            0 <= y,
            0 <= w,
    ;
    lemma_opaque_keeps_colours(bits, k);
}

/// The blits of a capture are refused at the first monitor whose bytes are not
/// four per pixel.
pub proof fn lemma_first_bad_blit(monitors: Seq<MonitorInfo>, blits: Seq<Vec<u8>>, i: int)
    requires
        0 <= i <= monitors.len(),
        monitors.len() == blits.len(),
        forall|k: int| 0 <= k < i ==> !refuses(#[trigger] monitors[k], blits[k]@.len()),
        i < monitors.len() ==> refuses(monitors[i], blits[i]@.len()),
    ensures
        first_refused(monitors, blits, 0) == (if i < monitors.len() {
            Some(i)
        } else {
            None
        }),
{
    lemma_first_bad_blit_from(monitors, blits, 0, i);
}

proof fn lemma_first_bad_blit_from(
    monitors: Seq<MonitorInfo>,
    blits: Seq<Vec<u8>>,
    from: int,
    i: int,
)
    requires
        0 <= from <= i <= monitors.len(),
        monitors.len() == blits.len(),
        forall|k: int| from <= k < i ==> !refuses(#[trigger] monitors[k], blits[k]@.len()),
        i < monitors.len() ==> refuses(monitors[i], blits[i]@.len()),
    ensures
        first_refused(monitors, blits, from) == (if i < monitors.len() {
            Some(i)
        } else {
            None
        }),
    decreases i - from,
{
    if from < i {
        assert(!refuses(monitors[from], blits[from]@.len()));
        lemma_first_bad_blit_from(monitors, blits, from + 1, i);
    }
}

/// A blit is refused exactly when its bytes are not four per pixel of a monitor
/// that has pixels.
pub proof fn lemma_refused_blits(mon: MonitorInfo, len: nat)
    requires
        mon.rect.width <= 0x3fff_ffff,
        mon.rect.height <= 0x7fff_ffff,
        mon.rect.width * 4 * mon.rect.height <= usize::MAX,
    ensures
        refuses(mon, len) <==> mon.rect.width > 0 && mon.rect.height > 0 && len != mon.rect.width * 4
            * mon.rect.height,
{
}

/// The pixels handed to the encoder are those of the frame in red, green, blue,
/// alpha order.
pub proof fn lemma_encoded_pixels(frame: DibBuffer, x: int, y: int)
    requires
        frame.wf(),
        frame.has(x, y),
    ensures
        ({
            let rgba = swapped(frame.pixels@);
            let at = (y * frame.width + x) * 4;
            &&& rgba.len() == frame.pixels@.len()
            &&& rgba[at] == frame.chan(x, y, 2)
            &&& rgba[at + 1] == frame.chan(x, y, 1)
            &&& rgba[at + 2] == frame.chan(x, y, 0)
            &&& rgba[at + 3] == frame.chan(x, y, 3)
        }),
{
    frame.lemma_offset(x, y);
    let w = frame.width as int;
    let h = frame.height as int;
    assert(y * (w * 4) == (y * w) * 4) by (nonlinear_arith);
    assert((w * 4) * h == (w * h) * 4) by (nonlinear_arith);
    assert(frame.offset(x, y) == (y * w + x) * 4);
}

/// The bytes of a number from the least significant up are its digits to the
/// base 256; from the most significant down they are the same digits.
pub proof fn lemma_number_bytes(v: u32)
    ensures
        le32(v).len() == 4,
        le32(v)[0] + 0x100 * le32(v)[1] + 0x1_0000 * le32(v)[2] + 0x100_0000 * le32(v)[3] == v,
        be32(v).len() == 4,
        be32(v)[3] + 0x100 * be32(v)[2] + 0x1_0000 * be32(v)[1] + 0x100_0000 * be32(v)[0] == v,
{
}

/// Where the fields of a bitmap header are: its size, the width, the height
/// (positive: rows from the bottom up), one plane of 32 bits, no compression,
/// and the size of the pixels.
pub proof fn lemma_bitmap_header_fields(width: u32, height: u32, image_bytes: u32)
    ensures
        ({
            let h = bitmap_header(width, height, image_bytes as int);
            &&& h.len() == 40
            &&& h.subrange(0, 4) == le32(40)
            &&& h.subrange(4, 8) == le32(width)
            &&& h.subrange(8, 12) == le32(height)
            &&& h[12] == 1 && h[13] == 0
            &&& h[14] == 32 && h[15] == 0
            &&& h.subrange(16, 20) == le32(0)
            &&& h.subrange(20, 24) == le32(image_bytes)
            &&& forall|i: int| 24 <= i < 40 ==> #[trigger] h[i] == 0
        }),
{
    let h = bitmap_header(width, height, image_bytes as int);
    assert(wrap_u32(image_bytes as int) == image_bytes);
    assert(h.subrange(0, 4) =~= le32(40));
    assert(h.subrange(4, 8) =~= le32(width));
    assert(h.subrange(8, 12) =~= le32(height));
    assert(h.subrange(16, 20) =~= le32(0));
    assert(h.subrange(20, 24) =~= le32(image_bytes));
}

/// A PNG stream begins with the signature; its header chunk gives the width and
/// the height, eight bits per channel and four channels.
#[verifier::rlimit(40)]
pub proof fn lemma_png_head_fields(width: u32, height: u32)
    ensures
        ({
            let h = png_head(width, height);
            &&& h.len() == 29
            &&& h[0] == 0x89
            &&& h[1] == 'P' as u8 && h[2] == 'N' as u8 && h[3] == 'G' as u8
            &&& h.subrange(16, 20) == be32(width)
            &&& h.subrange(20, 24) == be32(height)
            &&& h[24] == 8
            &&& h[25] == 6
        }),
{
    let h = png_head(width, height);
    assert(h.subrange(16, 20) =~= be32(width));
    assert(h.subrange(20, 24) =~= be32(height));
}

/// Rows are read in order, or from the last to the first where the source is
/// upside down.
pub proof fn lemma_source_rows(y: int, height: u32)
    ensures
        source_row(y, height, false) == y,
        source_row(y, height, true) + y == height - 1,
{
}

/// A monitor whose right and bottom edges lie beyond its left and top ones has
/// the distances between them for a size.
pub proof fn lemma_extent_between_edges(from: i32, to: i32)
    requires
        from <= to,
    ensures
        wrap_u32(to - from) == to - from,
{
}

/// Only what comes before the first zero counts.
pub proof fn lemma_until_nul_stops(before: Seq<u16>, after: Seq<u16>)
    requires
        forall|i: int| 0 <= i < before.len() ==> #[trigger] before[i] != 0,
    ensures
        until_nul(before + seq![0u16] + after) == before,
        until_nul(before) == before,
    decreases before.len(),
{
    let all = before + seq![0u16] + after;
    if before.len() > 0 {
        lemma_until_nul_stops(before.skip(1), after);
        assert(all.skip(1) =~= before.skip(1) + seq![0u16] + after);
        assert(seq![before[0]] + before.skip(1) =~= before);
    } else {
        assert(all[0] == 0);
        assert(until_nul(all) =~= before);
        assert(until_nul(before) =~= before);
    }
}

/// A unit that begins no pair with the next is read alone.
proof fn lemma_units_in_front(c: char, rest: Seq<u16>)
    ensures
        utf16_text(char_units(c) + rest) == seq![c] + utf16_text(rest),
{
    let v = c as u32;
    let units = char_units(c) + rest;
    if v < 0x1_0000 {
        assert(units[0] == v);
        assert(!is_high_surrogate(units[0]) && !is_low_surrogate(units[0]));
        assert(units.skip(1) =~= rest);
        assert(units[0] as char == c);
    } else {
        assert(units[0] == 0xD800 + (v - 0x1_0000) / 0x400);
        assert(units[1] == 0xDC00 + (v - 0x1_0000) % 0x400);
        assert(units.skip(2) =~= rest);
        assert(0x10000 + (units[0] - 0xD800) * 0x400 + (units[1] - 0xDC00) == v);
    }
}

/// Reading the UTF-16 units a text is written as gives the text back.
pub proof fn lemma_utf16_round_trip(text: Seq<char>)
    ensures
        utf16_text(utf16_units(text)) == text,
{
    lemma_utf16_round_trip_onto(text, Seq::empty());
    assert(utf16_units(text) + Seq::<u16>::empty() =~= utf16_units(text));
    assert(text + utf16_text(Seq::<u16>::empty()) =~= text);
}

proof fn lemma_utf16_round_trip_onto(text: Seq<char>, rest: Seq<u16>)
    ensures
        utf16_text(utf16_units(text) + rest) == text + utf16_text(rest),
    decreases text.len(),
{
    if text.len() > 0 {
        let head = text.drop_last();
        let tail = char_units(text.last()) + rest;
        lemma_utf16_round_trip_onto(head, tail);
        lemma_units_in_front(text.last(), rest);
        assert(utf16_units(text) + rest =~= utf16_units(head) + tail);
        assert(head + (seq![text.last()] + utf16_text(rest)) =~= text + utf16_text(rest));
    } else {
        assert(utf16_units(text) + rest =~= rest);
        assert(text + utf16_text(rest) =~= utf16_text(rest));
    }
}

/// A character of the basic plane is one unit, its own code; any other is a pair
/// of surrogates.
pub proof fn lemma_units_of_a_character(c: char)
    ensures
        (c as u32) < 0x1_0000 ==> char_units(c) == seq![c as u16],
        (c as u32) >= 0x1_0000 ==> char_units(c).len() == 2 && 0xD800 <= char_units(c)[0] <= 0xDBFF
            && 0xDC00 <= char_units(c)[1] <= 0xDFFF,
{
}

/// A tooltip field holds the beginning of its text and is terminated; a text of
/// fewer than 128 units is in it whole.
pub proof fn lemma_tooltip_field(text: Seq<char>)
    ensures
        tooltip_field(text).len() == 128,
        tooltip_field(text)[127] == 0,
        utf16_units(text).len() <= 127 ==> tooltip_field(text).take(
            utf16_units(text).len() as int,
        ) == utf16_units(text),
        utf16_units(text).len() > 127 ==> tooltip_field(text).take(127) == utf16_units(text).take(
            127,
        ),
        forall|i: int|
            utf16_units(text).len() <= i < 128 ==> #[trigger] tooltip_field(text)[i] == 0,
{
    let n = utf16_units(text).len() as int;
    if n <= 127 {
        assert(tooltip_field(text).take(n) =~= utf16_units(text));
    } else {
        assert(tooltip_field(text).take(127) =~= utf16_units(text).take(127));
    }
}

/// A monitor is described by what the enumeration reports of it: its edges,
/// its DPI (96 where it is unknown), bit 0 of its flags as the primary flag,
/// and the characters of its device name up to the terminator.
pub proof fn lemma_reported_monitor(m: ReportedMonitor, info: MonitorInfo, name: Seq<char>)
    requires
        m.described_by(info),
        m.left <= m.right,
        m.top <= m.bottom,
    ensures
        info.rect.x == m.left,
        info.rect.y == m.top,
        info.rect.x + info.rect.width == m.right,
        info.rect.y + info.rect.height == m.bottom,
        m.dpi matches Some(d) ==> info.dpi_x == d.0 && info.dpi_y == d.1,
        m.dpi is None ==> info.dpi_x == 96 && info.dpi_y == 96,
        info.is_primary <==> m.flags & 1 == 1,
        (forall|i: int| 0 <= i < utf16_units(name).len() ==> #[trigger] utf16_units(name)[i] != 0)
            && m.device@ == utf16_units(name).push(0) ==> info.device_name@ == name,
{
    let flags = m.flags;
    assert(flags % 2 == 1 <==> flags & 1 == 1) by (bit_vector);
    let units = utf16_units(name);
    if (forall|i: int| 0 <= i < units.len() ==> #[trigger] units[i] != 0) && m.device@
        == units.push(0) {
        lemma_until_nul_stops(units, Seq::empty());
        assert(units.push(0) =~= units + seq![0u16] + Seq::<u16>::empty());
        lemma_utf16_round_trip(name);
    }
}

/// A frame read from rows has the source's colours in place, the rows in
/// order or from the last to the first, and is opaque.
pub proof fn lemma_rows_are_read(
    src: Seq<u8>,
    stride: int,
    frame: DibBuffer,
    flipped: DibBuffer,
    x: int,
    y: int,
    c: int,
)
    requires
        holds_rows(src, stride, false, frame),
        holds_rows(src, stride, true, flipped),
        flipped.same_shape(frame),
        frame.has(x, y),
        0 <= c < 3,
    ensures
        frame.chan(x, y, c) == src[y * stride + 4 * x + c],
        frame.chan(x, y, 3) == 255,
        flipped.chan(x, frame.height - 1 - y, c) == frame.chan(x, y, c),
        flipped.chan(x, y, 3) == 255,
{
    let up = frame.height - 1 - y;
    assert(flipped.has(x, up) && flipped.has(x, y));
    assert(flipped.chan(x, up, c) == src[source_row(up, frame.height, true) * stride + x * 4 + c]);
    assert(flipped.chan(x, y, 3) == 255);
}

} // verus!
