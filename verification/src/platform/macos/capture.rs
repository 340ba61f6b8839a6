//! Screen capture on macOS: pairing screens with capturable displays, reading
//! an image's bytes, and telling a permission denial from other failures. The
//! framework calls are the caller's part.

use crate::capture::rows::{rows_fit, rows_to_dib};
use crate::capture::{force_opaque, opaque_bytes, DibBuffer, MonitorInfo};
use crate::geometry::Rect;
use crate::overlay::composite::size_fits;
use crate::text::{
    chars_of, contains_text, decimal, lowered, occurs, parse_number, parsed_number, push_decimal,
    push_signed, push_text, same_text, signed_decimal, text_of, to_lower,
};
use vstd::prelude::*;

verus! {

/// Pixel format asked of the framework: the four-character code `BGRA`.
pub const K_CV_PIXEL_FORMAT_32_BGRA: u32 = 0x4247_5241;

/// Bitmap description of a [`DibBuffer`]: alpha first and premultiplied (2),
/// in little-endian 32-bit words (2 in the byte-order field).
pub const BITMAP_INFO_BGRA: u32 = 0x2002;

/// Error domain in which a declined capture is reported.
pub const SC_STREAM_ERROR_DOMAIN: &'static str = "com.apple.ScreenCaptureKit.SCStreamErrorDomain";

/// Error code of a declined capture.
pub const SC_STREAM_ERROR_USER_DECLINED: i64 = -3801;

/// Separates the fields of an encoded error.
pub const ERROR_FIELD_SEP: char = '\u{1f}';

/// What is said when there is no error object.
pub const UNKNOWN_ERROR: &'static str = "unknown ScreenCaptureKit error";

/// One attached screen, already in virtual-screen pixels.
#[derive(Clone, Copy, PartialEq, Eq, Structural, Debug)]
pub struct ScreenDesc {
    /// Display id; 0 when unknown.
    pub display_id: u32,
    pub rect: Rect,
    pub dpi: u32,
    pub is_primary: bool,
}

/// Name of the screen at `index`: its display id, else one made from the
/// index.
pub open spec fn screen_name(screen: ScreenDesc, index: int) -> Seq<char> {
    if screen.display_id != 0 {
        decimal(screen.display_id as nat)
    } else {
        "display-"@ + decimal(index as nat)
    }
}

/// The monitor descriptions of the screens, in order.
pub fn monitor_infos(screens: &[ScreenDesc]) -> (r: Vec<MonitorInfo>)
    ensures
        r@.len() == screens@.len(),
        forall|i: int|
            0 <= i < r@.len() ==> {
                &&& (#[trigger] r@[i]).rect == screens@[i].rect
                &&& r@[i].dpi_x == screens@[i].dpi
                &&& r@[i].dpi_y == screens@[i].dpi
                &&& r@[i].is_primary == screens@[i].is_primary
                &&& r@[i].device_name@ == screen_name(screens@[i], i)
            },
{
    let mut out: Vec<MonitorInfo> = Vec::new();
    let mut i: usize = 0;
    while i < screens.len()
        invariant
            i <= screens@.len(),
            out@.len() == i,
            forall|k: int|
                0 <= k < i ==> {
                    &&& (#[trigger] out@[k]).rect == screens@[k].rect
                    &&& out@[k].dpi_x == screens@[k].dpi
                    &&& out@[k].dpi_y == screens@[k].dpi
                    &&& out@[k].is_primary == screens@[k].is_primary
                    &&& out@[k].device_name@ == screen_name(screens@[k], k)
                },
        decreases screens@.len() - i,
    {
        let mut name = String::new();
        if screens[i].display_id != 0 {
            push_decimal(&mut name, screens[i].display_id as u64);
        } else {
            push_text(&mut name, "display-");
            push_decimal(&mut name, i as u64);
        }
        proof {
            assert(name@ =~= screen_name(screens@[i as int], i as int));
        }
        out.push(
            MonitorInfo {
                rect: screens[i].rect,
                dpi_x: screens[i].dpi,
                dpi_y: screens[i].dpi,
                is_primary: screens[i].is_primary,
                device_name: name,
            },
        );
        i += 1;
    }
    out
}

/// Why a capture cannot begin.
#[derive(Clone, Copy, PartialEq, Eq, Structural, Debug)]
pub enum CaptureRefusal {
    /// There is no screen.
    NoScreens,
    /// Screen recording is not permitted.
    Permission,
    /// The screen at this index has no capturable display.
    Unavailable(usize),
}

/// Index of the first of `displays`, from `i` on, with id `id`.
pub open spec fn display_index(displays: Seq<u32>, id: u32, i: int) -> Option<usize>
    decreases displays.len() - i,
{
    if i >= displays.len() {
        None
    } else if displays[i] == id {
        Some(i as usize)
    } else {
        display_index(displays, id, i + 1)
    }
}

fn find_display(displays: &[u32], id: u32) -> (r: Option<usize>)
    ensures
        r == display_index(displays@, id, 0),
{
    let mut i: usize = 0;
    while i < displays.len()
        invariant
            i <= displays@.len(),
            display_index(displays@, id, 0) == display_index(displays@, id, i as int),
        decreases displays@.len() - i,
    {
        if displays[i] == id {
            return Some(i);
        }
        i += 1;
    }
    None
}

/// The first screen, from `i` on, without a display.
pub open spec fn first_unavailable(
    screens: Seq<ScreenDesc>,
    displays: Seq<u32>,
    i: int,
) -> Option<usize>
    decreases screens.len() - i,
{
    if i >= screens.len() {
        None
    } else if display_index(displays, screens[i].display_id, 0) is None {
        Some(i as usize)
    } else {
        first_unavailable(screens, displays, i + 1)
    }
}

/// Pair every screen with the display to capture for it: the index into
/// `displays` (their ids). No screen at all, an empty display list without the
/// permission, and a screen without a display are refused.
pub fn capture_all(screens: &[ScreenDesc], displays: &[u32], preflight_ok: bool) -> (r: Result<
    Vec<usize>,
    CaptureRefusal,
>)
    ensures
        match r {
            Ok(pairs) => {
                &&& screens@.len() > 0
                &&& displays@.len() > 0
                &&& first_unavailable(screens@, displays@, 0) is None
                &&& pairs@.len() == screens@.len()
                &&& forall|i: int|
                    0 <= i < pairs@.len() ==> display_index(displays@, screens@[i].display_id, 0)
                        == Some(#[trigger] pairs@[i])
            },
            Err(e) => e == (if screens@.len() == 0 {
                CaptureRefusal::NoScreens
            } else if displays@.len() == 0 && !preflight_ok {
                CaptureRefusal::Permission
            } else {
                CaptureRefusal::Unavailable(first_unavailable(screens@, displays@, 0)->0)
            }) && (screens@.len() > 0 && !(displays@.len() == 0 && !preflight_ok)
                ==> first_unavailable(screens@, displays@, 0) is Some),
        },
{
    if screens.len() == 0 {
        return Err(CaptureRefusal::NoScreens);
    }
    if displays.len() == 0 && is_permission_denial(preflight_ok, true, None, None, None) {
        return Err(CaptureRefusal::Permission);
    }
    let mut pairs: Vec<usize> = Vec::new();
    let mut i: usize = 0;
    while i < screens.len()
        invariant
            i <= screens@.len(),
            pairs@.len() == i,
            first_unavailable(screens@, displays@, 0) == first_unavailable(
                screens@,
                displays@,
                i as int,
            ),
            screens@.len() > 0,
            displays@.len() == 0 ==> preflight_ok,
            forall|k: int|
                0 <= k < i ==> display_index(displays@, screens@[k].display_id, 0) == Some(
                    #[trigger] pairs@[k],
                ),
        decreases screens@.len() - i,
    {
        match find_display(displays, screens[i].display_id) {
            Some(d) => pairs.push(d),
            None => {
                return Err(CaptureRefusal::Unavailable(i));
            },
        }
        i += 1;
    }
    proof {
        assert(display_index(displays@, screens@[0].display_id, 0) == Some(pairs@[0]));
    }
    Ok(pairs)
}

/// What becomes of a captured image.
pub enum ImageRead {
    /// Its own bytes were usable.
    Copied(DibBuffer),
    /// It has to be drawn into a buffer of this layout (see [`redrawn`]).
    Redraw,
}

/// Why an image cannot be used.
#[derive(Clone, Copy, PartialEq, Eq, Structural, Debug)]
pub enum ImageError {
    /// It has no pixels.
    Empty,
    /// It is too large for a frame.
    TooLarge,
}

/// Whether an image's own bytes can be read as BGRA rows.
pub open spec fn readable(
    width: u32,
    height: u32,
    bits_per_component: usize,
    bits_per_pixel: usize,
    bytes_per_row: usize,
    bytes: Option<Seq<u8>>,
) -> bool {
    &&& bits_per_component == 8
    &&& bits_per_pixel == 32
    &&& bytes_per_row >= width * 4
    &&& bytes matches Some(b) && rows_fit(b.len(), bytes_per_row as int, width, height)
}

/// Copy a captured image into a frame with every alpha byte 255: from its own
/// bytes when they are 32-bit BGRA rows, else it has to be drawn anew.
pub fn cgimage_to_dib(
    width: u32,
    height: u32,
    bits_per_component: usize,
    bits_per_pixel: usize,
    bytes_per_row: usize,
    bytes: Option<&[u8]>,
) -> (r: Result<ImageRead, ImageError>)
    ensures
        ({
            let data = match bytes {
                Some(b) => Some(b@),
                None => None,
            };
            match r {
                Err(ImageError::Empty) => width == 0 || height == 0,
                Err(ImageError::TooLarge) => width != 0 && height != 0 && !size_fits(width, height),
                Ok(ImageRead::Redraw) => {
                    &&& width != 0
                    &&& height != 0
                    &&& size_fits(width, height)
                    &&& !readable(
                        width,
                        height,
                        bits_per_component,
                        bits_per_pixel,
                        bytes_per_row,
                        data,
                    )
                },
                Ok(ImageRead::Copied(dib)) => {
                    &&& width != 0
                    &&& height != 0
                    &&& readable(
                        width,
                        height,
                        bits_per_component,
                        bits_per_pixel,
                        bytes_per_row,
                        data,
                    )
                    &&& dib.wf()
                    &&& dib.width == width
                    &&& dib.height == height
                    &&& forall|x: int, y: int, c: int|
                        dib.has(x, y) && 0 <= c < 4 ==> #[trigger] dib.chan(x, y, c) == (if c
                            == 3 {
                            255
                        } else {
                            (data->0)[y * bytes_per_row + x * 4 + c]
                        })
                },
            }
        }),
{
    if width == 0 || height == 0 {
        return Err(ImageError::Empty);
    }
    if !frame_fits(width, height) {
        return Err(ImageError::TooLarge);
    }
    let raw_ok: bool = bits_per_component == 8 && bits_per_pixel == 32 && bytes_per_row as u64
        >= width as u64 * 4;
    match bytes {
        Some(b) => {
            if raw_ok && rows_are_there(b.len(), bytes_per_row, width, height) {
                return Ok(ImageRead::Copied(rows_to_dib(b, bytes_per_row, width, height, false)));
            }
        },
        None => {},
    }
    Ok(ImageRead::Redraw)
}

fn frame_fits(width: u32, height: u32) -> (r: bool)
    ensures
        r == size_fits(width, height),
{
    if width > 0x3fff_ffff {
        return false;
    }
    proof {
        assert(0 <= width * 4 * height <= 0xffff_ffff * 0xffff_ffff) by (nonlinear_arith)
            requires
                0 <= width * 4 <= 0xffff_ffff,
                0 <= height <= 0xffff_ffff,
        ;
    }
    width as u128 * 4 * height as u128 <= usize::MAX as u128
}

fn rows_are_there(len: usize, stride: usize, width: u32, height: u32) -> (r: bool)
    requires
        0 < height,
    ensures
        r == rows_fit(len as nat, stride as int, width, height),
{
    proof {
        assert(0 <= (height - 1) * stride <= 0xffff_ffff * 0xffff_ffff_ffff_ffff)
            by (nonlinear_arith)
            requires
                0 < height <= 0xffff_ffff,
                0 <= stride <= 0xffff_ffff_ffff_ffff,
        ;
    }
    (height - 1) as u128 * stride as u128 + width as u128 * 4 <= len as u128
}

/// A frame that was drawn into: its pixels with every alpha byte 255.
pub fn redrawn(width: u32, height: u32, pixels: Vec<u8>) -> (r: DibBuffer)
    requires
        size_fits(width, height),
        pixels@.len() == width * 4 * height,
    ensures
        r.wf(),
        r.width == width,
        r.height == height,
        r.pixels@ == opaque_bytes(pixels@),
{
    let mut pixels = pixels;
    force_opaque(pixels.as_mut_slice());
    DibBuffer { width, height, stride: width * 4, pixels }
}

/// The guidance for a missing permission.
pub const PERMISSION_ERROR: &'static str =
    "SpotFreeze does not have Screen Recording permission.\nEnable it in System Settings → Privacy & Security → Screen Recording, then restart SpotFreeze.";

/// An error's description: its own text, or one made from its code.
pub open spec fn described(code: i64, description: Seq<char>) -> Seq<char> {
    if description.len() == 0 {
        "ScreenCaptureKit error "@ + signed_decimal(code as int)
    } else {
        description
    }
}

/// An error's description: its own text, or one made from its code.
pub fn describe_error(error: Option<(i64, &str)>) -> (r: String)
    ensures
        r@ == (match error {
            Some(e) => described(e.0, e.1@),
            None => UNKNOWN_ERROR@,
        }),
{
    match error {
        None => UNKNOWN_ERROR.to_owned(),
        Some((code, description)) => {
            if description.is_empty() {
                let mut out: String = "ScreenCaptureKit error ".to_owned();
                push_signed(&mut out, code);
                out
            } else {
                description.to_owned()
            }
        },
    }
}

/// An error as one line of fields: domain, code and description.
pub open spec fn encoded(domain: Seq<char>, code: i64, description: Seq<char>) -> Seq<char> {
    domain.push(ERROR_FIELD_SEP) + signed_decimal(code as int).push(ERROR_FIELD_SEP) + described(
        code,
        description,
    )
}

/// Encode an error (domain, code, description) for the way between threads;
/// without an error object the first two fields are empty.
pub fn encode_error(error: Option<(&str, i64, &str)>) -> (r: String)
    ensures
        r@ == (match error {
            Some(e) => encoded(e.0@, e.1, e.2@),
            None => seq![ERROR_FIELD_SEP, ERROR_FIELD_SEP] + UNKNOWN_ERROR@,
        }),
{
    match error {
        None => {
            let mut out = String::new();
            out.push(ERROR_FIELD_SEP);
            out.push(ERROR_FIELD_SEP);
            proof {
                assert(out@ =~= seq![ERROR_FIELD_SEP, ERROR_FIELD_SEP]);
            }
            push_text(&mut out, UNKNOWN_ERROR);
            out
        },
        Some((domain, code, description)) => {
            let mut out: String = domain.to_owned();
            out.push(ERROR_FIELD_SEP);
            push_signed(&mut out, code);
            out.push(ERROR_FIELD_SEP);
            push_text(&mut out, describe_error(Some((code, description))).as_str());
            proof {
                assert(out@ =~= encoded(domain@, code, description@));
            }
            out
        },
    }
}

/// Position of the first separator, the length when there is none.
pub open spec fn first_sep(text: Seq<char>) -> int
    decreases text.len(),
{
    if text.len() == 0 || text[0] == ERROR_FIELD_SEP {
        0
    } else {
        1 + first_sep(text.skip(1))
    }
}

pub(crate) proof fn lemma_first_sep(text: Seq<char>, n: int)
    requires
        0 <= n <= text.len(),
        forall|i: int| 0 <= i < n ==> text[i] != ERROR_FIELD_SEP,
        n < text.len() ==> text[n] == ERROR_FIELD_SEP,
    ensures
        first_sep(text) == n,
    decreases n,
{
    if n > 0 {
        lemma_first_sep(text.skip(1), n - 1);
    }
}

fn find_sep(text: &[char]) -> (n: usize)
    ensures
        n == first_sep(text@),
        n <= text@.len(),
{
    let mut n: usize = 0;
    while n < text.len() && text[n] != ERROR_FIELD_SEP
        invariant
            n <= text@.len(),
            forall|i: int| 0 <= i < n ==> text@[i] != ERROR_FIELD_SEP,
        decreases text@.len() - n,
    {
        n += 1;
    }
    proof {
        lemma_first_sep(text@, n as int);
    }
    n
}

/// The fields of an encoded error. A text without two separators is all
/// description; an empty domain and a code that is no number are absent.
pub open spec fn decoded(text: Seq<char>) -> (Option<Seq<char>>, Option<i64>, Seq<char>) {
    let n = first_sep(text);
    let rest = text.skip(n + 1);
    let m = first_sep(rest);
    if n >= text.len() || m >= rest.len() {
        (None, None, text)
    } else {
        (
            if n == 0 {
                None
            } else {
                Some(text.take(n))
            },
            parsed_number(rest.take(m)),
            rest.skip(m + 1),
        )
    }
}

/// Split an encoded error back into domain, code and description.
pub fn decode_error(encoded: &str) -> (r: (Option<String>, Option<i64>, String))
    ensures
        match (r.0, decoded(encoded@).0) {
            (Some(a), Some(b)) => a@ == b,
            (None, None) => true,
            _ => false,
        },
        r.1 == decoded(encoded@).1,
        r.2@ == decoded(encoded@).2,
{
    let chars = chars_of(encoded);
    let n: usize = find_sep(chars.as_slice());
    if n >= chars.len() {
        return (None, None, encoded.to_owned());
    }
    let rest: &[char] = vstd::slice::slice_subrange(chars.as_slice(), n + 1, chars.len());
    proof {
        assert(rest@ =~= encoded@.skip(n + 1));
    }
    let m: usize = find_sep(rest);
    if m >= rest.len() {
        return (None, None, encoded.to_owned());
    }
    let domain: Option<String> = if n == 0 {
        None
    } else {
        let d: &[char] = vstd::slice::slice_subrange(chars.as_slice(), 0, n);
        proof {
            assert(d@ =~= encoded@.take(n as int));
        }
        Some(text_of(d))
    };
    let number: &[char] = vstd::slice::slice_subrange(rest, 0, m);
    let tail: &[char] = vstd::slice::slice_subrange(rest, m + 1, rest.len());
    proof {
        assert(number@ =~= rest@.take(m as int));
        assert(tail@ =~= rest@.skip(m + 1));
    }
    (domain, parse_number(number), text_of(tail))
}

/// Decoding undoes encoding, for every domain without a separator.
pub proof fn lemma_error_round_trip(domain: Seq<char>, code: i64, description: Seq<char>)
    requires
        forall|i: int| 0 <= i < domain.len() ==> domain[i] != ERROR_FIELD_SEP,
    ensures
        decoded(encoded(domain, code, description)) == (
            if domain.len() == 0 {
                None
            } else {
                Some(domain)
            },
            Some(code),
            described(code, description),
        ),
{
    let text = encoded(domain, code, description);
    let number = signed_decimal(code as int);
    crate::text::lemma_number_round_trip(code);
    lemma_first_sep(text, domain.len() as int);
    let rest = text.skip(domain.len() as int + 1);
    assert(rest =~= number.push(ERROR_FIELD_SEP) + described(code, description));
    assert forall|i: int| 0 <= i < number.len() implies rest[i] != ERROR_FIELD_SEP by {
        assert(rest[i] == number[i]);
    }
    lemma_first_sep(rest, number.len() as int);
    assert(rest.take(number.len() as int) =~= number);
    assert(rest.skip(number.len() as int + 1) =~= described(code, description));
    assert(text.take(domain.len() as int) =~= domain);
}

/// Whether a text speaks of a denied permission.
pub open spec fn mentions_denial(text: Seq<char>) -> bool {
    let t = lowered(text);
    occurs(t, "tcc"@) || occurs(t, "declined"@) || occurs(t, "screen recording"@)
}

fn speaks_of_denial(text: &str) -> (r: bool)
    ensures
        r == mentions_denial(text@),
{
    let t = to_lower(text);
    contains_text(t.as_str(), "tcc") || contains_text(t.as_str(), "declined") || contains_text(
        t.as_str(),
        "screen recording",
    )
}

/// Whether a failure means that screen recording is not permitted.
pub open spec fn denied(
    preflight_ok: bool,
    displays_empty: bool,
    domain: Option<Seq<char>>,
    code: Option<i64>,
    description: Option<Seq<char>>,
) -> bool {
    ||| domain == Some(SC_STREAM_ERROR_DOMAIN@) && code == Some(SC_STREAM_ERROR_USER_DECLINED)
    ||| domain matches Some(d) && mentions_denial(d)
    ||| description matches Some(d) && mentions_denial(d)
    ||| displays_empty && !preflight_ok
}

/// The characters of an optional text.
pub open spec fn opt_text(text: Option<&str>) -> Option<Seq<char>> {
    match text {
        Some(t) => Some(t@),
        None => None,
    }
}

/// Decide whether a failure means that screen recording is not permitted: the
/// dedicated error, wording to that effect in domain or description, or no
/// display at all while the advisory check says no.
pub fn is_permission_denial(
    preflight_ok: bool,
    displays_empty: bool,
    error_domain: Option<&str>,
    error_code: Option<i64>,
    error_description: Option<&str>,
) -> (r: bool)
    ensures
        r == denied(
            preflight_ok,
            displays_empty,
            opt_text(error_domain),
            error_code,
            opt_text(error_description),
        ),
{
    let declined: bool = match error_code {
        Some(c) => c == SC_STREAM_ERROR_USER_DECLINED,
        None => false,
    };
    match error_domain {
        Some(d) => {
            if declined && same_text(d, SC_STREAM_ERROR_DOMAIN) {
                return true;
            }
            if speaks_of_denial(d) {
                return true;
            }
        },
        None => {},
    }
    match error_description {
        Some(d) => {
            if speaks_of_denial(d) {
                return true;
            }
        },
        None => {},
    }
    displays_empty && !preflight_ok
}

/// The message for a failed listing of displays: the guidance when it is a
/// permission denial, the error's own description otherwise.
pub fn listing_error(preflight_ok: bool, encoded: &str) -> (r: String)
    ensures
        ({
            let d = decoded(encoded@);
            r@ == if denied(preflight_ok, false, d.0, d.1, Some(d.2)) {
                PERMISSION_ERROR@
            } else {
                "listing shareable displays failed: "@ + d.2
            }
        }),
{
    let (domain, code, description): (Option<String>, Option<i64>, String) = decode_error(encoded);
    let denial: bool = match &domain {
        Some(d) => is_permission_denial(
            preflight_ok,
            false,
            Some(d.as_str()),
            code,
            Some(description.as_str()),
        ),
        None => is_permission_denial(preflight_ok, false, None, code, Some(description.as_str())),
    };
    if denial {
        PERMISSION_ERROR.to_owned()
    } else {
        let mut out: String = "listing shareable displays failed: ".to_owned();
        push_text(&mut out, description.as_str());
        out
    }
}

/// The advisory check alone never refuses a capture that lists displays
/// without an error.
pub proof fn lemma_preflight_is_advisory(preflight_ok: bool)
    ensures
        !denied(preflight_ok, false, None, None, None),
{
}

} // verus!
