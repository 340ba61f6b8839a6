//! What the settings text promises.
//!
//! The vocabulary here belongs to the statements alone: no operation is defined
//! by it.

use crate::hotkeys::gesture::{parsed, parsed_modifiers, HotkeyGesture, Modifiers, ParseGestureError};
use crate::settings::model::{AppSettings, Rgb};
use crate::settings::record::{first_fault, recorded, settings_of, RecordError, SettingsRecord};
use crate::settings::store::{annotated, blank, key_comment, without_bom};
use crate::text::{is_space, joined, joined_windows};
use vstd::prelude::*;

verus! {

/// `c` is the hexadecimal digit of `v`, in either case.
pub open spec fn digit_of(c: char, v: int) -> bool {
    ||| 0 <= v <= 9 && c as int == '0' as int + v
    ||| 10 <= v <= 15 && (c as int == 'A' as int + v - 10 || c as int == 'a' as int + v - 10)
}

/// Two digits are the byte `v`, the high one first.
pub open spec fn digits_of(hi: char, lo: char, v: u8) -> bool {
    digit_of(hi, v as int / 16) && digit_of(lo, v as int % 16)
}

/// In a colour's text the first two digits are red, the middle two green and
/// the last two blue, after a number sign.
pub open spec fn spells(text: Seq<char>, color: Rgb) -> bool {
    &&& text.len() == 7
    &&& text[0] == '#'
    &&& digits_of(text[1], text[2], color.r)
    &&& digits_of(text[3], text[4], color.g)
    &&& digits_of(text[5], text[6], color.b)
}

/// A colour is read from a text exactly when the text spells it, digits in
/// either case.
#[verifier::rlimit(60)]
pub proof fn lemma_color_is_what_is_spelled(text: Seq<char>, color: Rgb)
    ensures
        Rgb::from_hex(text) == Some(color) <==> spells(text, color),
{
}

/// A colour is written as the text that spells it, in capitals.
pub proof fn lemma_color_is_written_as_spelled(color: Rgb)
    ensures
        spells(color.hex(), color),
        forall|i: int| 0 <= i < color.hex().len() ==> !('a' <= #[trigger] color.hex()[i] <= 'f'),
{
}

/// Each setting is read from its own field.
#[verifier::rlimit(60)]
pub proof fn lemma_each_field_is_its_setting(r: SettingsRecord)
    requires
        first_fault(r) is None,
    ensures
        ({
            let s = settings_of(r);
            let h = s.hotkeys;
            &&& parsed(r.freeze_toggle@) == Ok::<HotkeyGesture, ParseGestureError>(h.freeze_toggle)
            &&& parsed(r.mode_spotlight@) == Ok::<HotkeyGesture, ParseGestureError>(
                h.mode_spotlight,
            )
            &&& parsed(r.mode_zoom@) == Ok::<HotkeyGesture, ParseGestureError>(h.mode_zoom)
            &&& parsed(r.mode_snip@) == Ok::<HotkeyGesture, ParseGestureError>(h.mode_snip)
            &&& parsed(r.zoom_hold@) == Ok::<HotkeyGesture, ParseGestureError>(h.zoom_hold)
            &&& parsed(r.snip_copy@) == Ok::<HotkeyGesture, ParseGestureError>(h.snip_copy)
            &&& parsed(r.cancel@) == Ok::<HotkeyGesture, ParseGestureError>(h.cancel)
            &&& parsed(r.reset_zoom@) == Ok::<HotkeyGesture, ParseGestureError>(h.reset_zoom)
            &&& parsed_modifiers(r.zoom_modifier@) == Ok::<Modifiers, ParseGestureError>(
                h.zoom_modifier,
            )
            &&& parsed_modifiers(r.spotlight_radius_modifier@) == Ok::<
                Modifiers,
                ParseGestureError,
            >(h.spotlight_radius_modifier)
            &&& s.spotlight.default_radius == r.default_radius
            &&& s.zoom.step_factor.bits == r.step_factor
            &&& s.zoom.min.bits == r.min
            &&& s.zoom.max.bits == r.max
            &&& s.overlay.dim_opacity == r.dim_opacity
            &&& spells(r.color@, s.overlay.color)
            &&& s.auto_start == r.auto_start
        }),
{
    lemma_color_is_what_is_spelled(r.color@, settings_of(r).overlay.color);
}

/// Each setting is written into its own field.
pub proof fn lemma_each_setting_is_its_field(s: AppSettings, r: SettingsRecord)
    requires
        recorded(s, r),
    ensures
        r.freeze_toggle@ == s.hotkeys.freeze_toggle.shown(),
        r.mode_spotlight@ == s.hotkeys.mode_spotlight.shown(),
        r.mode_zoom@ == s.hotkeys.mode_zoom.shown(),
        r.mode_snip@ == s.hotkeys.mode_snip.shown(),
        r.zoom_hold@ == s.hotkeys.zoom_hold.shown(),
        r.snip_copy@ == s.hotkeys.snip_copy.shown(),
        r.cancel@ == s.hotkeys.cancel.shown(),
        r.reset_zoom@ == s.hotkeys.reset_zoom.shown(),
        r.zoom_modifier@ == s.hotkeys.zoom_modifier.names(),
        r.spotlight_radius_modifier@ == s.hotkeys.spotlight_radius_modifier.names(),
        r.default_radius == s.spotlight.default_radius,
        r.step_factor == s.zoom.step_factor.bits,
        r.min == s.zoom.min.bits,
        r.max == s.zoom.max.bits,
        r.dim_opacity == s.overlay.dim_opacity,
        spells(r.color@, s.overlay.color),
        r.auto_start == s.auto_start,
{
    lemma_color_is_written_as_spelled(s.overlay.color);
}

/// Plain values are settings exactly when every text among them can be read;
/// numbers and flags are never at fault. A fault names the kind of text.
pub proof fn lemma_faults_are_texts(r: SettingsRecord)
    ensures
        ({
            let gestures = parsed(r.freeze_toggle@) is Ok && parsed(r.mode_spotlight@) is Ok
                && parsed(r.mode_zoom@) is Ok && parsed(r.mode_snip@) is Ok && parsed(
                r.zoom_hold@,
            ) is Ok && parsed(r.snip_copy@) is Ok && parsed(r.cancel@) is Ok && parsed(
                r.reset_zoom@,
            ) is Ok;
            let held = parsed_modifiers(r.zoom_modifier@) is Ok && parsed_modifiers(
                r.spotlight_radius_modifier@,
            ) is Ok;
            let color = exists|c: Rgb| spells(r.color@, c);
            &&& first_fault(r) is None <==> gestures && held && color
            &&& !gestures ==> (first_fault(r) matches Some(RecordError::Hotkey(_)))
            &&& gestures && !held ==> (first_fault(r) matches Some(RecordError::Held(_)))
            &&& gestures && held && !color ==> first_fault(r) == Some(RecordError::Color)
        }),
{
    match Rgb::from_hex(r.color@) {
        Some(c) => {
            lemma_color_is_what_is_spelled(r.color@, c);
            assert(spells(r.color@, c));
        },
        None => {
            assert forall|c: Rgb| !spells(r.color@, c) by {
                lemma_color_is_what_is_spelled(r.color@, c);
            }
        },
    }
}

/// A byte-order mark in front of a text is ignored, once; any other text is
/// taken as it is.
pub proof fn lemma_bom_is_ignored(text: Seq<char>)
    ensures
        without_bom(seq!['\u{FEFF}'] + text) == text,
        text.len() == 0 || text[0] != '\u{FEFF}' ==> without_bom(text) == text,
{
    assert((seq!['\u{FEFF}'] + text).skip(1) =~= text);
}

/// A text is blank exactly when it is white space throughout.
pub proof fn lemma_blank_texts(text: Seq<char>)
    ensures
        blank(text) <==> forall|i: int| 0 <= i < text.len() ==> is_space(#[trigger] text[i]),
{
    if forall|i: int| 0 <= i < text.len() ==> is_space(#[trigger] text[i]) {
        crate::text::lemma_leading_spaces(text, text.len() as int);
    } else if blank(text) {
        let i = choose|i: int| 0 <= i < text.len() && !is_space(#[trigger] text[i]);
        crate::settings::store::lemma_blank_is_spaces(text, i);
    }
}

/// A file's path is its directory, one separator, and its name; a directory
/// that ends with a separator brings it along.
pub proof fn lemma_paths(dir: Seq<char>, name: Seq<char>)
    ensures
        dir.len() > 0 && dir.last() != '/' ==> joined(dir, name) == dir + seq!['/'] + name,
        dir.len() > 0 && dir.last() == '/' ==> joined(dir, name) == dir + name,
        dir.len() == 0 ==> joined(dir, name) == name,
        dir.len() > 2 && dir.last() != '/' && dir.last() != '\\' ==> joined_windows(dir, name)
            == dir + seq!['\\'] + name,
        dir.len() > 0 && (dir.last() == '/' || dir.last() == '\\') ==> joined_windows(dir, name)
            == dir + name,
        dir.len() == 0 ==> joined_windows(dir, name) == name,
{
    assert(dir.push('/') + name =~= dir + seq!['/'] + name);
    assert(dir.push('\\') + name =~= dir + seq!['\\'] + name);
    assert(dir.len() == 0 ==> dir + name =~= name);
}

/// The settings text is made line by line: a line with a comment comes after
/// it, the comment at the line's indentation, a line without one as it is.
#[verifier::rlimit(60)]
pub proof fn lemma_comment_stands_above(line: Seq<char>, rest: Seq<char>, indent: int)
    requires
        !line.contains('\n'),
        line.len() > 0 ==> line.last() != '\r',
        0 <= indent <= line.len(),
        forall|i: int| 0 <= i < indent ==> is_space(#[trigger] line[i]),
        indent < line.len() ==> !is_space(line[indent]),
    ensures
        annotated(line + seq!['\n'] + rest) == (match key_comment(line.skip(indent)) {
            Some(c) => line.take(indent) + "// "@ + c + seq!['\n'] + line + seq!['\n'],
            None => line + seq!['\n'],
        }) + annotated(rest),
{
    let text = line + seq!['\n'] + rest;
    assert forall|i: int| 0 <= i < line.len() implies text[i] != '\n' by {
        assert(text[i] == line[i]);
        assert(line.contains(line[i]));
    }
    crate::settings::store::lemma_line_end(text, line.len() as int);
    crate::text::lemma_leading_spaces(line, indent);
    assert(text.take(line.len() as int) =~= line);
    assert(text.skip(line.len() as int + 1) =~= rest);
    if line.len() > 0 {
        assert(text[line.len() - 1] == line.last());
    }
    assert(crate::settings::store::first_line(text) =~= line);
    assert(Seq::<char>::empty() + line =~= line);
}

} // verus!
