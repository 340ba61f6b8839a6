//! The settings as plain values: texts, numbers and flags, as a settings file
//! holds them.

use crate::hotkeys::gesture::{
    key_name, lemma_gesture_text_round_trip, lemma_modifiers_text_round_trip, parsed,
    parsed_modifiers, HotkeyGesture, Modifiers, ParseGestureError,
};
use crate::overlay::factor::Factor;
use crate::settings::model::{
    lemma_hex_round_trip, AppSettings, HotkeySettings, OverlaySettings, Rgb, SpotlightSettings,
    ZoomSettings,
};
use crate::settings::store::{
    annotated, blank, jsonc_document, parse_jsonc, plain_lines, without_bom,
};
use crate::text::begins_with;
use vstd::prelude::*;

verus! {

/// The settings as plain values. Gestures, modifiers and the colour are texts;
/// zoom factors are the bit patterns of single-precision numbers.
#[derive(Clone, PartialEq, Eq, Debug)]
pub struct SettingsRecord {
    pub freeze_toggle: String,
    pub mode_spotlight: String,
    pub mode_zoom: String,
    pub mode_snip: String,
    pub zoom_hold: String,
    pub zoom_modifier: String,
    pub spotlight_radius_modifier: String,
    pub snip_copy: String,
    pub cancel: String,
    pub reset_zoom: String,
    pub default_radius: u32,
    pub step_factor: u32,
    pub min: u32,
    pub max: u32,
    pub dim_opacity: u8,
    pub color: String,
    pub auto_start: bool,
}

/// Why plain values are no settings.
#[derive(Clone, Copy, PartialEq, Eq, Structural, Debug)]
pub enum RecordError {
    /// A text is no gesture.
    Hotkey(ParseGestureError),
    /// A text names no modifiers.
    Held(ParseGestureError),
    /// A text is no colour.
    Color,
}

/// Whether `r` holds the settings as plain values.
pub open spec fn recorded(s: AppSettings, r: SettingsRecord) -> bool {
    &&& r.freeze_toggle@ == s.hotkeys.freeze_toggle.shown()
    &&& r.mode_spotlight@ == s.hotkeys.mode_spotlight.shown()
    &&& r.mode_zoom@ == s.hotkeys.mode_zoom.shown()
    &&& r.mode_snip@ == s.hotkeys.mode_snip.shown()
    &&& r.zoom_hold@ == s.hotkeys.zoom_hold.shown()
    &&& r.snip_copy@ == s.hotkeys.snip_copy.shown()
    &&& r.cancel@ == s.hotkeys.cancel.shown()
    &&& r.reset_zoom@ == s.hotkeys.reset_zoom.shown()
    &&& r.zoom_modifier@ == s.hotkeys.zoom_modifier.names()
    &&& r.spotlight_radius_modifier@ == s.hotkeys.spotlight_radius_modifier.names()
    &&& r.default_radius == s.spotlight.default_radius
    &&& r.step_factor == s.zoom.step_factor.bits
    &&& r.min == s.zoom.min.bits
    &&& r.max == s.zoom.max.bits
    &&& r.dim_opacity == s.overlay.dim_opacity
    &&& r.color@ == s.overlay.color.hex()
    &&& r.auto_start == s.auto_start
}

/// The gesture of a text.
pub open spec fn gesture_field(text: Seq<char>) -> Result<HotkeyGesture, RecordError> {
    match parsed(text) {
        Ok(g) => Ok(g),
        Err(e) => Err(RecordError::Hotkey(e)),
    }
}

/// The modifiers of a text.
pub open spec fn held_field(text: Seq<char>) -> Result<Modifiers, RecordError> {
    match parsed_modifiers(text) {
        Ok(m) => Ok(m),
        Err(e) => Err(RecordError::Held(e)),
    }
}

/// The colour of a text.
pub open spec fn color_field(text: Seq<char>) -> Result<Rgb, RecordError> {
    match Rgb::from_hex(text) {
        Some(c) => Ok(c),
        None => Err(RecordError::Color),
    }
}

/// The first fault of plain values, in the order gestures, modifiers, colour.
pub open spec fn first_fault(r: SettingsRecord) -> Option<RecordError> {
    if gesture_field(r.freeze_toggle@) is Err {
        Some(gesture_field(r.freeze_toggle@)->Err_0)
    } else if gesture_field(r.mode_spotlight@) is Err {
        Some(gesture_field(r.mode_spotlight@)->Err_0)
    } else if gesture_field(r.mode_zoom@) is Err {
        Some(gesture_field(r.mode_zoom@)->Err_0)
    } else if gesture_field(r.mode_snip@) is Err {
        Some(gesture_field(r.mode_snip@)->Err_0)
    } else if gesture_field(r.zoom_hold@) is Err {
        Some(gesture_field(r.zoom_hold@)->Err_0)
    } else if gesture_field(r.snip_copy@) is Err {
        Some(gesture_field(r.snip_copy@)->Err_0)
    } else if gesture_field(r.cancel@) is Err {
        Some(gesture_field(r.cancel@)->Err_0)
    } else if gesture_field(r.reset_zoom@) is Err {
        Some(gesture_field(r.reset_zoom@)->Err_0)
    } else if held_field(r.zoom_modifier@) is Err {
        Some(held_field(r.zoom_modifier@)->Err_0)
    } else if held_field(r.spotlight_radius_modifier@) is Err {
        Some(held_field(r.spotlight_radius_modifier@)->Err_0)
    } else if color_field(r.color@) is Err {
        Some(color_field(r.color@)->Err_0)
    } else {
        None
    }
}

/// The settings of plain values without a fault.
pub open spec fn settings_of(r: SettingsRecord) -> AppSettings {
    AppSettings {
        hotkeys: HotkeySettings {
            freeze_toggle: gesture_field(r.freeze_toggle@)->Ok_0,
            mode_spotlight: gesture_field(r.mode_spotlight@)->Ok_0,
            mode_zoom: gesture_field(r.mode_zoom@)->Ok_0,
            mode_snip: gesture_field(r.mode_snip@)->Ok_0,
            zoom_hold: gesture_field(r.zoom_hold@)->Ok_0,
            snip_copy: gesture_field(r.snip_copy@)->Ok_0,
            cancel: gesture_field(r.cancel@)->Ok_0,
            reset_zoom: gesture_field(r.reset_zoom@)->Ok_0,
            zoom_modifier: held_field(r.zoom_modifier@)->Ok_0,
            spotlight_radius_modifier: held_field(r.spotlight_radius_modifier@)->Ok_0,
        },
        spotlight: SpotlightSettings { default_radius: r.default_radius },
        zoom: ZoomSettings {
            step_factor: Factor { bits: r.step_factor },
            min: Factor { bits: r.min },
            max: Factor { bits: r.max },
        },
        overlay: OverlaySettings {
            dim_opacity: r.dim_opacity,
            color: color_field(r.color@)->Ok_0,
        },
        auto_start: r.auto_start,
    }
}

fn read_gesture(text: &str) -> (r: Result<HotkeyGesture, RecordError>)
    ensures
        r == gesture_field(text@),
{
    match HotkeyGesture::parse(text) {
        Ok(g) => Ok(g),
        Err(e) => Err(RecordError::Hotkey(e)),
    }
}

fn read_held(text: &str) -> (r: Result<Modifiers, RecordError>)
    ensures
        r == held_field(text@),
{
    match Modifiers::parse(text) {
        Ok(m) => Ok(m),
        Err(e) => Err(RecordError::Held(e)),
    }
}

fn read_color(text: &str) -> (r: Result<Rgb, RecordError>)
    ensures
        r == color_field(text@),
{
    match Rgb::parse_hex(text) {
        Some(c) => Ok(c),
        None => Err(RecordError::Color),
    }
}

impl AppSettings {
    /// The settings as plain values.
    pub fn to_record(&self) -> (r: SettingsRecord)
        ensures
            recorded(*self, r),
    {
        SettingsRecord {
            freeze_toggle: self.hotkeys.freeze_toggle.to_display(),
            mode_spotlight: self.hotkeys.mode_spotlight.to_display(),
            mode_zoom: self.hotkeys.mode_zoom.to_display(),
            mode_snip: self.hotkeys.mode_snip.to_display(),
            zoom_hold: self.hotkeys.zoom_hold.to_display(),
            snip_copy: self.hotkeys.snip_copy.to_display(),
            cancel: self.hotkeys.cancel.to_display(),
            reset_zoom: self.hotkeys.reset_zoom.to_display(),
            zoom_modifier: self.hotkeys.zoom_modifier.to_display(),
            spotlight_radius_modifier: self.hotkeys.spotlight_radius_modifier.to_display(),
            default_radius: self.spotlight.default_radius,
            step_factor: self.zoom.step_factor.to_bits(),
            min: self.zoom.min.to_bits(),
            max: self.zoom.max.to_bits(),
            dim_opacity: self.overlay.dim_opacity,
            color: self.overlay.color.to_hex(),
            auto_start: self.auto_start,
        }
    }

    /// The settings of plain values; the first fault is reported.
    pub fn from_record(r: &SettingsRecord) -> (s: Result<AppSettings, RecordError>)
        ensures
            s == (match first_fault(*r) {
                Some(e) => Err::<AppSettings, RecordError>(e),
                None => Ok(settings_of(*r)),
            }),
    {
        let freeze_toggle = match read_gesture(r.freeze_toggle.as_str()) {
            Ok(g) => g,
            Err(e) => {
                return Err(e);
            },
        };
        let mode_spotlight = match read_gesture(r.mode_spotlight.as_str()) {
            Ok(g) => g,
            Err(e) => {
                return Err(e);
            },
        };
        let mode_zoom = match read_gesture(r.mode_zoom.as_str()) {
            Ok(g) => g,
            Err(e) => {
                return Err(e);
            },
        };
        let mode_snip = match read_gesture(r.mode_snip.as_str()) {
            Ok(g) => g,
            Err(e) => {
                return Err(e);
            },
        };
        let zoom_hold = match read_gesture(r.zoom_hold.as_str()) {
            Ok(g) => g,
            Err(e) => {
                return Err(e);
            },
        };
        let snip_copy = match read_gesture(r.snip_copy.as_str()) {
            Ok(g) => g,
            Err(e) => {
                return Err(e);
            },
        };
        let cancel = match read_gesture(r.cancel.as_str()) {
            Ok(g) => g,
            Err(e) => {
                return Err(e);
            },
        };
        let reset_zoom = match read_gesture(r.reset_zoom.as_str()) {
            Ok(g) => g,
            Err(e) => {
                return Err(e);
            },
        };
        let zoom_modifier = match read_held(r.zoom_modifier.as_str()) {
            Ok(m) => m,
            Err(e) => {
                return Err(e);
            },
        };
        let spotlight_radius_modifier = match read_held(r.spotlight_radius_modifier.as_str()) {
            Ok(m) => m,
            Err(e) => {
                return Err(e);
            },
        };
        let color = match read_color(r.color.as_str()) {
            Ok(c) => c,
            Err(e) => {
                return Err(e);
            },
        };
        Ok(
            AppSettings {
                hotkeys: HotkeySettings {
                    freeze_toggle,
                    mode_spotlight,
                    mode_zoom,
                    mode_snip,
                    zoom_hold,
                    snip_copy,
                    cancel,
                    reset_zoom,
                    zoom_modifier,
                    spotlight_radius_modifier,
                },
                spotlight: SpotlightSettings { default_radius: r.default_radius },
                zoom: ZoomSettings {
                    step_factor: Factor::from_bits(r.step_factor),
                    min: Factor::from_bits(r.min),
                    max: Factor::from_bits(r.max),
                },
                overlay: OverlaySettings { dim_opacity: r.dim_opacity, color },
                auto_start: r.auto_start,
            },
        )
    }
}

/// Whether every gesture's key has a name, so that its text reads back.
pub open spec fn all_keys_named(h: HotkeySettings) -> bool {
    &&& key_name(h.freeze_toggle.vk) is Some
    &&& key_name(h.mode_spotlight.vk) is Some
    &&& key_name(h.mode_zoom.vk) is Some
    &&& key_name(h.mode_snip.vk) is Some
    &&& key_name(h.zoom_hold.vk) is Some
    &&& key_name(h.snip_copy.vk) is Some
    &&& key_name(h.cancel.vk) is Some
    &&& key_name(h.reset_zoom.vk) is Some
}

/// Settings survive being written as plain values and read again, whatever
/// their numbers, as long as every key has a name.
pub proof fn lemma_settings_round_trip(s: AppSettings, r: SettingsRecord)
    requires
        all_keys_named(s.hotkeys),
        recorded(s, r),
    ensures
        first_fault(r) is None,
        settings_of(r) == s,
{
    lemma_gesture_text_round_trip(s.hotkeys.freeze_toggle);
    lemma_gesture_text_round_trip(s.hotkeys.mode_spotlight);
    lemma_gesture_text_round_trip(s.hotkeys.mode_zoom);
    lemma_gesture_text_round_trip(s.hotkeys.mode_snip);
    lemma_gesture_text_round_trip(s.hotkeys.zoom_hold);
    lemma_gesture_text_round_trip(s.hotkeys.snip_copy);
    lemma_gesture_text_round_trip(s.hotkeys.cancel);
    lemma_gesture_text_round_trip(s.hotkeys.reset_zoom);
    lemma_modifiers_text_round_trip(s.hotkeys.zoom_modifier);
    lemma_modifiers_text_round_trip(s.hotkeys.spotlight_radius_modifier);
    lemma_hex_round_trip(s.overlay.color);
}

/// Why a settings text could not be used.
#[derive(Clone, PartialEq, Eq, Debug)]
pub enum SettingsError {
    /// It is no JSONC; the parser's message.
    Malformed(String),
    /// Its object does not have the shape of settings.
    Schema,
    /// One of its values is no setting.
    Value(RecordError),
}

/// Whether `read` gives, for the JSON object `json`, the plain values of `s`.
pub open spec fn reads_back<F: Fn(&str) -> Option<SettingsRecord>>(
    read: F,
    json: Seq<char>,
    s: AppSettings,
) -> bool {
    &&& jsonc_document(json) matches Ok(Some(_))
    &&& forall|doc: &str, out: Option<SettingsRecord>|
        jsonc_document(json) == Ok::<Option<Seq<char>>, Seq<char>>(Some(doc@))
            && #[trigger] call_ensures(read, (doc,), out) ==> (out matches Some(r) && recorded(
            s,
            r,
        ))
}

/// The settings of a settings text: the defaults when there is nothing in it,
/// else those of its JSON object, from which `read` takes the plain values,
/// filling in what is missing. `None` from `read` = not the shape of settings.
///
/// What [`crate::settings::store::to_jsonc_template`] made of the JSON object of
/// some settings gives those settings back.
pub fn read_settings<F: Fn(&str) -> Option<SettingsRecord>>(text: &str, read: F) -> (r: Result<
    AppSettings,
    SettingsError,
>)
    requires
        forall|doc: &str| #[trigger] call_requires(read, (doc,)),
    ensures
        ({
            let body = without_bom(text@);
            if blank(body) || jsonc_document(body) == Ok::<Option<Seq<char>>, Seq<char>>(None) {
                r == Ok::<AppSettings, SettingsError>(AppSettings::defaults())
            } else {
                match jsonc_document(body) {
                    Err(message) => r matches Err(SettingsError::Malformed(m)) && m@ == message,
                    Ok(None) => false,
                    Ok(Some(document)) => exists|doc: &str, out: Option<SettingsRecord>| {
                        &&& doc@ == document
                        &&& #[trigger] call_ensures(read, (doc,), out)
                        &&& r == (match out {
                            None => Err::<AppSettings, SettingsError>(SettingsError::Schema),
                            Some(record) => match first_fault(record) {
                                Some(e) => Err(SettingsError::Value(e)),
                                None => Ok(settings_of(record)),
                            },
                        })
                    },
                }
            }
        }),
        forall|json: Seq<char>, s: AppSettings|
            text@ == annotated(json) && plain_lines(json) && begins_with(json, seq!['{'])
                && all_keys_named(s.hotkeys) && #[trigger] reads_back(read, json, s) ==> r == Ok::<
                AppSettings,
                SettingsError,
            >(s),
{
    match parse_jsonc(text) {
        Err(message) => {
            Err(SettingsError::Malformed(message))
        },
        Ok(None) => {
            Ok(AppSettings::default())
        },
        Ok(Some(document)) => {
            let doc: &str = document.as_str();
            let out: Option<SettingsRecord> = read(doc);
            proof {
                assert(call_ensures(read, (doc,), out));
                assert forall|json: Seq<char>, s: AppSettings|
                    text@ == annotated(json) && plain_lines(json) && begins_with(json, seq!['{'])
                        && all_keys_named(s.hotkeys) && #[trigger] reads_back(
                        read,
                        json,
                        s,
                    ) implies out matches Some(r) && first_fault(r) is None && settings_of(r) == s by {
                    assert(jsonc_document(json) == Ok::<Option<Seq<char>>, Seq<char>>(Some(doc@)));
                    lemma_settings_round_trip(s, out->0);
                }
            }
            match out {
                None => Err(SettingsError::Schema),
                Some(record) => match AppSettings::from_record(&record) {
                    Ok(s) => Ok(s),
                    Err(e) => Err(SettingsError::Value(e)),
                },
            }
        },
    }
}

} // verus!
