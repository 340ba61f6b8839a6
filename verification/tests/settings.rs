use serde_json::Value;
use spotfreeze::hotkeys::gesture::{HotkeyGesture, Modifiers, ParseGestureError};
use spotfreeze::overlay::factor::Factor;
use spotfreeze::settings::model::{AppSettings, HotkeySettings, Rgb};
use spotfreeze::settings::record::{
    read_settings, RecordError, SettingsError, SettingsRecord,
};
use spotfreeze::settings::store::{
    default_settings_path, default_settings_path_windows, load, parse_jsonc, save, tmp_path_for, to_jsonc_template, LoadStep,
    ReadOutcome, SaveStep, SETTINGS_FILE_NAME,
};

const KEY_COMMENTS: &[(&str, &str)] = &[
    (
        "spotlight_radius_modifier",
        "modifier-only binding: key HELD while scrolling the wheel to resize the circle (not a full hotkey)",
    ),
    ("default_radius", "physical pixels on the monitor under the cursor"),
    ("step_factor", "zoom multiplier per wheel notch (must be > 1.0)"),
    ("dim_opacity", "0 = invisible veil, 255 = fully black"),
];

// ---- settings as JSON ---------------------------------------------------------

fn factor(v: f32) -> Factor {
    Factor::from_bits(v.to_bits())
}

fn number(bits: u32) -> Value {
    Value::from(f64::from(f32::from_bits(bits)))
}

fn section(entries: Vec<(&str, Value)>) -> Value {
    Value::Object(entries.into_iter().map(|(k, v)| (k.to_string(), v)).collect())
}

fn json_of(s: &AppSettings) -> String {
    let r = s.to_record();
    let root = section(vec![
        (
            "hotkeys",
            section(vec![
                ("freeze_toggle", Value::from(r.freeze_toggle)),
                ("mode_spotlight", Value::from(r.mode_spotlight)),
                ("mode_zoom", Value::from(r.mode_zoom)),
                ("mode_snip", Value::from(r.mode_snip)),
                ("zoom_hold", Value::from(r.zoom_hold)),
                ("zoom_modifier", Value::from(r.zoom_modifier)),
                ("spotlight_radius_modifier", Value::from(r.spotlight_radius_modifier)),
                ("snip_copy", Value::from(r.snip_copy)),
                ("cancel", Value::from(r.cancel)),
                ("reset_zoom", Value::from(r.reset_zoom)),
            ]),
        ),
        ("spotlight", section(vec![("default_radius", Value::from(r.default_radius))])),
        (
            "zoom",
            section(vec![
                ("step_factor", number(r.step_factor)),
                ("min", number(r.min)),
                ("max", number(r.max)),
            ]),
        ),
        (
            "overlay",
            section(vec![
                ("dim_opacity", Value::from(r.dim_opacity)),
                ("color", Value::from(r.color)),
            ]),
        ),
        ("auto_start", Value::from(r.auto_start)),
    ]);
    serde_json::to_string_pretty(&root).unwrap()
}

fn text_at(root: &Value, path: &str, into: &mut String) -> Option<()> {
    if let Some(v) = root.pointer(path) {
        *into = v.as_str()?.to_string();
    }
    Some(())
}

fn bits_at(root: &Value, path: &str, into: &mut u32) -> Option<()> {
    if let Some(v) = root.pointer(path) {
        *into = (v.as_f64()? as f32).to_bits();
    }
    Some(())
}

/// The plain values of a JSON object; missing keys keep their defaults.
fn record_of(json: &str) -> Option<SettingsRecord> {
    let root: Value = serde_json::from_str(json).ok()?;
    let mut r = AppSettings::default().to_record();
    text_at(&root, "/hotkeys/freeze_toggle", &mut r.freeze_toggle)?;
    text_at(&root, "/hotkeys/mode_spotlight", &mut r.mode_spotlight)?;
    text_at(&root, "/hotkeys/mode_zoom", &mut r.mode_zoom)?;
    text_at(&root, "/hotkeys/mode_snip", &mut r.mode_snip)?;
    text_at(&root, "/hotkeys/zoom_hold", &mut r.zoom_hold)?;
    text_at(&root, "/hotkeys/zoom_modifier", &mut r.zoom_modifier)?;
    text_at(&root, "/hotkeys/spotlight_radius_modifier", &mut r.spotlight_radius_modifier)?;
    text_at(&root, "/hotkeys/snip_copy", &mut r.snip_copy)?;
    text_at(&root, "/hotkeys/cancel", &mut r.cancel)?;
    text_at(&root, "/hotkeys/reset_zoom", &mut r.reset_zoom)?;
    if let Some(v) = root.pointer("/spotlight/default_radius") {
        r.default_radius = u32::try_from(v.as_u64()?).ok()?;
    }
    bits_at(&root, "/zoom/step_factor", &mut r.step_factor)?;
    bits_at(&root, "/zoom/min", &mut r.min)?;
    bits_at(&root, "/zoom/max", &mut r.max)?;
    if let Some(v) = root.pointer("/overlay/dim_opacity") {
        r.dim_opacity = u8::try_from(v.as_u64()?).ok()?;
    }
    text_at(&root, "/overlay/color", &mut r.color)?;
    if let Some(v) = root.get("auto_start") {
        r.auto_start = v.as_bool()?;
    }
    Some(r)
}

fn parsed(text: &str) -> AppSettings {
    read_settings(text, record_of).expect("settings parse")
}

fn template_of(s: &AppSettings) -> String {
    to_jsonc_template(&json_of(s))
}

// ---- paths --------------------------------------------------------------------

#[test]
fn default_settings_path_is_settings_json_next_to_exe() {
    let path = default_settings_path("/opt/spotfreeze");
    assert_eq!(path, "/opt/spotfreeze/settings.json");
    assert!(path.ends_with(SETTINGS_FILE_NAME));
}

#[test]
fn the_windows_path_is_joined_with_a_backslash() {
    assert_eq!(default_settings_path_windows("C:\\Tools"), "C:\\Tools\\settings.json");
    assert_eq!(default_settings_path_windows("C:\\"), "C:\\settings.json");
    assert_eq!(default_settings_path_windows("C:/Tools/"), "C:/Tools/settings.json");
    assert_eq!(default_settings_path_windows("C:"), "C:settings.json");
    assert_eq!(default_settings_path_windows("1:"), "1:\\settings.json");
    assert_eq!(default_settings_path_windows(""), "settings.json");
}

#[test]
fn the_temporary_file_is_a_sibling() {
    assert_eq!(tmp_path_for("/opt/settings.json"), "/opt/settings.json.tmp");
}

// ---- template -----------------------------------------------------------------

#[test]
fn template_comments_only_on_intended_keys() {
    let template = template_of(&AppSettings::default());
    // Exactly one `//` comment per registered key, nothing else.
    let comment_lines: Vec<&str> = template
        .lines()
        .filter(|l| l.trim_start().starts_with("//"))
        .collect();
    assert_eq!(
        comment_lines.len(),
        KEY_COMMENTS.len(),
        "template must contain exactly the intended comments: {template}"
    );
    for &(key, comment) in KEY_COMMENTS {
        assert!(
            comment_lines.iter().any(|l| l.contains(comment)),
            "missing comment for {key}"
        );
        // The comment sits directly above its key, with matching indent.
        let needle = format!("// {comment}\n");
        let pos = template.find(&needle).expect("comment line present");
        let next_line_start = pos + needle.len();
        let next_line = template[next_line_start..]
            .lines()
            .next()
            .expect("key line follows comment");
        assert!(
            next_line.trim_start().starts_with(&format!("\"{key}\":")),
            "comment for {key} must sit directly above the key line: {next_line}"
        );
    }
    // Hotkey bindings stay uncommented (self-explanatory).
    for hotkey_key in [
        "freeze_toggle",
        "mode_spotlight",
        "mode_zoom",
        "mode_snip",
        "snip_copy",
        "cancel",
        "reset_zoom",
    ] {
        let key_line_pos = template
            .find(&format!("\"{hotkey_key}\":"))
            .expect("hotkey key present");
        let before = &template[..key_line_pos];
        let prev_line = before.trim_end().lines().last().unwrap_or("");
        assert!(
            !prev_line.trim_start().starts_with("//"),
            "{hotkey_key} must not have a comment above it"
        );
    }
}

#[test]
fn template_ends_with_newline_and_is_parseable() {
    let template = template_of(&AppSettings::default());
    assert!(template.ends_with('\n'));
    assert!(template.starts_with('{'));
    assert!(parse_jsonc(&template).is_ok());
}

#[test]
fn template_reflects_non_default_values() {
    let mut settings = AppSettings::default();
    settings.zoom.max = factor(12.5);
    settings.overlay.dim_opacity = 7;
    let template = template_of(&settings);
    assert!(template.contains("\"max\": 12.5"));
    assert!(template.contains("\"dim_opacity\": 7"));
    assert_eq!(parsed(&template), settings);
}

// ---- reading back ---------------------------------------------------------------

#[test]
fn default_round_trip_through_template() {
    let defaults = AppSettings::default();
    assert_eq!(parsed(&template_of(&defaults)), defaults);
}

#[test]
fn changed_settings_round_trip_through_template() {
    let mut settings = AppSettings::default();
    settings.spotlight.default_radius = 222;
    settings.zoom.max = factor(8.0);
    settings.overlay.dim_opacity = 90;
    assert_eq!(parsed(&template_of(&settings)), settings);
    {
        let json = json_of(&AppSettings::default());
        assert_eq!(parse_jsonc(&to_jsonc_template(&json)), parse_jsonc(&json));
    }
}

#[test]
fn partial_json_merges_with_defaults() {
    let loaded = parsed(r#"{ "zoom": { "max": 8.0 } }"#);
    assert_eq!(loaded.zoom.max, factor(8.0));
    // Every untouched key keeps its default.
    let defaults = AppSettings::default();
    assert_eq!(loaded.zoom.step_factor, defaults.zoom.step_factor);
    assert_eq!(loaded.zoom.min, defaults.zoom.min);
    assert_eq!(loaded.hotkeys, defaults.hotkeys);
    assert_eq!(loaded.spotlight, defaults.spotlight);
    assert_eq!(loaded.overlay, defaults.overlay);
}

#[test]
fn partial_nested_section_merges_with_defaults() {
    let loaded = parsed(r#"{ "hotkeys": { "cancel": "Q" } }"#);
    assert_eq!(loaded.hotkeys.cancel, HotkeyGesture::parse("Q").unwrap());
    assert_eq!(
        loaded.hotkeys.freeze_toggle,
        AppSettings::default().hotkeys.freeze_toggle
    );
}

#[test]
fn unknown_keys_are_ignored() {
    let loaded = parsed(r#"{ "future_key": 42, "zoom": { "max": 4.0, "also_future": true } }"#);
    assert_eq!(loaded.zoom.max, factor(4.0));
    assert_eq!(loaded.hotkeys, AppSettings::default().hotkeys);
}

#[test]
fn empty_file_yields_defaults() {
    for content in ["", "  \n\t  \r\n"] {
        assert_eq!(parse_jsonc(content), Ok(None));
        assert_eq!(parsed(content), AppSettings::default());
    }
    // So does a file of comments only.
    assert_eq!(parse_jsonc("// nothing here\n"), Ok(None));
}

#[test]
fn comments_and_trailing_commas_are_tolerated() {
    let loaded = parsed(
        r#"{
    // line comment
    /* block comment */
    "zoom": {
        "max": 6.0, // trailing comment
    },
    "overlay": { "dim_opacity": 200 },
}"#,
    );
    assert_eq!(loaded.zoom.max, factor(6.0));
    assert_eq!(loaded.overlay.dim_opacity, 200);
    assert_eq!(loaded.hotkeys, AppSettings::default().hotkeys);
}

#[test]
fn utf8_bom_is_tolerated() {
    let mut content = String::from("\u{FEFF}");
    content.push_str(r#"{ "zoom": { "max": 3.5 } }"#);
    assert_eq!(parsed(&content).zoom.max, factor(3.5));
}

#[test]
fn malformed_jsonc_errors_with_line_and_column() {
    let shown = parse_jsonc("{\n  \"zoom\": {\n").expect_err("malformed JSONC must error");
    assert!(
        shown.contains("line") && shown.contains("column"),
        "error carries the parser's line/column info: {shown}"
    );
}

#[test]
fn wrong_value_type_errors() {
    let text = r#"{ "overlay": { "dim_opacity": "black" } }"#;
    assert_eq!(read_settings(text, record_of), Err(SettingsError::Schema));
    let text = r#"{ "hotkeys": { "cancel": "Nope" } }"#;
    assert_eq!(
        read_settings(text, record_of),
        Err(SettingsError::Value(RecordError::Hotkey(ParseGestureError::UnknownKey)))
    );
    assert!(matches!(read_settings("{", record_of), Err(SettingsError::Malformed(_))));
}

#[test]
fn parse_jsonc_strips_bom_only_at_start() {
    // A BOM character inside the document is data, not a mark.
    let err = parse_jsonc("{\u{FEFF}").expect_err("BOM mid-document is not stripped");
    assert!(err.contains("line"));
}

// ---- loading and saving ----------------------------------------------------------

#[test]
fn the_steps_of_loading_and_saving() {
    assert_eq!(save(SaveStep::WriteTemp, true), SaveStep::Rename);
    assert_eq!(save(SaveStep::Rename, true), SaveStep::Saved);
    assert_eq!(save(SaveStep::WriteTemp, false), SaveStep::RemoveTemp);
    assert_eq!(save(SaveStep::Rename, false), SaveStep::RemoveTemp);
    assert_eq!(save(SaveStep::RemoveTemp, false), SaveStep::Failed);
    {
        assert_eq!(load(ReadOutcome::Missing), LoadStep::CreateDefaults);
        assert_eq!(load(ReadOutcome::Text), LoadStep::Parse);
        assert_eq!(load(ReadOutcome::Failed), LoadStep::Fail);
    }
}

// ---- values ----------------------------------------------------------------------

#[test]
fn default_settings() {
    let h = HotkeySettings::default();
    let g = |s: &str| HotkeyGesture::parse(s).unwrap();
    assert_eq!(h.freeze_toggle, g("Win+F"));
    assert_eq!(h.mode_spotlight, g("S"));
    assert_eq!(h.mode_snip, g("C"));
    assert_eq!(h.zoom_hold, g("F"));
    assert_eq!(h.snip_copy, g("Ctrl+C"));
    assert_eq!(h.cancel, g("Esc"));
    assert_eq!(h.reset_zoom, g("0"));
    assert_eq!(h.zoom_modifier, Modifiers::shift());
    assert_eq!(h.spotlight_radius_modifier, Modifiers::ctrl());
    {
        let s = AppSettings::default();
        assert_eq!(s.spotlight.default_radius, 150);
        assert_eq!(s.zoom.step_factor, factor(1.25));
        assert_eq!(s.zoom.min, factor(1.0));
        assert_eq!(s.zoom.max, factor(16.0));
        assert_eq!(s.overlay.dim_opacity, 160);
        assert!(!s.auto_start);
    }
}

#[test]
fn settings_survive_as_plain_values() {
    let mut s = AppSettings::default();
    assert_eq!(AppSettings::from_record(&s.to_record()), Ok(s));
    s.hotkeys.cancel = HotkeyGesture::parse("Ctrl+Shift+F9").unwrap();
    s.hotkeys.zoom_modifier = Modifiers::ctrl() | Modifiers::alt();
    s.hotkeys.spotlight_radius_modifier = Modifiers::none();
    s.zoom.max = factor(12.5);
    s.overlay.color = Rgb { r: 1, g: 2, b: 250 };
    s.auto_start = true;
    let r = s.to_record();
    assert_eq!(r.cancel, "Ctrl+Shift+F9");
    assert_eq!(r.zoom_modifier, "Ctrl+Alt");
    assert_eq!(r.max, 12.5f32.to_bits());
    assert_eq!(AppSettings::from_record(&r), Ok(s));
}

#[test]
fn faulty_plain_values_are_refused() {
    let good = AppSettings::default().to_record();
    let mut r = good.clone();
    r.cancel = String::from("Nope");
    assert_eq!(
        AppSettings::from_record(&r),
        Err(RecordError::Hotkey(ParseGestureError::UnknownKey))
    );
    let mut r = good.clone();
    r.zoom_modifier = String::from("Hyper");
    assert_eq!(
        AppSettings::from_record(&r),
        Err(RecordError::Held(ParseGestureError::UnknownModifier))
    );
    let mut r = good;
    r.color = String::from("red");
    assert_eq!(AppSettings::from_record(&r), Err(RecordError::Color));
}

#[test]
fn colours_round_trip_through_hex() {
    for c in [
        Rgb { r: 0, g: 0, b: 0 },
        Rgb { r: 255, g: 0, b: 10 },
        Rgb { r: 0x12, g: 0xab, b: 0xff },
    ] {
        assert_eq!(Rgb::parse_hex(&c.to_hex()), Some(c));
    }
    for bad in ["", "#12345", "#1234567", "#gg0000", "red"] {
        assert_eq!(Rgb::parse_hex(bad), None, "{bad}");
    }
}
