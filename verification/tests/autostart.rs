use spotfreeze::autostart::{
    launch_agent_plist, launch_agent_plist_path, reconcile_action, windows_run_value_payload,
    xml_escape, ReconcileAction, LAUNCH_AGENT_LABEL, WINDOWS_RUN_KEY_PATH, WINDOWS_VALUE_NAME,
};
use spotfreeze::platform::macos::app::BUNDLE_ID;
use spotfreeze::platform::macos::autostart::{
    apply_auto_start, deletion_succeeded, AgentStep, DeleteOutcome,
};
use spotfreeze::platform::windows::{
    apply_auto_start as apply_registry, byte_count, delete_run_value, set_run_value, status_error,
    wide, RunValueStep, ERROR_FILE_NOT_FOUND, ERROR_SUCCESS,
};

#[test]
fn reconcile_action_maps_the_setting() {
    assert_eq!(reconcile_action(true), ReconcileAction::Install);
    assert_eq!(reconcile_action(false), ReconcileAction::Remove);
}

#[test]
fn windows_run_key_targets_the_current_user_run_key() {
    assert_eq!(WINDOWS_RUN_KEY_PATH, r"Software\Microsoft\Windows\CurrentVersion\Run");
    assert_eq!(WINDOWS_VALUE_NAME, "SpotFreeze");
}

#[test]
fn windows_payload_is_the_quoted_exe_path_without_arguments() {
    assert_eq!(
        windows_run_value_payload(r"C:\Tools\SpotFreeze\spotfreeze.exe"),
        r#""C:\Tools\SpotFreeze\spotfreeze.exe""#
    );
    // Spaces in the install dir are exactly why the value is quoted.
    let payload = windows_run_value_payload(r"C:\Program Files\Spot Freeze\spotfreeze.exe");
    assert_eq!(payload, r#""C:\Program Files\Spot Freeze\spotfreeze.exe""#);
    assert!(payload.starts_with('"') && payload.ends_with('"'));
}

#[test]
fn launch_agent_label_is_the_stable_app_bundle_id() {
    assert_eq!(LAUNCH_AGENT_LABEL, "com.spotfreeze.app");
}

#[test]
fn launch_agent_label_matches_the_app_bundle_id() {
    assert_eq!(LAUNCH_AGENT_LABEL, BUNDLE_ID);
}

#[test]
fn launch_agent_plist_path_lives_under_home_library_launchagents() {
    let path = launch_agent_plist_path(Some("/Users/u")).unwrap();
    assert_eq!(path, "/Users/u/Library/LaunchAgents/com.spotfreeze.app.plist");
    assert_eq!(launch_agent_plist_path(None), None, "no HOME => no path");
    assert_eq!(launch_agent_plist_path(Some("")), None, "empty HOME => no path");
}

#[test]
fn plist_is_a_runatload_agent_for_the_binary() {
    let plist = launch_agent_plist("/Applications/SpotFreeze.app/Contents/MacOS/spotfreeze");
    for needle in [
        "<?xml version=\"1.0\" encoding=\"UTF-8\"?>",
        "<plist version=\"1.0\">",
        "<key>Label</key>",
        &format!("<string>{LAUNCH_AGENT_LABEL}</string>"),
        "<key>ProgramArguments</key>",
        "<string>/Applications/SpotFreeze.app/Contents/MacOS/spotfreeze</string>",
        "<key>RunAtLoad</key>",
        "<true/>",
    ] {
        assert!(plist.contains(needle), "plist missing {needle}:\n{plist}");
    }
    assert!(
        !plist.contains("<key>KeepAlive</key>"),
        "no respawn: exited SpotFreeze stays down"
    );
    assert!(plist.ends_with('\n'));
}

#[test]
fn plist_escapes_xml_entities_in_the_program_path() {
    let plist = launch_agent_plist("/Users/a&b<q>/spotfreeze");
    assert!(
        plist.contains("<string>/Users/a&amp;b&lt;q&gt;/spotfreeze</string>"),
        "path entities escaped:\n{plist}"
    );
    assert!(plist.contains(&format!("<string>{LAUNCH_AGENT_LABEL}</string>")));
}

#[test]
fn xml_escape_covers_the_text_content_entities() {
    assert_eq!(xml_escape("a&b<c>d"), "a&amp;b&lt;c&gt;d");
    assert_eq!(xml_escape("plain/path"), "plain/path");
    assert_eq!(xml_escape("say \"hi\" 'now'"), "say \"hi\" 'now'");
    assert_eq!(xml_escape("&lt;"), "&amp;lt;");
}

#[test]
fn agent_step_writes_the_plist_under_the_given_home() {
    match apply_auto_start(true, Some("/Users/u"), "/opt/spotfreeze") {
        Some(AgentStep::Write { dir, path, text }) => {
            assert_eq!(dir, "/Users/u/Library/LaunchAgents");
            assert_eq!(Some(path), launch_agent_plist_path(Some("/Users/u")));
            assert_eq!(text, launch_agent_plist("/opt/spotfreeze"));
        }
        _ => panic!("expected a write"),
    }
    {
        assert!(apply_auto_start(true, None, "/opt/spotfreeze").is_none());
        assert!(apply_auto_start(false, Some(""), "/opt/spotfreeze").is_none());
    }
}

#[test]
fn agent_step_deletes_and_absent_counts_as_done() {
    match apply_auto_start(false, Some("/Users/u"), "/opt/spotfreeze") {
        Some(AgentStep::Delete { path }) => {
            assert_eq!(Some(path), launch_agent_plist_path(Some("/Users/u")));
        }
        _ => panic!("expected a deletion"),
    }
    assert!(deletion_succeeded(DeleteOutcome::Deleted));
    assert!(deletion_succeeded(DeleteOutcome::Absent));
    assert!(!deletion_succeeded(DeleteOutcome::Failed));
}

fn units(text: &str) -> Vec<u16> {
    text.encode_utf16().chain(std::iter::once(0)).collect()
}

#[test]
fn registry_step_sets_or_deletes_the_run_value() {
    let (key, step) = apply_registry(true, r"C:\a b\s.exe");
    assert_eq!(key, units(WINDOWS_RUN_KEY_PATH));
    match step {
        RunValueStep::Write { name, value } => {
            assert_eq!(name, units("SpotFreeze"));
            assert_eq!(value, units("\"C:\\a b\\s.exe\""));
            assert_eq!(byte_count(&value), Some(2 * value.len() as u32));
        }
        _ => panic!("expected a value to set"),
    }
    let (_, step) = apply_registry(false, r"C:\a b\s.exe");
    match step {
        RunValueStep::Delete { name } => assert_eq!(name, units("SpotFreeze")),
        _ => panic!("expected a deletion"),
    }
    {
        assert_eq!(wide(""), vec![0]);
        assert_eq!(wide("a𝄞"), units("a𝄞"));
    }
    {
        assert!(set_run_value(ERROR_SUCCESS));
        assert!(!set_run_value(ERROR_FILE_NOT_FOUND));
        assert!(delete_run_value(ERROR_SUCCESS));
        assert!(delete_run_value(ERROR_FILE_NOT_FOUND));
        assert!(!delete_run_value(5));
        assert_eq!(status_error("RegOpenKeyExW"), "RegOpenKeyExW failed");
    }
}
