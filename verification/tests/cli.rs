use spotfreeze::cli::{parse, version_string, CliAction, HELP};

fn parse_args(args: &[&str]) -> Result<CliAction, String> {
    let owned: Vec<String> = args.iter().map(|s| s.to_string()).collect();
    parse(&owned)
}

#[test]
fn no_args_runs_the_app() {
    assert_eq!(parse_args(&[]), Ok(CliAction::Run));
}

#[test]
fn each_flag_maps_to_its_action() {
    assert_eq!(parse_args(&["--daemon"]), Ok(CliAction::Daemon));
    assert_eq!(parse_args(&["--help"]), Ok(CliAction::Help));
    assert_eq!(parse_args(&["-h"]), Ok(CliAction::Help));
    assert_eq!(parse_args(&["--version"]), Ok(CliAction::Version));
    assert_eq!(parse_args(&["-V"]), Ok(CliAction::Version));
    assert_eq!(parse_args(&["toggle"]), Ok(CliAction::Toggle));
}

#[test]
fn conflicting_action_flags_are_an_error() {
    let err = parse_args(&["--daemon", "--help"]).expect_err("conflict");
    assert!(err.contains("--daemon") && err.contains("--help"), "{err}");
    assert!(parse_args(&["--version", "-h"]).is_err());
}

#[test]
fn unknown_arguments_are_an_error_pointing_at_help() {
    let err = parse_args(&["--nohup"]).expect_err("unknown long flag");
    assert!(err.contains("--nohup") && err.contains("--help"), "{err}");
    assert!(parse_args(&["file.txt"]).is_err(), "positionals are rejected");
}

#[test]
fn help_documents_every_flag() {
    for flag in ["--daemon", "--help", "--version", "toggle"] {
        assert!(HELP.contains(flag), "help mentions {flag}");
    }
    assert!(HELP.contains("nohup"), "the daemon flag explains itself");
    assert!(HELP.contains("hyprland.conf"), "toggle shows the compositor bind");
}

#[test]
fn version_string_carries_the_crate_version() {
    assert_eq!(version_string(), format!("spotfreeze {}", "0.1.0"));
}

#[test]
fn a_repeated_action_is_refused_too() {
    assert!(parse_args(&["--help", "-h"]).is_err());
    assert!(parse_args(&["toggle", "toggle"]).is_err());
}
