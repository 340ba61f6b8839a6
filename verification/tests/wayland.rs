use spotfreeze::capture::png::{encode_png, PngError};
use spotfreeze::capture::rows::rows_to_dib;
use spotfreeze::capture::{DibBuffer, MonitorInfo};
use spotfreeze::geometry::{Point, Rect};
use spotfreeze::hotkeys::frozen::FrozenAction;
use spotfreeze::hotkeys::gesture::{HotkeyGesture, Modifiers};
use spotfreeze::overlay::modes::ModeKind;
use spotfreeze::platform::shared::edit::{
    open_in_editor, open_in_editor_macos, EditProgress, EditStep,
};
use spotfreeze::platform::wayland::app::{
    run, tooltip_text, AppState, FrozenOutcome, Intent, IntentStep, ReloadStep, RunStep,
    StepOutcome,
};
use spotfreeze::platform::wayland::capture::{
    capture_all, choose_shm_format, CaptureState, FrameAction, FrameError, FrameEvent, ShmFormat,
    ShmOffer,
};
use spotfreeze::platform::wayland::clipboard::{
    require_serial, ClipboardError, ClipboardShared, MIME_IMAGE_PNG,
};
use spotfreeze::platform::wayland::ipc::{
    count_toggles, drain_mode_command, send_mode_command, socket_path_from, ModeCommand,
    TOGGLE_COMMAND,
};
use spotfreeze::platform::wayland::shell::{
    acquire_instance_lock, ensure_keyboard_focus, lock_path, physical_rect, plan_globals,
    plan_outputs, pump_until, resolve_geometry, ConnectError, FocusStep, GlobalInfo, OutputDraft,
    OutputEvent, PumpStep, Required, Shell, MAX_ROUNDTRIPS,
};
use spotfreeze::settings::model::AppSettings;

// ---- capture ----------------------------------------------------------------

/// Codes of formats the overlay cannot use.
const NV12: ShmFormat = ShmFormat::Other(0x3231_564e);
const RGB565: ShmFormat = ShmFormat::Other(0x3631_4752);

fn offer(format: ShmFormat) -> ShmOffer {
    ShmOffer {
        format,
        width: 2,
        height: 2,
        stride: 8,
    }
}

#[test]
fn chooses_the_first_compatible_offer() {
    let offers = [
        offer(NV12),
        offer(ShmFormat::Argb8888),
        offer(ShmFormat::Xrgb8888),
    ];
    assert_eq!(choose_shm_format(&offers), Some(1));
}

#[test]
fn chooses_xrgb8888_when_only_it_is_offered() {
    let offers = [offer(NV12), offer(ShmFormat::Xrgb8888)];
    assert_eq!(choose_shm_format(&offers), Some(1));
}

#[test]
fn no_compatible_offer_is_none() {
    let offers = [offer(NV12), offer(RGB565)];
    assert_eq!(choose_shm_format(&offers), None);
    assert_eq!(choose_shm_format(&[]), None);
}

/// 3x2 frame with unique bytes per pixel channel: pixel (x, y) =
/// [10y+x, 100+10y+x, 200+10y+x, 0].
fn frame_bytes(stride: u32) -> Vec<u8> {
    let mut v = vec![0u8; stride as usize * 2];
    for y in 0..2u32 {
        for x in 0..3u32 {
            let off = (y * stride + x * 4) as usize;
            v[off] = (10 * y + x) as u8;
            v[off + 1] = (100 + 10 * y + x) as u8;
            v[off + 2] = (200 + 10 * y + x) as u8;
            v[off + 3] = 0;
        }
    }
    v
}

#[test]
fn tight_stride_copies_verbatim_and_forces_alpha() {
    let src = frame_bytes(12);
    let dib = rows_to_dib(&src, 12, 3, 2, false);
    assert_eq!((dib.width, dib.height, dib.stride), (3, 2, 12));
    assert_eq!(dib.pixel(0, 0), Some([0, 100, 200, 255]));
    assert_eq!(dib.pixel(2, 1), Some([12, 112, 212, 255]));
}

#[test]
fn padded_stride_copies_rows_without_padding() {
    let stride = 16; // 4 bytes of padding per row
    let src = frame_bytes(stride);
    let dib = rows_to_dib(&src, stride as usize, 3, 2, false);
    assert_eq!(dib.stride, 12);
    assert_eq!(dib.pixel(0, 1), Some([10, 110, 210, 255]));
    assert_eq!(dib.pixel(2, 0), Some([2, 102, 202, 255]));
    // Padding bytes must not leak into the image.
    assert!(dib.pixels.chunks_exact(4).all(|px| px[3] == 255));
}

#[test]
fn y_invert_flips_row_order() {
    let src = frame_bytes(12);
    let dib = rows_to_dib(&src, 12, 3, 2, true);
    // Source row 1 becomes output row 0.
    assert_eq!(dib.pixel(0, 0), Some([10, 110, 210, 255]));
    assert_eq!(dib.pixel(0, 1), Some([0, 100, 200, 255]));
}

fn info(name: &str) -> MonitorInfo {
    MonitorInfo {
        rect: Rect::new(7, 8, 100, 100),
        dpi_x: 96,
        dpi_y: 96,
        is_primary: false,
        device_name: String::from(name),
    }
}

#[test]
fn a_frame_is_captured_step_by_step() {
    let mut state = CaptureState::new(1);
    assert!(!state.is_done());
    let o = ShmOffer { format: ShmFormat::Xrgb8888, width: 3, height: 2, stride: 12 };
    let none: &[u8] = &[];
    assert_eq!(state.event(0, FrameEvent::Buffer { offer: offer(NV12) }, none), FrameAction::Nothing);
    assert_eq!(state.event(0, FrameEvent::Buffer { offer: o }, none), FrameAction::Nothing);
    assert_eq!(state.event(0, FrameEvent::BufferDone, none), FrameAction::Allocate { offer: o });
    assert_eq!(state.allocated(0, o, Ok(())), FrameAction::Copy);
    assert_eq!(state.event(0, FrameEvent::Flags { y_invert: true }, none), FrameAction::Nothing);
    let bytes = frame_bytes(12);
    assert_eq!(state.event(0, FrameEvent::Ready, &bytes), FrameAction::Destroy);
    assert!(state.is_done());
    let out = capture_all(vec![info("DP-1")], state).unwrap();
    assert_eq!(out[0].1, rows_to_dib(&bytes, 12, 3, 2, true));
    // The monitor takes the frame's size.
    assert_eq!(out[0].0.rect, Rect::new(7, 8, 3, 2));
}

fn failing(events: &[FrameEvent]) -> String {
    let mut state = CaptureState::new(1);
    for e in events {
        state.event(0, *e, &[]);
    }
    capture_all(vec![info("DP-1")], state).unwrap_err()
}

#[test]
fn each_capture_failure_is_reported() {
    let say = |e: FrameError| format!("capturing DP-1: {}", e.message());
    assert_eq!(failing(&[FrameEvent::BufferDone]), say(FrameError::NoFormat));
    assert_eq!(failing(&[FrameEvent::Ready]), say(FrameError::ReadyTooSoon));
    assert_eq!(failing(&[FrameEvent::Failed]), say(FrameError::Failed));
    assert_eq!(failing(&[FrameEvent::Other]), say(FrameError::Unresolved));
    let o = offer(ShmFormat::Argb8888);
    let mut state = CaptureState::new(1);
    state.event(0, FrameEvent::Buffer { offer: o }, &[]);
    state.event(0, FrameEvent::BufferDone, &[]);
    assert_eq!(state.allocated(0, o, Err(String::from("no memory"))), FrameAction::Destroy);
    assert_eq!(
        capture_all(vec![info("DP-1")], state).unwrap_err(),
        "capturing DP-1: allocating the frame buffer: no memory"
    );
    let mut state = CaptureState::new(1);
    state.event(0, FrameEvent::Buffer { offer: o }, &[]);
    state.event(0, FrameEvent::BufferDone, &[]);
    state.allocated(0, o, Ok(()));
    state.event(0, FrameEvent::Ready, &[1, 2, 3]);
    assert_eq!(
        capture_all(vec![info("DP-1")], state).unwrap_err(),
        say(FrameError::ShortBuffer)
    );
    assert_eq!(
        capture_all(vec![], CaptureState::new(0)).unwrap_err(),
        "no Wayland outputs to capture"
    );
}

// ---- clipboard ------------------------------------------------------------------

#[test]
fn serial_zero_is_rejected() {
    let err = require_serial(0).unwrap_err();
    assert!(err.message().contains("no input event"), "{}", err.message());
}

#[test]
fn nonzero_serial_passes_through() {
    assert_eq!(require_serial(1).unwrap(), 1);
    assert_eq!(require_serial(u32::MAX).unwrap(), u32::MAX);
}

#[test]
fn the_selection_serves_the_encoded_snip_until_cancelled() {
    let mut c = ClipboardShared::new();
    let frame = DibBuffer { width: 1, height: 1, stride: 4, pixels: vec![1, 2, 3, 255] };
    assert_eq!(c.copy_image_to_clipboard(&frame, 0, 7), Err(ClipboardError::NoInput));
    assert_eq!(
        c.copy_image_to_clipboard(&DibBuffer::new(0, 0), 5, 7),
        Err(ClipboardError::Encode(PngError::Empty))
    );
    assert_eq!(c.serve(MIME_IMAGE_PNG), None);
    assert_eq!(c.copy_image_to_clipboard(&frame, 5, 7), Ok(5));
    assert_eq!(c.serve(MIME_IMAGE_PNG), Some(&encode_png(&frame).unwrap()));
    assert_eq!(c.serve("text/plain"), None);
    c.cancelled(8);
    assert_eq!(c.source, Some(7));
    c.cancelled(7);
    assert_eq!(c.source, None);
}

// ---- commands -------------------------------------------------------------------

#[test]
fn socket_path_honors_xdg_runtime_dir() {
    assert_eq!(
        socket_path_from(Some("/run/user/1000")).as_deref(),
        Some("/run/user/1000/spotfreeze.sock")
    );
    assert_eq!(socket_path_from(None), None);
    assert_eq!(socket_path_from(Some("")), None);
}

#[test]
fn mode_command_round_trip() {
    let payload = send_mode_command(ModeCommand::Capture.as_str()).unwrap();
    assert_eq!(
        drain_mode_command(&[String::from(payload)]),
        Some(ModeCommand::Capture),
        "the capture command is received"
    );
    assert_eq!(drain_mode_command(&[]), None, "no command is replayed");
}

#[test]
fn unknown_payloads_are_ignored() {
    assert_eq!(drain_mode_command(&[String::from("explode\n")]), None);
}

#[test]
fn the_last_known_command_wins() {
    let sent: Vec<String> =
        ["capture", "spotlight", "nonsense"].iter().map(|s| s.to_string()).collect();
    assert_eq!(drain_mode_command(&sent), Some(ModeCommand::Spotlight));
    let toggles: Vec<String> =
        [TOGGLE_COMMAND, " toggle\n", "toggled", "capture"].iter().map(|s| s.to_string()).collect();
    assert_eq!(count_toggles(&toggles), 2);
    assert_eq!(
        send_mode_command("explode"),
        Err(String::from("unknown IPC mode command 'explode'"))
    );
}

// ---- shell ----------------------------------------------------------------------

fn draft_with_mode(w: u32, h: u32, scale: u32) -> OutputDraft {
    OutputDraft {
        geometry_pos: (10, 20),
        mode_size: Some((w, h)),
        scale,
        ..Default::default()
    }
}

#[test]
fn xdg_values_win_over_wl_output_fallbacks() {
    let mut d = draft_with_mode(3840, 2160, 2);
    d.xdg_pos = Some((1920, 0));
    d.xdg_size = Some((1920, 1080));
    assert_eq!(resolve_geometry(&d), ((1920, 0), (1920, 1080), 2));
}

#[test]
fn logical_size_falls_back_to_mode_divided_by_scale() {
    let d = draft_with_mode(3840, 2160, 2);
    assert_eq!(resolve_geometry(&d), ((10, 20), (1920, 1080), 2));
}

#[test]
fn unset_scale_is_one() {
    let d = draft_with_mode(1920, 1080, 0);
    assert_eq!(resolve_geometry(&d), ((10, 20), (1920, 1080), 1));
}

#[test]
fn missing_mode_yields_zero_size() {
    let d = OutputDraft::default();
    assert_eq!(resolve_geometry(&d), ((0, 0), (0, 0), 1));
}

#[test]
fn monitor_rect_is_logical_times_scale() {
    assert_eq!(
        physical_rect((1920, 0), (1920, 1080), 2),
        Rect::new(3840, 0, 3840, 2160)
    );
}

#[test]
fn monitor_rect_keeps_negative_logical_positions() {
    assert_eq!(
        physical_rect((-1920, 0), (1920, 1080), 1),
        Rect::new(-1920, 0, 1920, 1080)
    );
}

#[test]
fn monitor_rect_clamps_zero_scale() {
    assert_eq!(
        physical_rect((0, 0), (100, 50), 0),
        Rect::new(0, 0, 100, 50)
    );
}

#[test]
fn dpi_is_96_times_scale() {
    for (scale, dpi) in [(0, 96), (1, 96), (2, 192), (3, 288)] {
        let shell = Shell::connect(&[(1, draft_with_mode(1920, 1080, scale))]).ok().unwrap();
        assert_eq!(shell.outputs[0].monitor_info().dpi_x, dpi);
    }
}

#[test]
fn lock_path_lives_in_the_runtime_dir() {
    assert_eq!(lock_path("/run/user/1000"), "/run/user/1000/spotfreeze.lock");
}

#[test]
fn the_lock_needs_a_runtime_dir() {
    assert_eq!(
        acquire_instance_lock(Some("/run/user/1000")).as_deref(),
        Some("/run/user/1000/spotfreeze.lock")
    );
    assert_eq!(acquire_instance_lock(Some("")), None);
    assert_eq!(acquire_instance_lock(None), None);
}

fn global(name: u32, interface: &str, version: u32) -> GlobalInfo {
    GlobalInfo { name, interface: String::from(interface), version }
}

fn all_globals() -> Vec<GlobalInfo> {
    vec![
        global(1, "wl_compositor", 6),
        global(2, "wl_shm", 1),
        global(3, "wl_output", 3),
        global(4, "wl_seat", 9),
        global(5, "zwlr_layer_shell_v1", 3),
        global(6, "zwlr_screencopy_manager_v1", 3),
        global(7, "wl_data_device_manager", 3),
        global(8, "wl_output", 9),
    ]
}

#[test]
fn globals_are_bound_up_to_their_known_versions() {
    let v = plan_globals(&all_globals()).unwrap();
    assert_eq!((v.compositor, v.shm, v.seat), (4, 1, 8));
    assert_eq!((v.layer_shell, v.screencopy, v.data_device_manager), (3, 3, 3));
    assert_eq!(v.xdg_output_manager, None);
    assert_eq!(plan_outputs(&all_globals()), vec![(3, 3), (8, 4)]);
}

#[test]
fn connection_failures_are_named() {
    let mut globals = all_globals();
    globals.remove(4);
    let err = plan_globals(&globals).unwrap_err();
    assert_eq!(err, ConnectError::Missing(Required::LayerShell));
    assert!(err.message().starts_with("zwlr_layer_shell_v1 is not available"));
    assert!(err.message().contains("wlroots"));
    assert_eq!(
        ConnectError::Missing(Required::Shm).message(),
        "wl_shm is not available"
    );
    {
        assert_eq!(Shell::connect(&[]).err(), Some(ConnectError::NoOutputs));
        let err = Shell::connect(&[(3, draft_with_mode(8, 8, 1)), (9, OutputDraft::default())]);
        let err = err.err().unwrap();
        assert_eq!(err, ConnectError::NoUsableSize(9));
        assert_eq!(err.message(), "Wayland output 9 reported no usable size");
    }
}

#[test]
fn outputs_become_monitors() {
    let shell =
        Shell::connect(&[(3, draft_with_mode(8, 8, 1)), (4, draft_with_mode(6, 6, 2))]);
    let shell = shell.ok().unwrap();
    let infos = shell.make_capturer();
    assert_eq!(infos.len(), 2);
    assert!(!infos[0].is_primary && !infos[1].is_primary);
    assert_eq!(infos[0].device_name, "output-3");
    assert_eq!(infos[1].rect, Rect::new(20, 40, 6, 6));
    assert_eq!((infos[0].dpi_x, infos[1].dpi_x, infos[1].dpi_y), (96, 192, 192));
    assert_eq!(shell.output(1).ok().unwrap().global_name, 4);
    assert_eq!(
        shell.output(2).err().unwrap(),
        "monitor index 2 out of range (2 outputs)"
    );
}

#[test]
fn output_events_fill_the_draft() {
    let mut d = OutputDraft::default();
    for e in [
        OutputEvent::Geometry { x: 10, y: 20 },
        OutputEvent::Mode { current: false, width: 1, height: 1 },
        OutputEvent::Mode { current: true, width: 3840, height: 2160 },
        OutputEvent::Scale { factor: 2 },
        OutputEvent::Name { name: String::from("DP-1") },
        OutputEvent::LogicalPosition { x: 1, y: 2 },
        OutputEvent::LogicalSize { width: 100, height: 50 },
        OutputEvent::LogicalName { name: String::from("L") },
        OutputEvent::Other,
    ] {
        d.apply(e);
    }
    assert_eq!(d.geometry_pos, (10, 20));
    assert_eq!(d.mode_size, Some((3840, 2160)));
    assert_eq!(d.scale, 2);
    assert_eq!(d.wl_name.as_deref(), Some("DP-1"));
    assert_eq!(d.xdg_name.as_deref(), Some("L"));
    assert_eq!(resolve_geometry(&d), ((1, 2), (100, 50), 2));
}

#[test]
fn waiting_and_focus() {
    assert_eq!(ensure_keyboard_focus(&[], 4), FocusStep::Nothing);
    assert_eq!(ensure_keyboard_focus(&[false, true], 4), FocusStep::Nothing);
    assert_eq!(ensure_keyboard_focus(&[false, false], 4), FocusStep::OnDemand);
    assert_eq!(ensure_keyboard_focus(&[false], 3), FocusStep::Warn);
    {
        assert_eq!(pump_until(true, MAX_ROUNDTRIPS), PumpStep::Done);
        assert_eq!(pump_until(false, MAX_ROUNDTRIPS - 1), PumpStep::RoundTrip);
        assert_eq!(pump_until(false, MAX_ROUNDTRIPS), PumpStep::GiveUp);
    }
}

// ---- the application --------------------------------------------------------------

fn shot() -> Vec<(MonitorInfo, DibBuffer)> {
    vec![(
        MonitorInfo { rect: Rect::new(0, 0, 8, 8), ..info("DP-1") },
        DibBuffer::new(8, 8),
    )]
}

#[test]
fn the_toggle_freezes_and_unfreezes() {
    let mut app = AppState::new(AppSettings::default());
    assert_eq!(app.handle_intent(Intent::ToggleFreeze), IntentStep::Freeze);
    app.freeze(shot(), Some(Point::new(1, 1)));
    assert!(app.controller.is_frozen());
    assert_eq!(app.handle_intent(Intent::ToggleFreeze), IntentStep::Unfreeze);
    app.unfreeze();
    assert!(!app.controller.is_frozen());
    assert_eq!(app.handle_intent(Intent::EditSettings), IntentStep::OpenEditor);
    assert!(!app.exiting);
    assert_eq!(app.handle_intent(Intent::Exit), IntentStep::Quit);
    assert!(app.exiting);
}

#[test]
fn frozen_keys_act_through_the_plan() {
    let mut app = AppState::new(AppSettings::default());
    app.freeze(shot(), Some(Point::new(1, 1)));
    let snip = Intent::Frozen(FrozenAction::SetMode(ModeKind::Snip));
    assert_eq!(app.key_pressed(0x43, Modifiers::none()), Some(snip));
    assert_eq!(app.key_pressed(0x5a, Modifiers::none()), None);
    match app.apply_frozen_action(FrozenAction::SetMode(ModeKind::Snip), None, &[], &[]) {
        FrozenOutcome::Show(redraw) => assert_eq!(redraw.flashes, 3),
        FrozenOutcome::Copy(_) => panic!("expected a redraw"),
    }
    assert_eq!(app.controller.active_mode(), ModeKind::Snip);
    match app.apply_frozen_action(FrozenAction::Copy, Some(Point::new(1, 1)), &[], &[]) {
        FrozenOutcome::Copy(Some(frame)) => assert_eq!((frame.width, frame.height), (8, 8)),
        _ => panic!("expected a copy"),
    }
    assert!(!app.controller.is_frozen());
}

#[test]
fn mode_commands_freeze_first() {
    let mut app = AppState::new(AppSettings::default());
    let add = Intent::Frozen(FrozenAction::AddMode(ModeKind::Spotlight));
    let snip = Intent::Frozen(FrozenAction::SetMode(ModeKind::Snip));
    assert_eq!(app.commanded(ModeCommand::Spotlight), (true, add));
    app.freeze(shot(), None);
    assert_eq!(app.commanded(ModeCommand::Capture), (false, snip));
}

#[test]
fn reloading_rebinds_only_a_changed_toggle() {
    let mut app = AppState::new(AppSettings::default());
    assert_eq!(app.reload_settings(None, true), ReloadStep::KeepOld);
    let mut changed = AppSettings::default();
    changed.overlay.dim_opacity = 9;
    assert_eq!(app.reload_settings(Some(changed), true), ReloadStep::Applied);
    assert_eq!(app.settings.overlay.dim_opacity, 9);
    let f9 = HotkeyGesture::parse("Ctrl+F9").unwrap();
    changed.hotkeys.freeze_toggle = f9;
    assert_eq!(app.reload_settings(Some(changed), true), ReloadStep::Rebind(f9));
    assert_eq!(tooltip_text(&app.settings), "SpotFreeze — freeze: Ctrl+F9");
}

#[test]
fn the_program_runs_its_steps_in_order() {
    let mut step = RunStep::Lock;
    let mut seen = 0;
    while step != RunStep::Finished {
        step = run(step, StepOutcome::Done);
        seen += 1;
    }
    assert_eq!(seen, 8);
    assert_eq!(run(RunStep::FindSettings, StepOutcome::Error), RunStep::Failed);
    assert_eq!(run(RunStep::LoadSettings, StepOutcome::Error), RunStep::BindHotkey);
    assert_eq!(run(RunStep::Lock, StepOutcome::Busy), RunStep::AlreadyRunning);
    assert_eq!(run(RunStep::Connect, StepOutcome::Error), RunStep::Failed);
    // Without the hotkey or the tray the program still starts.
    assert_eq!(run(RunStep::BindHotkey, StepOutcome::Error), RunStep::ShowTray);
    assert_eq!(run(RunStep::ShowTray, StepOutcome::Error), RunStep::AddSources);
}

#[test]
fn the_editor_is_the_fallback() {
    let next = |p, e| open_in_editor(p, e);
    assert!(matches!(next(EditProgress::Begin, None), EditStep::Spawn(p) if p == "xdg-open"));
    let failed = EditProgress::TriedOpener { started: false };
    assert!(matches!(next(failed, Some("vi")), EditStep::Spawn(p) if p == "vi"));
    assert!(matches!(next(failed, None), EditStep::Unavailable));
    let opened = EditProgress::TriedOpener { started: true };
    assert!(matches!(next(opened, None), EditStep::Opened));
    let edited = EditProgress::TriedEditor { started: false };
    assert!(matches!(next(edited, Some("vi")), EditStep::Failed));
}

#[test]
fn the_macos_opener_has_no_fallback() {
    let next = open_in_editor_macos;
    assert!(matches!(next(EditProgress::Begin), EditStep::Spawn(p) if p == "open"));
    assert!(matches!(next(EditProgress::TriedOpener { started: true }), EditStep::Opened));
    assert!(matches!(next(EditProgress::TriedOpener { started: false }), EditStep::Failed));
}
