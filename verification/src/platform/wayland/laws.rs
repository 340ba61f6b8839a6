//! What the Wayland side promises: monitors, captured frames, commands and keys.
//!
//! The vocabulary here belongs to the statements alone: no operation is defined
//! by it.

use crate::capture::{DibBuffer, MonitorInfo};
use crate::geometry::Point;
use crate::hotkeys::frozen::{first_action, FrozenAction};
use crate::hotkeys::gesture::HotkeyGesture;
use crate::hotkeys::laws::{lemma_frozen_keys, with_shift};
use crate::overlay::modes::ModeKind;
use crate::overlay::controller::OverlayController;
use crate::platform::wayland::app::{
    step_after, AppState, FrozenOutcome, Intent, IntentStep, RunStep, StepOutcome,
};
use crate::platform::wayland::capture::{
    first_compatible, first_failure, sized, CaptureState, FrameAction, FrameError, FrameEvent,
    FrameProgress, ShmFormat, ShmOffer,
};
use crate::platform::wayland::ipc::{
    command_named, last_command, toggle_count, ModeCommand, TOGGLE_COMMAND,
};
use crate::platform::wayland::shell::{
    bound_version, display_name, first_missing, outputs_among, required_order, scaled_rect,
    version_of, GlobalInfo, OutputDraft, OutputEvent, OutputRecord, Required,
};
use crate::text::{is_space, trimmed};
use vstd::prelude::*;

verus! {

/// The formats whose bytes are blue, green, red and a fourth byte.
pub open spec fn is_bgra(offer: ShmOffer) -> bool {
    offer.format == ShmFormat::Argb8888 || offer.format == ShmFormat::Xrgb8888
}

/// The offer taken is the first in a usable format; none is taken only when
/// there is none.
pub proof fn lemma_first_usable_offer(offers: Seq<ShmOffer>)
    requires
        offers.len() <= usize::MAX,
    ensures
        match first_compatible(offers, 0) {
            Some(i) => i < offers.len() && is_bgra(offers[i as int]) && forall|k: int|
                0 <= k < i ==> !is_bgra(#[trigger] offers[k]),
            None => forall|k: int| 0 <= k < offers.len() ==> !is_bgra(#[trigger] offers[k]),
        },
{
    lemma_first_usable_from(offers, 0);
}

proof fn lemma_first_usable_from(offers: Seq<ShmOffer>, from: int)
    requires
        0 <= from <= offers.len() <= usize::MAX,
    ensures
        match first_compatible(offers, from) {
            Some(i) => from <= i < offers.len() && is_bgra(offers[i as int]) && forall|k: int|
                from <= k < i ==> !is_bgra(#[trigger] offers[k]),
            None => forall|k: int| from <= k < offers.len() ==> !is_bgra(#[trigger] offers[k]),
        },
    decreases offers.len() - from,
{
    if from < offers.len() && !offers[from].compatible() {
        lemma_first_usable_from(offers, from + 1);
    }
}

/// A frame resolves once: whatever comes later, its outcome stays.
pub proof fn lemma_outcome_stays(
    before: FrameProgress,
    event: FrameEvent,
    mapping: Seq<u8>,
    after: FrameProgress,
    action: FrameAction,
)
    requires
        before.outcome is Some,
        CaptureState::event_outcome(before, event, mapping, after, action),
    ensures
        after.outcome == before.outcome,
        action != FrameAction::Destroy,
{
}

/// A completed copy gives the image in the buffer that was accepted for it:
/// colours row by row, upside down where the compositor said so, and opaque.
pub proof fn lemma_ready_gives_the_image(
    before: FrameProgress,
    mapping: Seq<u8>,
    after: FrameProgress,
    action: FrameAction,
    x: int,
    y: int,
)
    requires
        before.outcome is None,
        before.pending is Some,
        CaptureState::event_outcome(before, FrameEvent::Ready, mapping, after, action),
        ({
            let o = before.pending->0;
            &&& 0 <= x < o.width <= 0x3fff_ffff
            &&& 0 <= y < o.height
            &&& o.width * 4 * o.height <= usize::MAX
            &&& (o.height - 1) * o.stride + o.width * 4 <= mapping.len()
        }),
    ensures
        action == FrameAction::Destroy,
        after.outcome matches Some(Ok(dib)) && {
            let o = before.pending->0;
            let row = if before.y_invert {
                o.height - 1 - y
            } else {
                y
            };
            &&& dib.width == o.width
            &&& dib.height == o.height
            &&& dib.chan(x, y, 0) == mapping[row * o.stride + x * 4]
            &&& dib.chan(x, y, 1) == mapping[row * o.stride + x * 4 + 1]
            &&& dib.chan(x, y, 2) == mapping[row * o.stride + x * 4 + 2]
            &&& dib.chan(x, y, 3) == 255
        },
{
    let dib = after.outcome->0->Ok_0;
    assert(dib.has(x, y));
    assert(dib.chan(x, y, 0) == dib.chan(x, y, 0));
    assert(dib.chan(x, y, 1) == dib.chan(x, y, 1));
    assert(dib.chan(x, y, 2) == dib.chan(x, y, 2));
    assert(dib.chan(x, y, 3) == 255);
}

/// A capture fails with the first frame that has no image; a frame that never
/// resolved counts as one.
pub proof fn lemma_first_failure(frames: Seq<FrameProgress>)
    ensures
        match first_failure(frames, 0) {
            Some(f) => 0 <= f.0 < frames.len() && (forall|k: int|
                0 <= k < f.0 ==> (#[trigger] frames[k]).outcome matches Some(Ok(_))) && (
            match frames[f.0].outcome {
                Some(Ok(_)) => false,
                Some(Err(e)) => f.1 == e,
                None => f.1 == FrameError::Unresolved,
            }),
            None => forall|k: int|
                0 <= k < frames.len() ==> (#[trigger] frames[k]).outcome matches Some(Ok(_)),
        },
{
    lemma_first_failure_from(frames, 0);
}

proof fn lemma_first_failure_from(frames: Seq<FrameProgress>, from: int)
    requires
        0 <= from <= frames.len(),
    ensures
        match first_failure(frames, from) {
            Some(f) => from <= f.0 < frames.len() && (forall|k: int|
                from <= k < f.0 ==> (#[trigger] frames[k]).outcome matches Some(Ok(_))) && (
            match frames[f.0].outcome {
                Some(Ok(_)) => false,
                Some(Err(e)) => f.1 == e,
                None => f.1 == FrameError::Unresolved,
            }),
            None => forall|k: int|
                from <= k < frames.len() ==> (#[trigger] frames[k]).outcome matches Some(Ok(_)),
        },
    decreases frames.len() - from,
{
    if from < frames.len() {
        lemma_first_failure_from(frames, from + 1);
    }
}

/// A captured monitor keeps its place and its name, and has its frame's size.
pub proof fn lemma_captured_monitor(info: MonitorInfo, dib: DibBuffer)
    ensures
        sized(info, dib).rect.x == info.rect.x,
        sized(info, dib).rect.y == info.rect.y,
        sized(info, dib).rect.width == dib.width,
        sized(info, dib).rect.height == dib.height,
        sized(info, dib).device_name == info.device_name,
        sized(info, dib).dpi_x == info.dpi_x,
        sized(info, dib).dpi_y == info.dpi_y,
{
}

/// A monitor's rectangle is its logical place and size times its scale, and its
/// resolution 96 dots per inch times it, wherever these fit 32 bits.
pub proof fn lemma_monitor_is_scaled(record: OutputRecord)
    requires
        record.scale >= 1,
        i32::MIN <= record.logical_pos.0 * record.scale <= i32::MAX,
        i32::MIN <= record.logical_pos.1 * record.scale <= i32::MAX,
        record.logical_size.0 * record.scale <= u32::MAX,
        record.logical_size.1 * record.scale <= u32::MAX,
        96 * record.scale <= u32::MAX,
    ensures
        ({
            let r = scaled_rect(record.logical_pos, record.logical_size, record.scale);
            &&& r.x == record.logical_pos.0 * record.scale
            &&& r.y == record.logical_pos.1 * record.scale
            &&& r.width == record.logical_size.0 * record.scale
            &&& r.height == record.logical_size.1 * record.scale
        }),
        record.dpi() == 96 * record.scale,
{
    assert(0 <= record.logical_size.0 * record.scale) by (nonlinear_arith)
        requires
            0 <= record.logical_size.0,
            0 <= record.scale,
    ;
    assert(0 <= record.logical_size.1 * record.scale) by (nonlinear_arith)
        requires
            0 <= record.logical_size.1,
            0 <= record.scale,
    ;
}

/// The current mode is the output's size, whatever other modes are announced
/// before or after it.
pub proof fn lemma_current_mode_wins(
    draft: OutputDraft,
    w: i32,
    h: i32,
    other_w: i32,
    other_h: i32,
)
    requires
        w > 0,
        h > 0,
    ensures
        ({
            let other = OutputEvent::Mode { current: false, width: other_w, height: other_h };
            let current = OutputEvent::Mode { current: true, width: w, height: h };
            &&& draft.after(current).after(other).mode_size == Some((w as u32, h as u32))
            &&& draft.after(other).after(current).mode_size == Some((w as u32, h as u32))
        }),
{
}

/// What an output says of itself is kept apart: each event changes its own part
/// of the draft alone.
pub proof fn lemma_output_events(draft: OutputDraft, x: i32, y: i32, name: String)
    ensures
        draft.after(OutputEvent::Geometry { x, y }) == (OutputDraft { geometry_pos: (x, y), ..draft }),
        draft.after(OutputEvent::LogicalPosition { x, y }) == (OutputDraft {
            xdg_pos: Some((x, y)),
            ..draft
        }),
        x > 0 && y > 0 ==> draft.after(OutputEvent::LogicalSize { width: x, height: y }) == (
        OutputDraft { xdg_size: Some((x as u32, y as u32)), ..draft }),
        x >= 1 ==> draft.after(OutputEvent::Scale { factor: x }) == (OutputDraft {
            scale: x as u32,
            ..draft
        }),
        draft.after(OutputEvent::Name { name }) == (OutputDraft { wl_name: Some(name), ..draft }),
        draft.after(OutputEvent::LogicalName { name }) == (OutputDraft {
            xdg_name: Some(name),
            ..draft
        }),
{
}

/// The logical geometry wins where it is known; otherwise the output's own
/// position counts, and its mode divided by its scale.
pub proof fn lemma_logical_geometry(draft: OutputDraft)
    ensures
        draft.xdg_pos matches Some(p) ==> draft.logical_pos() == p,
        draft.xdg_pos is None ==> draft.logical_pos() == draft.geometry_pos,
        draft.xdg_size matches Some(s) ==> draft.logical_size() == s,
        draft.xdg_size is None && draft.mode_size is None ==> draft.logical_size() == (0u32, 0u32),
        draft.xdg_size is None && draft.mode_size is Some && draft.scale >= 1 ==> {
            let m = draft.mode_size->0;
            let s = draft.logical_size();
            &&& s.0 * draft.scale <= m.0 < (s.0 + 1) * draft.scale
            &&& s.1 * draft.scale <= m.1 < (s.1 + 1) * draft.scale
        },
        draft.scale <= 1 ==> draft.real_scale() == 1,
        draft.scale >= 1 ==> draft.real_scale() == draft.scale,
{
    if draft.xdg_size is None && draft.mode_size is Some && draft.scale >= 1 {
        let m = draft.mode_size->0;
        lemma_quotient(m.0 as int, draft.scale as int);
        lemma_quotient(m.1 as int, draft.scale as int);
    }
}

proof fn lemma_quotient(a: int, b: int)
    requires
        0 <= a,
        1 <= b,
    ensures
        (a / b) * b <= a < (a / b + 1) * b,
        0 <= a / b <= a,
{
    vstd::arithmetic::div_mod::lemma_fundamental_div_mod(a, b);
    let q = a / b;
    assert(0 <= a % b < b) by (nonlinear_arith)
        requires
            1 <= b,
    ;
    assert(q * b <= a < (q + 1) * b && 0 <= q <= a) by (nonlinear_arith)
        requires
            a == b * q + a % b,
            0 <= a % b < b,
            0 <= a,
            1 <= b,
    ;
}

/// An output is called what the logical output is called, else what it calls
/// itself.
pub proof fn lemma_output_names(draft: OutputDraft, global_name: u32)
    ensures
        draft.xdg_name matches Some(n) ==> display_name(draft, global_name) == n@,
        draft.xdg_name is None && draft.wl_name is Some ==> display_name(draft, global_name)
            == draft.wl_name->0@,
{
}

/// A global is bound at the lower of the version advertised for it and the
/// highest one that is known; the first one advertised counts.
pub proof fn lemma_bound_version(globals: Seq<GlobalInfo>, required: Required, i: int)
    requires
        0 <= i < globals.len(),
        globals[i].interface@ == required.interface(),
        forall|k: int|
            0 <= k < i ==> (#[trigger] globals[k]).interface@ != required.interface(),
    ensures
        globals[i].version == 0 ==> version_of(globals, required) is None,
        0 < globals[i].version <= required.max_version() ==> version_of(globals, required) == Some(
            globals[i].version,
        ),
        globals[i].version > required.max_version() ==> version_of(globals, required) == Some(
            required.max_version(),
        ),
{
    lemma_bound_version_from(globals, required, 0, i);
}

proof fn lemma_bound_version_from(globals: Seq<GlobalInfo>, required: Required, from: int, i: int)
    requires
        0 <= from <= i < globals.len(),
        globals[i].interface@ == required.interface(),
        forall|k: int|
            from <= k < i ==> (#[trigger] globals[k]).interface@ != required.interface(),
    ensures
        bound_version(globals, from, required.interface(), required.max_version()) == bound_version(
            globals,
            i,
            required.interface(),
            required.max_version(),
        ),
    decreases i - from,
{
    if from < i {
        assert(globals[from].interface@ != required.interface());
        lemma_bound_version_from(globals, required, from + 1, i);
    }
}

/// A connection needs the compositor, shared memory, a seat, layer surfaces,
/// screen copies and the clipboard, and nothing else: the first of these that is
/// missing is reported.
pub proof fn lemma_needed_globals(globals: Seq<GlobalInfo>)
    ensures
        first_missing(globals, 0) == (if version_of(globals, Required::Compositor) is None {
            Some(Required::Compositor)
        } else if version_of(globals, Required::Shm) is None {
            Some(Required::Shm)
        } else if version_of(globals, Required::Seat) is None {
            Some(Required::Seat)
        } else if version_of(globals, Required::LayerShell) is None {
            Some(Required::LayerShell)
        } else if version_of(globals, Required::Screencopy) is None {
            Some(Required::Screencopy)
        } else if version_of(globals, Required::DataDeviceManager) is None {
            Some(Required::DataDeviceManager)
        } else {
            None
        }),
{
    reveal_with_fuel(first_missing, 7);
    assert(required_order()[0] == Required::Compositor);
    assert(required_order()[1] == Required::Shm);
    assert(required_order()[2] == Required::Seat);
    assert(required_order()[3] == Required::LayerShell);
    assert(required_order()[4] == Required::Screencopy);
    assert(required_order()[5] == Required::DataDeviceManager);
}

/// Every advertised output is bound, and nothing else; in the order advertised.
pub proof fn lemma_every_output_is_bound(globals: Seq<GlobalInfo>, last: GlobalInfo)
    ensures
        outputs_among(Seq::empty(), 0).len() == 0,
        last.interface@ == "wl_output"@ && last.version <= 4 ==> outputs_among(
            globals.push(last),
            globals.len() as int + 1,
        ) == outputs_among(globals, globals.len() as int).push((last.name, last.version)),
        last.interface@ == "wl_output"@ && last.version > 4 ==> outputs_among(
            globals.push(last),
            globals.len() as int + 1,
        ) == outputs_among(globals, globals.len() as int).push((last.name, 4u32)),
        last.interface@ != "wl_output"@ ==> outputs_among(globals.push(last), globals.len() as int + 1)
            == outputs_among(globals, globals.len() as int),
{
    lemma_outputs_prefix(globals, last, globals.len() as int);
}

proof fn lemma_outputs_prefix(globals: Seq<GlobalInfo>, last: GlobalInfo, n: int)
    requires
        0 <= n <= globals.len(),
    ensures
        outputs_among(globals.push(last), n) == outputs_among(globals, n),
    decreases n,
{
    if n > 0 {
        lemma_outputs_prefix(globals, last, n - 1);
        assert(globals.push(last)[n - 1] == globals[n - 1]);
    }
}

/// White space around a word is taken off, and nothing else.
pub proof fn lemma_trimming(front: Seq<char>, word: Seq<char>, back: Seq<char>)
    requires
        forall|i: int| 0 <= i < front.len() ==> is_space(#[trigger] front[i]),
        forall|i: int| 0 <= i < back.len() ==> is_space(#[trigger] back[i]),
        word.len() > 0,
        !is_space(word[0]),
        !is_space(word.last()),
    ensures
        trimmed(front + word + back) == word,
{
    let text = front + word + back;
    let n = front.len() as int;
    assert forall|i: int| 0 <= i < n implies is_space(#[trigger] text[i]) by {
        assert(text[i] == front[i]);
    }
    assert(text[n] == word[0]);
    crate::text::lemma_leading_spaces(text, n);
    let rest = text.skip(n);
    assert(rest =~= word + back);
    let b = back.len() as int;
    assert forall|i: int| rest.len() - b <= i < rest.len() implies is_space(#[trigger] rest[i]) by {
        assert(rest[i] == back[i - word.len()]);
    }
    assert(rest[rest.len() - b - 1] == word.last());
    crate::text::lemma_trailing_spaces(rest, b);
    assert(rest.take(rest.len() - b) =~= word);
}

/// Of several commands the last one that is understood counts.
pub proof fn lemma_last_command_counts(payloads: Seq<String>, last: String)
    ensures
        last_command(Seq::empty(), 0) is None,
        last_command(payloads.push(last), payloads.len() as int + 1) == (match command_named(
            trimmed(last@),
        ) {
            Some(c) => Some(c),
            None => last_command(payloads, payloads.len() as int),
        }),
        command_named("spotlight"@) == Some(ModeCommand::Spotlight),
        command_named("capture"@) == Some(ModeCommand::Capture),
{
    reveal_strlit("spotlight");
    reveal_strlit("capture");
    assert("spotlight"@.len() != "capture"@.len());
    lemma_commands_prefix(payloads, last, payloads.len() as int);
}

proof fn lemma_commands_prefix(payloads: Seq<String>, last: String, n: int)
    requires
        0 <= n <= payloads.len(),
    ensures
        last_command(payloads.push(last), n) == last_command(payloads, n),
        toggle_count(payloads.push(last), n) == toggle_count(payloads, n),
    decreases n,
{
    if n > 0 {
        lemma_commands_prefix(payloads, last, n - 1);
        assert(payloads.push(last)[n - 1] == payloads[n - 1]);
    }
}

/// Every toggle request counts once; other payloads do not count.
pub proof fn lemma_every_toggle_counts(payloads: Seq<String>, last: String)
    ensures
        toggle_count(Seq::empty(), 0) == 0,
        trimmed(last@) == "toggle"@ ==> toggle_count(payloads.push(last), payloads.len() as int + 1)
            == toggle_count(payloads, payloads.len() as int) + 1,
        trimmed(last@) != "toggle"@ ==> toggle_count(payloads.push(last), payloads.len() as int + 1)
            == toggle_count(payloads, payloads.len() as int),
{
    lemma_commands_prefix(payloads, last, payloads.len() as int);
    assert(TOGGLE_COMMAND@ == "toggle"@);
}

/// The toggle ends a session that is running and begins one otherwise.
pub proof fn lemma_toggle(app: AppState)
    ensures
        app.controller.session is Some ==> app.step_of(Intent::ToggleFreeze) == IntentStep::Unfreeze,
        app.controller.session is None ==> app.step_of(Intent::ToggleFreeze) == IntentStep::Freeze,
        app.step_of(Intent::EditSettings) == IntentStep::OpenEditor,
        app.step_of(Intent::Exit) == IntentStep::Quit,
        app.step_of(Intent::Frozen(FrozenAction::Copy)) == IntentStep::Apply(FrozenAction::Copy),
{
}

/// In a session the keys are those of the settings it was frozen with, whatever
/// was loaded since.
pub proof fn lemma_keys_of_the_session(app: AppState, g: HotkeyGesture)
    requires
        app.wf(),
        app.controller.session is Some,
    ensures
        ({
            let h = app.controller.session->0.settings.hotkeys;
            first_action(app.frozen_plan@, g) == (if g == h.mode_spotlight {
                Some(FrozenAction::SetMode(ModeKind::Spotlight))
            } else if g == h.mode_snip {
                Some(FrozenAction::SetMode(ModeKind::Snip))
            } else if g == h.reset_zoom {
                Some(FrozenAction::ResetZoom)
            } else if g == h.snip_copy {
                Some(FrozenAction::Copy)
            } else if g == h.cancel {
                Some(FrozenAction::Cancel)
            } else if g == h.freeze_toggle {
                None
            } else if with_shift(g, h.mode_spotlight) {
                Some(FrozenAction::AddMode(ModeKind::Spotlight))
            } else if with_shift(g, h.mode_snip) {
                Some(FrozenAction::AddMode(ModeKind::Snip))
            } else {
                None
            })
        }),
{
    lemma_frozen_keys(app.controller.session->0.settings.hotkeys, g);
}

/// When everything goes well the program locks, connects, finds and loads its
/// settings, binds its hotkey, shows its icon, registers its sources, runs and
/// ends. A lock, a connection, a settings place, sources or a loop that fails
/// ends it with an error.
pub proof fn lemma_run_order(any: StepOutcome)
    ensures
        step_after(RunStep::Lock, StepOutcome::Done) == RunStep::Connect,
        step_after(RunStep::Connect, StepOutcome::Done) == RunStep::FindSettings,
        step_after(RunStep::FindSettings, StepOutcome::Done) == RunStep::LoadSettings,
        step_after(RunStep::LoadSettings, any) == RunStep::BindHotkey,
        step_after(RunStep::BindHotkey, any) == RunStep::ShowTray,
        step_after(RunStep::ShowTray, any) == RunStep::AddSources,
        step_after(RunStep::AddSources, StepOutcome::Done) == RunStep::Loop,
        step_after(RunStep::Loop, StepOutcome::Done) == RunStep::Finished,
        step_after(RunStep::Lock, StepOutcome::Error) == RunStep::Failed,
        step_after(RunStep::Connect, StepOutcome::Error) == RunStep::Failed,
        step_after(RunStep::FindSettings, StepOutcome::Error) == RunStep::Failed,
        step_after(RunStep::AddSources, StepOutcome::Error) == RunStep::Failed,
        step_after(RunStep::Loop, StepOutcome::Error) == RunStep::Failed,
        step_after(RunStep::Finished, any) == RunStep::Finished,
        step_after(RunStep::Failed, any) == RunStep::Failed,
{
}

/// The copy key ends the session with an image; the cancel key ends it without
/// one, or leaves capture mode; a mode key leaves that mode on; the reset key
/// leaves the magnification at 1.0. Only the first two can end a session.
pub proof fn lemma_actions(
    before: OverlayController,
    action: FrozenAction,
    cursor: Option<Point>,
    cols: Seq<i32>,
    rows: Seq<i32>,
    after: OverlayController,
    r: FrozenOutcome,
)
    requires
        before.wf(),
        before.session matches Some(s) && 0 < s.count() <= usize::MAX,
        AppState::applied_as(before, action, cursor, cols, rows, after, r),
    ensures
        action == FrozenAction::Copy ==> after.session is None && (r matches FrozenOutcome::Copy(
            Some(_),
        )),
        action == FrozenAction::Cancel && before.session->0.base is None ==> after.session is None
            && (r matches FrozenOutcome::Show(_)),
        action == FrozenAction::Cancel && before.session->0.base is Some ==> (
        after.session matches Some(t) && t.base is None && t.originals
            == before.session->0.base->0),
        action != FrozenAction::Copy && action != FrozenAction::Cancel ==> after.session is Some,
        action == FrozenAction::SetMode(ModeKind::Spotlight) ==> (after.session matches Some(t)
            && t.modes.spotlight is Some && t.modes.zoom is None && t.modes.snip is None),
        action == FrozenAction::SetMode(ModeKind::Snip) ==> (after.session matches Some(t)
            && t.modes.snip is Some && t.base is Some),
        action == FrozenAction::AddMode(ModeKind::Spotlight) ==> (after.session matches Some(t)
            && t.modes.spotlight is Some && (t.modes.zoom is Some <==> before.session->0.modes.zoom
            is Some)),
        action == FrozenAction::AddMode(ModeKind::Snip) ==> (after.session matches Some(t)
            && t.modes.snip is Some),
        action == FrozenAction::ResetZoom ==> (after.session matches Some(t) && (
        t.modes.zoom matches Some(z) ==> z.zoom.bits == 0x3f80_0000)),
{
    let s = before.session->0;
    crate::overlay::controller::lemma_plan_names_a_monitor(
        s.modes.selection(),
        match cursor {
            Some(p) => p,
            None => Point { x: 0, y: 0 },
        },
        crate::overlay::controller::rects_of(s.monitors@),
    );
}

/// Each intent leads to its own step, whatever the session; only the freeze
/// toggle looks at it.
pub proof fn lemma_intents(app: AppState, action: FrozenAction)
    ensures
        app.step_of(Intent::EditSettings) == IntentStep::OpenEditor,
        app.step_of(Intent::Exit) == IntentStep::Quit,
        app.step_of(Intent::Frozen(action)) == IntentStep::Apply(action),
{
}

/// The words on the socket name their commands and nothing else does.
pub proof fn lemma_command_words(word: Seq<char>)
    ensures
        command_named(word) == Some(ModeCommand::Spotlight) <==> word == "spotlight"@,
        command_named(word) == Some(ModeCommand::Capture) <==> word == "capture"@,
        ModeCommand::Spotlight.word() == "spotlight"@,
        ModeCommand::Capture.word() == "capture"@,
{
    reveal_strlit("spotlight");
    reveal_strlit("capture");
    assert("spotlight"@.len() == 9 && "capture"@.len() == 7);
}

} // verus!
