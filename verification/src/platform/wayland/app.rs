//! The Wayland application: what each intent, key and settings change leads
//! to, and the order of start-up. The event loop and every system call are the
//! caller's part.

use crate::capture::{DibBuffer, MonitorInfo};
use crate::geometry::Point;
use crate::hotkeys::frozen::{
    first_action, match_frozen_key, plan_frozen_registrations, planned, FrozenAction,
    FrozenRegistration,
};
use crate::hotkeys::gesture::{HotkeyGesture, Modifiers};
use crate::overlay::controller::{CopyPlan, OverlayController, Redraw};
use crate::overlay::modes::ModeKind;
use crate::platform::wayland::ipc::ModeCommand;
use crate::settings::model::AppSettings;
use crate::text::push_text;
use vstd::prelude::*;

verus! {

/// What reaches the event loop from the hotkey, the tray and the overlay keys.
#[derive(Clone, Copy, PartialEq, Eq, Structural, Debug)]
pub enum Intent {
    /// Freeze or unfreeze.
    ToggleFreeze,
    /// Open the settings file.
    EditSettings,
    /// Quit.
    Exit,
    /// A frozen-mode key matched the plan.
    Frozen(FrozenAction),
}

/// What the event loop does for an intent.
#[derive(Clone, Copy, PartialEq, Eq, Structural, Debug)]
pub enum IntentStep {
    /// End the freeze: [`AppState::unfreeze`].
    Unfreeze,
    /// Reload the settings, capture, then [`AppState::freeze`].
    Freeze,
    /// Open the settings file in an editor.
    OpenEditor,
    /// [`AppState::apply_frozen_action`].
    Apply(FrozenAction),
    /// Leave the event loop.
    Quit,
}

/// What a frozen-mode action leads to.
pub enum FrozenOutcome {
    /// Frames to show.
    Show(Redraw),
    /// An image for the clipboard; the session is over. `None` = nothing to
    /// copy.
    Copy(Option<DibBuffer>),
}

/// What to do after the settings file was read again.
#[derive(Clone, Copy, PartialEq, Eq, Structural, Debug)]
pub enum ReloadStep {
    /// The file was unusable; the settings stay as they are.
    KeepOld,
    /// The settings were taken over.
    Applied,
    /// The settings were taken over and the freeze hotkey is to be bound to
    /// this gesture.
    Rebind(HotkeyGesture),
}

/// The application's state.
pub struct AppState {
    pub settings: AppSettings,
    pub controller: OverlayController,
    /// The frozen-mode plan of the session; empty while not frozen.
    pub frozen_plan: Vec<FrozenRegistration>,
    pub exiting: bool,
}

impl AppState {
    /// No key is matched outside a session, and within one the plan is that of
    /// the session's settings.
    pub open spec fn wf(self) -> bool {
        &&& self.controller.wf()
        &&& match self.controller.session {
            Some(s) => self.frozen_plan@ == planned(s.settings.hotkeys),
            None => self.frozen_plan@.len() == 0,
        }
    }

    pub fn new(settings: AppSettings) -> (r: Self)
        ensures
            r.wf(),
            r.settings == settings,
            r.controller.session is None,
            !r.exiting,
    {
        Self {
            settings,
            controller: OverlayController::new(),
            frozen_plan: Vec::new(),
            exiting: false,
        }
    }

    /// The step an intent leads to.
    pub open spec fn step_of(self, intent: Intent) -> IntentStep {
        match intent {
            Intent::ToggleFreeze => if self.controller.session is Some {
                IntentStep::Unfreeze
            } else {
                IntentStep::Freeze
            },
            Intent::EditSettings => IntentStep::OpenEditor,
            Intent::Frozen(action) => IntentStep::Apply(action),
            Intent::Exit => IntentStep::Quit,
        }
    }

    /// Decide what an intent leads to; quitting is noted at once.
    pub fn handle_intent(&mut self, intent: Intent) -> (r: IntentStep)
        requires
            old(self).wf(),
        ensures
            final(self).wf(),
            r == old(self).step_of(intent),
            *final(self) == (AppState {
                exiting: old(self).exiting || intent == Intent::Exit,
                ..*old(self)
            }),
    {
        match intent {
            Intent::ToggleFreeze => {
                if self.controller.is_frozen() {
                    IntentStep::Unfreeze
                } else {
                    IntentStep::Freeze
                }
            },
            Intent::EditSettings => IntentStep::OpenEditor,
            Intent::Frozen(action) => IntentStep::Apply(action),
            Intent::Exit => {
                self.exiting = true;
                IntentStep::Quit
            },
        }
    }

    /// The intent of a key pressed on an overlay, if the plan has one.
    pub fn key_pressed(&self, vk: u32, modifiers: Modifiers) -> (r: Option<Intent>)
        ensures
            r == (match first_action(self.frozen_plan@, HotkeyGesture { modifiers, vk }) {
                Some(action) => Some(Intent::Frozen(action)),
                None => None,
            }),
    {
        match match_frozen_key(
            self.frozen_plan.as_slice(),
            HotkeyGesture::new(modifiers, vk),
        ) {
            Some(action) => Some(Intent::Frozen(action)),
            None => None,
        }
    }

    /// What a mode command leads to: whether to freeze first, and the intent
    /// that follows once the screen is frozen. The spotlight is added as a
    /// layer; capture is a full switch.
    pub fn commanded(&self, command: ModeCommand) -> (r: (bool, Intent))
        ensures
            r.0 == (self.controller.session is None),
            r.1 == Intent::Frozen(
                match command {
                    ModeCommand::Spotlight => FrozenAction::AddMode(ModeKind::Spotlight),
                    ModeCommand::Capture => FrozenAction::SetMode(ModeKind::Snip),
                },
            ),
    {
        let action = match command {
            ModeCommand::Spotlight => FrozenAction::AddMode(ModeKind::Spotlight),
            ModeCommand::Capture => FrozenAction::SetMode(ModeKind::Snip),
        };
        (!self.controller.is_frozen(), Intent::Frozen(action))
    }

    /// Take over re-read settings: `None` = the file was unusable. A changed
    /// freeze gesture is to be bound anew when a hotkey is bound at all.
    pub fn reload_settings(&mut self, loaded: Option<AppSettings>, hotkey_bound: bool) -> (r:
        ReloadStep)
        requires
            old(self).wf(),
        ensures
            final(self).wf(),
            match loaded {
                None => *final(self) == *old(self) && r == ReloadStep::KeepOld,
                Some(s) => {
                    &&& *final(self) == (AppState { settings: s, ..*old(self) })
                    &&& r == (if hotkey_bound && s.hotkeys.freeze_toggle
                        != old(self).settings.hotkeys.freeze_toggle {
                        ReloadStep::Rebind(s.hotkeys.freeze_toggle)
                    } else {
                        ReloadStep::Applied
                    })
                },
            },
    {
        match loaded {
            None => ReloadStep::KeepOld,
            Some(s) => {
                let changed: bool = s.hotkeys.freeze_toggle != self.settings.hotkeys.freeze_toggle;
                self.settings = s;
                if changed && hotkey_bound {
                    ReloadStep::Rebind(s.hotkeys.freeze_toggle)
                } else {
                    ReloadStep::Applied
                }
            },
        }
    }

    /// Begin a session with the captured frames and plan its keys. Nothing
    /// happens when one is running.
    pub fn freeze(&mut self, captured: Vec<(MonitorInfo, DibBuffer)>, cursor: Option<Point>) -> (r:
        Redraw)
        requires
            old(self).wf(),
            forall|i: int| 0 <= i < captured@.len() ==> (#[trigger] captured@[i]).1.wf(),
        ensures
            final(self).wf(),
            final(self).settings == old(self).settings,
            final(self).exiting == old(self).exiting,
            OverlayController::froze(
                old(self).controller,
                captured@,
                old(self).settings,
                cursor,
                final(self).controller,
                r,
            ),
    {
        if self.controller.is_frozen() {
            return Redraw::none();
        }
        let plan = plan_frozen_registrations(&self.settings.hotkeys);
        let redraw = self.controller.freeze(captured, &self.settings, cursor);
        self.frozen_plan = plan;
        redraw
    }

    /// Forget the plan once the session is over.
    fn drop_stale_plan(&mut self)
        requires
            old(self).controller.wf(),
            old(self).controller.session matches Some(s) ==> old(self).frozen_plan@ == planned(
                s.settings.hotkeys,
            ),
        ensures
            final(self).wf(),
            final(self).settings == old(self).settings,
            final(self).controller == old(self).controller,
            final(self).exiting == old(self).exiting,
            old(self).controller.session is Some ==> final(self).frozen_plan
                == old(self).frozen_plan,
    {
        if !self.controller.is_frozen() {
            self.frozen_plan = Vec::new();
        }
    }

    /// End the session, or back out of capture mode. The plan goes with the
    /// session.
    pub fn unfreeze(&mut self) -> (r: Redraw)
        requires
            old(self).wf(),
        ensures
            final(self).wf(),
            final(self).settings == old(self).settings,
            final(self).exiting == old(self).exiting,
            OverlayController::unfroze(old(self).controller, final(self).controller, r),
    {
        let redraw = self.controller.unfreeze();
        self.drop_stale_plan();
        redraw
    }

    /// What a frozen-mode action makes of the controller, and what it leads to.
    pub open spec fn applied_as(
        before: OverlayController,
        action: FrozenAction,
        cursor: Option<Point>,
        cols: Seq<i32>,
        rows: Seq<i32>,
        after: OverlayController,
        r: FrozenOutcome,
    ) -> bool {
        match action {
            FrozenAction::Copy => r matches FrozenOutcome::Copy(image)
                && OverlayController::copied_out(before, cursor, cols, rows, after, image),
            FrozenAction::Cancel => r matches FrozenOutcome::Show(redraw)
                && OverlayController::unfroze(before, after, redraw),
            FrozenAction::SetMode(kind) => r matches FrozenOutcome::Show(redraw)
                && OverlayController::mode_set(before, kind, cursor, cols, rows, after, redraw),
            FrozenAction::AddMode(kind) => r matches FrozenOutcome::Show(redraw)
                && OverlayController::mode_added(before, kind, cursor, after, redraw),
            FrozenAction::ResetZoom => r matches FrozenOutcome::Show(redraw)
                && OverlayController::view_reset(before, after, redraw),
        }
    }

    /// Apply a frozen-mode action. For a copy, `cols` and `rows` map the
    /// magnified view of the planned monitor (see
    /// [`OverlayController::copy_plan`]). Outside a session nothing is shown
    /// or copied.
    pub fn apply_frozen_action(
        &mut self,
        action: FrozenAction,
        cursor: Option<Point>,
        cols: &[i32],
        rows: &[i32],
    ) -> (r: FrozenOutcome)
        requires
            old(self).wf(),
            action == FrozenAction::Copy || action == FrozenAction::SetMode(ModeKind::Snip)
                ==> old(self).controller.maps_ready(cols@, rows@),
        ensures
            final(self).wf(),
            final(self).settings == old(self).settings,
            final(self).exiting == old(self).exiting,
            match action {
                FrozenAction::Copy => {
                    &&& final(self).controller.session is None
                    &&& r matches FrozenOutcome::Copy(image) && {
                        &&& image is Some <==> old(self).controller.plan(cursor) is Some
                        &&& image matches Some(i) ==> old(self).controller.session->0.copied(
                            old(self).controller.plan(cursor)->0,
                            cols@,
                            rows@,
                            i,
                        )
                    }
                },
                FrozenAction::Cancel => r matches FrozenOutcome::Show(redraw)
                    && OverlayController::unfroze(
                    old(self).controller,
                    final(self).controller,
                    redraw,
                ),
                FrozenAction::SetMode(kind) => r matches FrozenOutcome::Show(redraw)
                    && OverlayController::mode_set(
                    old(self).controller,
                    kind,
                    cursor,
                    cols@,
                    rows@,
                    final(self).controller,
                    redraw,
                ),
                FrozenAction::AddMode(kind) => r matches FrozenOutcome::Show(redraw)
                    && OverlayController::mode_added(
                    old(self).controller,
                    kind,
                    cursor,
                    final(self).controller,
                    redraw,
                ),
                FrozenAction::ResetZoom => r matches FrozenOutcome::Show(redraw)
                    && OverlayController::view_reset(
                    old(self).controller,
                    final(self).controller,
                    redraw,
                ),
            },
            AppState::applied_as(
                old(self).controller,
                action,
                cursor,
                cols@,
                rows@,
                final(self).controller,
                r,
            ),
    {
        let outcome: FrozenOutcome = match action {
            FrozenAction::SetMode(kind) => FrozenOutcome::Show(
                self.controller.set_mode(kind, cursor, cols, rows),
            ),
            FrozenAction::AddMode(kind) => FrozenOutcome::Show(
                self.controller.add_mode(kind, cursor),
            ),
            FrozenAction::Copy => FrozenOutcome::Copy(
                self.controller.snip_copy_and_close(cursor, cols, rows),
            ),
            FrozenAction::Cancel => FrozenOutcome::Show(self.controller.unfreeze()),
            FrozenAction::ResetZoom => FrozenOutcome::Show(self.controller.reset_view()),
        };
        self.drop_stale_plan();
        outcome
    }
}

/// Outside a session no key does anything.
pub proof fn lemma_keys_need_a_session(app: AppState, gesture: HotkeyGesture)
    requires
        app.wf(),
        app.controller.session is None,
    ensures
        first_action(app.frozen_plan@, gesture) is None,
{
}

/// The tray tooltip: the application and the freeze gesture.
pub fn tooltip_text(settings: &AppSettings) -> (r: String)
    ensures
        r@ == "SpotFreeze — freeze: "@ + settings.hotkeys.freeze_toggle.shown(),
{
    let mut out: String = "SpotFreeze — freeze: ".to_owned();
    push_text(&mut out, settings.hotkeys.freeze_toggle.to_display().as_str());
    out
}

/// A step of the application's run.
#[derive(Clone, Copy, PartialEq, Eq, Structural, Debug)]
pub enum RunStep {
    /// Take the single-instance lock.
    Lock,
    /// Connect and take the output snapshot.
    Connect,
    /// Locate the settings file.
    FindSettings,
    /// Load the settings.
    LoadSettings,
    /// Bind the freeze hotkey.
    BindHotkey,
    /// Show the tray icon.
    ShowTray,
    /// Register the event sources.
    AddSources,
    /// Dispatch events until told to quit.
    Loop,
    /// End the session, if any, and leave.
    Finished,
    /// Leave without having touched anything: another instance runs.
    AlreadyRunning,
    /// Leave with an error.
    Failed,
}

/// How a step came out.
#[derive(Clone, Copy, PartialEq, Eq, Structural, Debug)]
pub enum StepOutcome {
    Done,
    /// The lock is held by another instance.
    Busy,
    Error,
}

/// The step after `step`. Only the lock, the connection, the place of the
/// settings, the event sources and the loop itself are fatal; settings that
/// cannot be read fall back to defaults, and the hotkey and the tray do without
/// each other.
pub open spec fn step_after(step: RunStep, outcome: StepOutcome) -> RunStep {
    match step {
        RunStep::Lock => match outcome {
            StepOutcome::Done => RunStep::Connect,
            StepOutcome::Busy => RunStep::AlreadyRunning,
            StepOutcome::Error => RunStep::Failed,
        },
        RunStep::Connect => if outcome == StepOutcome::Done {
            RunStep::FindSettings
        } else {
            RunStep::Failed
        },
        RunStep::FindSettings => if outcome == StepOutcome::Done {
            RunStep::LoadSettings
        } else {
            RunStep::Failed
        },
        RunStep::LoadSettings => RunStep::BindHotkey,
        RunStep::BindHotkey => RunStep::ShowTray,
        RunStep::ShowTray => RunStep::AddSources,
        RunStep::AddSources => if outcome == StepOutcome::Done {
            RunStep::Loop
        } else {
            RunStep::Failed
        },
        RunStep::Loop => if outcome == StepOutcome::Done {
            RunStep::Finished
        } else {
            RunStep::Failed
        },
        RunStep::Finished => RunStep::Finished,
        RunStep::AlreadyRunning => RunStep::AlreadyRunning,
        RunStep::Failed => RunStep::Failed,
    }
}

/// Decide the next step of the application's run, which starts with
/// [`RunStep::Lock`].
pub fn run(step: RunStep, outcome: StepOutcome) -> (r: RunStep)
    ensures
        r == step_after(step, outcome),
{
    match step {
        RunStep::Lock => match outcome {
            StepOutcome::Done => RunStep::Connect,
            StepOutcome::Busy => RunStep::AlreadyRunning,
            StepOutcome::Error => RunStep::Failed,
        },
        RunStep::Connect => match outcome {
            StepOutcome::Done => RunStep::FindSettings,
            _ => RunStep::Failed,
        },
        RunStep::FindSettings => match outcome {
            StepOutcome::Done => RunStep::LoadSettings,
            _ => RunStep::Failed,
        },
        RunStep::LoadSettings => RunStep::BindHotkey,
        RunStep::BindHotkey => RunStep::ShowTray,
        RunStep::ShowTray => RunStep::AddSources,
        RunStep::AddSources => match outcome {
            StepOutcome::Done => RunStep::Loop,
            _ => RunStep::Failed,
        },
        RunStep::Loop => match outcome {
            StepOutcome::Done => RunStep::Finished,
            _ => RunStep::Failed,
        },
        RunStep::Finished => RunStep::Finished,
        RunStep::AlreadyRunning => RunStep::AlreadyRunning,
        RunStep::Failed => RunStep::Failed,
    }
}

/// A second instance leaves before it touches the desktop: a busy lock ends
/// the run at once, whatever would follow.
pub proof fn lemma_second_instance_leaves(next: StepOutcome)
    ensures
        step_after(RunStep::Lock, StepOutcome::Busy) == RunStep::AlreadyRunning,
        step_after(RunStep::AlreadyRunning, next) == RunStep::AlreadyRunning,
{
}

/// Neither bad settings, nor a refused hotkey, nor a missing tray keeps the
/// application from running.
pub proof fn lemma_optional_steps_never_fail(a: StepOutcome, b: StepOutcome, c: StepOutcome)
    ensures
        step_after(step_after(step_after(RunStep::LoadSettings, a), b), c) == RunStep::AddSources,
{
}

} // verus!
