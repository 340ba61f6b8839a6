//! Frozen-mode hotkey plan: which gestures are bound while frozen, and
//! matching of a pressed key against that plan.

use crate::hotkeys::gesture::{HotkeyGesture, Modifiers};
use crate::overlay::modes::ModeKind;
use crate::settings::model::HotkeySettings;
use vstd::prelude::*;

verus! {

/// What each frozen-mode binding does when it fires.
#[derive(Clone, Copy, PartialEq, Eq, Structural, Debug)]
pub enum FrozenAction {
    /// Plain mode key: reset all mode state and activate only this mode.
    SetMode(ModeKind),
    /// Shift + mode key: add this mode as a layer.
    AddMode(ModeKind),
    Copy,
    Cancel,
    ResetZoom,
}

/// One planned frozen-mode binding.
#[derive(Clone, Copy, PartialEq, Eq, Structural, Debug)]
pub struct FrozenRegistration {
    pub gesture: HotkeyGesture,
    pub action: FrozenAction,
}

/// The two mode bindings as `(gesture, kind)` pairs. Zoom has none: it is
/// wheel-driven.
pub fn mode_bindings(hotkeys: &HotkeySettings) -> (r: [(HotkeyGesture, ModeKind); 2])
    ensures
        r@ == seq![
            (hotkeys.mode_spotlight, ModeKind::Spotlight),
            (hotkeys.mode_snip, ModeKind::Snip),
        ],
{
    let r = [(hotkeys.mode_spotlight, ModeKind::Spotlight), (hotkeys.mode_snip, ModeKind::Snip)];
    proof {
        assert(r@ =~= seq![
            (hotkeys.mode_spotlight, ModeKind::Spotlight),
            (hotkeys.mode_snip, ModeKind::Snip),
        ]);
    }
    r
}

/// The gestures the user configured for the frozen state, and the freeze
/// toggle.
pub open spec fn configured(h: HotkeySettings) -> Seq<HotkeyGesture> {
    seq![
        h.freeze_toggle,
        h.reset_zoom,
        h.snip_copy,
        h.cancel,
        h.mode_spotlight,
        h.mode_snip,
    ]
}

/// The same key with Shift added.
pub open spec fn shifted(g: HotkeyGesture) -> HotkeyGesture {
    HotkeyGesture { modifiers: Modifiers { shift: true, ..g.modifiers }, vk: g.vk }
}

/// A mode's plain registration.
pub open spec fn plain_entry(g: HotkeyGesture, kind: ModeKind) -> FrozenRegistration {
    FrozenRegistration { gesture: g, action: FrozenAction::SetMode(kind) }
}

/// A mode's derived Shift registration: left out when its gesture is taken.
pub open spec fn derived_entry(
    g: HotkeyGesture,
    kind: ModeKind,
    taken: Seq<HotkeyGesture>,
) -> Seq<FrozenRegistration> {
    if taken.contains(shifted(g)) {
        Seq::empty()
    } else {
        seq![FrozenRegistration { gesture: shifted(g), action: FrozenAction::AddMode(kind) }]
    }
}

/// The gestures taken once the spotlight's registrations are planned.
pub open spec fn taken_after_spotlight(h: HotkeySettings) -> Seq<HotkeyGesture> {
    if configured(h).contains(shifted(h.mode_spotlight)) {
        configured(h)
    } else {
        configured(h).push(shifted(h.mode_spotlight))
    }
}

/// The whole plan: each mode's plain gesture and its derived Shift variant,
/// then reset, copy and cancel.
pub open spec fn planned(h: HotkeySettings) -> Seq<FrozenRegistration> {
    seq![plain_entry(h.mode_spotlight, ModeKind::Spotlight)] + derived_entry(
        h.mode_spotlight,
        ModeKind::Spotlight,
        configured(h),
    ) + seq![plain_entry(h.mode_snip, ModeKind::Snip)] + derived_entry(
        h.mode_snip,
        ModeKind::Snip,
        taken_after_spotlight(h),
    ) + seq![
        FrozenRegistration { gesture: h.reset_zoom, action: FrozenAction::ResetZoom },
        FrozenRegistration { gesture: h.snip_copy, action: FrozenAction::Copy },
        FrozenRegistration { gesture: h.cancel, action: FrozenAction::Cancel },
    ]
}

fn is_claimed(claimed: &Vec<HotkeyGesture>, gesture: HotkeyGesture) -> (r: bool)
    ensures
        r == claimed@.contains(gesture),
{
    let mut i: usize = 0;
    while i < claimed.len()
        invariant
            i <= claimed@.len(),
            forall|k: int| 0 <= k < i ==> claimed@[k] != gesture,
        decreases claimed@.len() - i,
    {
        if claimed[i] == gesture {
            return true;
        }
        i += 1;
    }
    false
}

/// The ordered frozen-mode registration list: for each mode binding the plain
/// gesture followed by its derived Shift variant, then reset, copy and cancel.
///
/// A derived variant whose gesture is already claimed, by the freeze toggle,
/// by any configured binding or by an earlier variant, is skipped. Collisions
/// between configured bindings stay in the plan.
pub fn plan_frozen_registrations(hotkeys: &HotkeySettings) -> (r: Vec<FrozenRegistration>)
    ensures
        r@ == planned(*hotkeys),
{
    let bindings = mode_bindings(hotkeys);
    let mut claimed: Vec<HotkeyGesture> = Vec::new();
    claimed.push(hotkeys.freeze_toggle);
    claimed.push(hotkeys.reset_zoom);
    claimed.push(hotkeys.snip_copy);
    claimed.push(hotkeys.cancel);
    claimed.push(bindings[0].0);
    claimed.push(bindings[1].0);
    proof {
        assert(claimed@ =~= configured(*hotkeys));
    }
    let mut plan: Vec<FrozenRegistration> = Vec::new();
    push_mode(&mut plan, &mut claimed, bindings[0].0, bindings[0].1);
    proof {
        assert(claimed@ =~= taken_after_spotlight(*hotkeys));
    }
    push_mode(&mut plan, &mut claimed, bindings[1].0, bindings[1].1);
    plan.push(
        FrozenRegistration { gesture: hotkeys.reset_zoom, action: FrozenAction::ResetZoom },
    );
    plan.push(FrozenRegistration { gesture: hotkeys.snip_copy, action: FrozenAction::Copy });
    plan.push(FrozenRegistration { gesture: hotkeys.cancel, action: FrozenAction::Cancel });
    proof {
        assert(plan@ =~= planned(*hotkeys));
    }
    plan
}

/// Plan one mode: its plain gesture, and its Shift variant where that is free.
fn push_mode(
    plan: &mut Vec<FrozenRegistration>,
    claimed: &mut Vec<HotkeyGesture>,
    gesture: HotkeyGesture,
    kind: ModeKind,
)
    ensures
        final(plan)@ == old(plan)@ + seq![plain_entry(gesture, kind)] + derived_entry(
            gesture,
            kind,
            old(claimed)@,
        ),
        final(claimed)@ == (if old(claimed)@.contains(shifted(gesture)) {
            old(claimed)@
        } else {
            old(claimed)@.push(shifted(gesture))
        }),
{
    plan.push(FrozenRegistration { gesture, action: FrozenAction::SetMode(kind) });
    let with_shift = HotkeyGesture::new(gesture.modifiers | Modifiers::shift(), gesture.vk);
    if !is_claimed(claimed, with_shift) {
        claimed.push(with_shift);
        plan.push(FrozenRegistration { gesture: with_shift, action: FrozenAction::AddMode(kind) });
    }
    proof {
        assert(plan@ =~= old(plan)@ + seq![plain_entry(gesture, kind)] + derived_entry(
            gesture,
            kind,
            old(claimed)@,
        ));
    }
}

/// The action of the first registration bound to `gesture`.
pub open spec fn first_action(plan: Seq<FrozenRegistration>, gesture: HotkeyGesture) -> Option<
    FrozenAction,
>
    decreases plan.len(),
{
    if plan.len() == 0 {
        None
    } else if plan[0].gesture == gesture {
        Some(plan[0].action)
    } else {
        first_action(plan.skip(1), gesture)
    }
}

proof fn lemma_first_action(plan: Seq<FrozenRegistration>, gesture: HotkeyGesture, n: int)
    requires
        0 <= n <= plan.len(),
        forall|k: int| 0 <= k < n ==> plan[k].gesture != gesture,
        n < plan.len() ==> plan[n].gesture == gesture,
    ensures
        first_action(plan, gesture) == (if n < plan.len() {
            Some(plan[n].action)
        } else {
            None
        }),
    decreases n,
{
    if n > 0 {
        lemma_first_action(plan.skip(1), gesture, n - 1);
    }
}

/// Resolve a frozen-mode key press: the first registration whose gesture
/// equals `gesture` wins.
pub fn match_frozen_key(plan: &[FrozenRegistration], gesture: HotkeyGesture) -> (r: Option<
    FrozenAction,
>)
    ensures
        r == first_action(plan@, gesture),
{
    let mut i: usize = 0;
    while i < plan.len()
        invariant
            i <= plan@.len(),
            forall|k: int| 0 <= k < i ==> plan@[k].gesture != gesture,
        decreases plan@.len() - i,
    {
        if plan[i].gesture == gesture {
            proof {
                lemma_first_action(plan@, gesture, i as int);
            }
            return Some(plan[i].action);
        }
        i += 1;
    }
    proof {
        lemma_first_action(plan@, gesture, i as int);
    }
    None
}

/// A configured binding always beats a derived one: no layer-adding entry of
/// the plan uses a gesture the user configured, the freeze toggle included.
pub proof fn lemma_explicit_beats_derived(h: HotkeySettings, i: int)
    requires
        0 <= i < planned(h).len(),
        planned(h)[i].action matches FrozenAction::AddMode(_),
    ensures
        !configured(h).contains(planned(h)[i].gesture),
{
    let taken = configured(h);
    let more = taken_after_spotlight(h);
    if taken.contains(planned(h)[i].gesture) {
        let k = choose|k: int| 0 <= k < taken.len() && taken[k] == planned(h)[i].gesture;
        assert(more[k] == planned(h)[i].gesture);
        assert(more.contains(planned(h)[i].gesture));
    }
}

/// No two derived entries share a gesture.
pub proof fn lemma_derived_are_distinct(h: HotkeySettings, i: int, j: int)
    requires
        0 <= i < j < planned(h).len(),
        planned(h)[i].action matches FrozenAction::AddMode(_),
        planned(h)[j].action matches FrozenAction::AddMode(_),
    ensures
        planned(h)[i].gesture != planned(h)[j].gesture,
{
    let more = taken_after_spotlight(h);
    assert(more.contains(shifted(h.mode_spotlight))) by {
        if !configured(h).contains(shifted(h.mode_spotlight)) {
            assert(more[6] == shifted(h.mode_spotlight));
        }
    }
}

/// Every configured frozen binding is planned, in this order, whatever the
/// collisions; between five and seven entries in all.
pub proof fn lemma_plan_is_complete(h: HotkeySettings)
    ensures
        5 <= planned(h).len() <= 7,
        planned(h)[0] == plain_entry(h.mode_spotlight, ModeKind::Spotlight),
        planned(h).contains(plain_entry(h.mode_snip, ModeKind::Snip)),
        planned(h)[planned(h).len() - 3] == (FrozenRegistration {
            gesture: h.reset_zoom,
            action: FrozenAction::ResetZoom,
        }),
        planned(h)[planned(h).len() - 2] == (FrozenRegistration {
            gesture: h.snip_copy,
            action: FrozenAction::Copy,
        }),
        planned(h)[planned(h).len() - 1] == (FrozenRegistration {
            gesture: h.cancel,
            action: FrozenAction::Cancel,
        }),
{
    let d = derived_entry(h.mode_spotlight, ModeKind::Spotlight, configured(h)).len() as int;
    assert(planned(h)[1 + d] == plain_entry(h.mode_snip, ModeKind::Snip));
}

/// The shipped bindings collide nowhere: the plan has all seven entries.
pub proof fn lemma_default_plan_is_full()
    ensures
        planned(HotkeySettings::defaults()).len() == 7,
{
    let h = HotkeySettings::defaults();
    let s = shifted(h.mode_spotlight);
    let c = shifted(h.mode_snip);
    assert(!configured(h).contains(s));
    assert(!configured(h).push(s).contains(c));
}

} // verus!
