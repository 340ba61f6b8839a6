//! Transition schedule: the step grid, the easing, the spotlight radius curve
//! and the clock transitions run on.
//!
//! One eased progress byte (0..=255) drives the veil strength, the window
//! alpha and the circle scale. Entries follow the ease-out cubic; exits are
//! its exact time reverse. Progress is a function of elapsed time alone, so a
//! late step is skipped to, never queued.

use vstd::prelude::*;

verus! {

/// Total transition duration in milliseconds.
pub const FADE_DURATION_MS: u64 = 200;

/// Steps per transition.
pub const FADE_STEPS: u64 = 8;

/// Time between steps.
pub const FADE_STEP_MS: u64 = FADE_DURATION_MS / FADE_STEPS;

/// Spotlight circle scale at the start of an entry, in permille of the settled
/// radius.
pub const SPOTLIGHT_SCALE_MIN_PM: u32 = 600;

/// Which way a transition runs.
#[derive(Clone, Copy, PartialEq, Eq, Structural, Debug)]
pub enum FadeDirection {
    /// Enter: progress ramps 0 -> 255.
    In,
    /// Exit: progress ramps 255 -> 0.
    Out,
}

/// One driver iteration: apply `alpha` to every monitor, then wait `wait`
/// milliseconds before sampling the clock again.
#[derive(Clone, Copy, PartialEq, Eq, Structural, Debug)]
pub struct FadeStep {
    pub alpha: u8,
    pub wait: u64,
}

/// `v` cubed.
pub open spec fn cube(v: int) -> int {
    v * v * v
}

/// The ease-out cubic `255 * (1 - (1 - t)^3)` at `t = ms / 200`, rounded to
/// the nearest integer; 200 cubed is 8,000,000.
pub open spec fn eased(ms: int) -> int {
    (510 * (8_000_000 - cube(200 - ms)) + 8_000_000) / 16_000_000
}

/// Milliseconds into the entry curve at which `direction` is after
/// `elapsed_ms`: the exit runs the same curve backwards.
pub open spec fn curve_ms(elapsed_ms: u64, direction: FadeDirection) -> int {
    let ms = if elapsed_ms > FADE_DURATION_MS {
        FADE_DURATION_MS as int
    } else {
        elapsed_ms as int
    };
    match direction {
        FadeDirection::In => ms,
        FadeDirection::Out => FADE_DURATION_MS - ms,
    }
}

/// Progress byte at `elapsed_ms` for `direction`.
pub open spec fn progress(elapsed_ms: u64, direction: FadeDirection) -> u8 {
    eased(curve_ms(elapsed_ms, direction)) as u8
}

proof fn lemma_cube_grows(a: int, b: int)
    requires
        0 <= a <= b,
    ensures
        0 <= cube(a) <= cube(b),
{
    assert(0 <= a * a * a <= b * b * b) by (nonlinear_arith)
        requires
            0 <= a <= b,
    ;
}

/// The curve stays in a byte, starts at 0, ends at 255 and never falls.
pub proof fn lemma_eased(a: int, b: int)
    requires
        0 <= a <= b <= 200,
    ensures
        0 <= eased(a) <= eased(b) <= 255,
        eased(0) == 0,
        eased(200) == 255,
{
    assert(cube(200) == 8_000_000);
    assert(cube(0) == 0);
    lemma_cube_grows(200 - b, 200 - a);
    lemma_cube_grows(200 - a, 200);
}

/// The step schedule `elapsed` milliseconds after the transition started;
/// `None` once the duration is over. The wait ends on the next step boundary.
pub fn fade_step(elapsed: u64, direction: FadeDirection) -> (r: Option<FadeStep>)
    ensures
        r is Some <==> elapsed < FADE_DURATION_MS,
        r matches Some(step) ==> {
            &&& step.alpha == progress(elapsed, direction)
            &&& step.wait == FADE_STEP_MS - elapsed % FADE_STEP_MS
        },
{
    if elapsed >= FADE_DURATION_MS {
        return None;
    }
    let next_boundary: u64 = (elapsed / FADE_STEP_MS + 1) * FADE_STEP_MS;
    Some(FadeStep { alpha: fade_alpha(elapsed, direction), wait: next_boundary - elapsed })
}

/// Eased progress byte at `elapsed_ms`: the entry follows the ease-out cubic
/// from 0 to 255, the exit the same curve at the mirrored time. Times past the
/// duration clamp to the endpoint.
pub fn fade_alpha(elapsed_ms: u64, direction: FadeDirection) -> (r: u8)
    ensures
        r == progress(elapsed_ms, direction),
        elapsed_ms == 0 ==> r == (if direction == FadeDirection::In {
            0u8
        } else {
            255
        }),
        elapsed_ms >= FADE_DURATION_MS ==> r == (if direction == FadeDirection::In {
            255u8
        } else {
            0
        }),
{
    let ms: u64 = if elapsed_ms > FADE_DURATION_MS {
        FADE_DURATION_MS
    } else {
        elapsed_ms
    };
    let t: u64 = match direction {
        FadeDirection::In => ms,
        FadeDirection::Out => FADE_DURATION_MS - ms,
    };
    let rest: u64 = FADE_DURATION_MS - t;
    proof {
        lemma_eased(t as int, 200);
        lemma_cube_grows(rest as int, 200);
        assert(cube(200) == 8_000_000);
        assert(rest * rest <= 200 * 200) by (nonlinear_arith)
            requires
                0 <= rest <= 200,
        ;
    }
    let left: u64 = rest * rest * rest;
    ((510 * (8_000_000 - left) + 8_000_000) / 16_000_000) as u8
}

/// Spotlight radius scale in permille of the settled radius: 600 at progress
/// 0, 1000 at 255, linear between, rounded to nearest.
pub open spec fn radius_scale(alpha: u8) -> int {
    SPOTLIGHT_SCALE_MIN_PM + (alpha * (1000 - SPOTLIGHT_SCALE_MIN_PM) + 127) / 255
}

/// Spotlight radius scale in permille of the settled radius for a progress
/// byte.
pub fn spotlight_radius_scale(alpha: u8) -> (r: u32)
    ensures
        r == radius_scale(alpha),
{
    let span: u32 = 1000 - SPOTLIGHT_SCALE_MIN_PM;
    proof {
        assert(0 <= alpha * span <= 255 * 400) by (nonlinear_arith)
            requires
                0 <= alpha <= 255,
                span == 400,
        ;
    }
    SPOTLIGHT_SCALE_MIN_PM + (alpha as u32 * span + 127) / 255
}

/// The scale stays between 600 and 1000, reaches both, and never falls.
pub proof fn lemma_radius_scale(a: u8, b: u8)
    requires
        a <= b,
    ensures
        600 <= radius_scale(a) <= radius_scale(b) <= 1000,
        radius_scale(0) == 600,
        radius_scale(255) == 1000,
{
}

/// An exit is the exact time reverse of an entry.
pub proof fn lemma_exit_reverses_entry(ms: u64)
    requires
        ms <= FADE_DURATION_MS,
    ensures
        progress(ms, FadeDirection::Out) == progress(
            (FADE_DURATION_MS - ms) as u64,
            FadeDirection::In,
        ),
{
}

/// An entry starts at 0 and ends at 255, an exit the other way round; times
/// beyond the duration stay at the end.
pub proof fn lemma_endpoints(late: u64)
    requires
        late >= FADE_DURATION_MS,
    ensures
        progress(0, FadeDirection::In) == 0,
        progress(late, FadeDirection::In) == 255,
        progress(0, FadeDirection::Out) == 255,
        progress(late, FadeDirection::Out) == 0,
{
    lemma_eased(0, 200);
}

/// An entry never falls back and an exit never rises.
pub proof fn lemma_progress_is_monotone(a: u64, b: u64)
    requires
        a <= b,
    ensures
        progress(a, FadeDirection::In) <= progress(b, FadeDirection::In),
        progress(a, FadeDirection::Out) >= progress(b, FadeDirection::Out),
{
    lemma_eased(curve_ms(a, FadeDirection::In), curve_ms(b, FadeDirection::In));
    lemma_eased(curve_ms(b, FadeDirection::Out), curve_ms(a, FadeDirection::Out));
}

/// Elapsed time after `steps` steps of a schedule that started at `elapsed`,
/// each followed by its wait and a delay of its own.
pub open spec fn after_steps(elapsed: int, delays: Seq<nat>) -> int
    decreases delays.len(),
{
    if delays.len() == 0 || elapsed >= FADE_DURATION_MS {
        elapsed
    } else {
        after_steps(
            elapsed + (FADE_STEP_MS - elapsed % FADE_STEP_MS as int) + delays[0],
            delays.skip(1),
        )
    }
}

proof fn lemma_after_steps(elapsed: int, delays: Seq<nat>)
    requires
        0 <= elapsed,
    ensures
        after_steps(elapsed, delays) >= FADE_DURATION_MS || after_steps(elapsed, delays)
            / FADE_STEP_MS as int >= elapsed / FADE_STEP_MS as int + delays.len(),
    decreases delays.len(),
{
    if delays.len() > 0 && elapsed < FADE_DURATION_MS {
        let next = elapsed + (FADE_STEP_MS - elapsed % FADE_STEP_MS as int) + delays[0];
        assert(next / FADE_STEP_MS as int >= elapsed / FADE_STEP_MS as int + 1);
        lemma_after_steps(next, delays.skip(1));
    }
}

/// A schedule takes at most [`FADE_STEPS`] steps, however late each one runs.
pub proof fn lemma_schedule_is_bounded(delays: Seq<nat>)
    requires
        delays.len() == FADE_STEPS,
    ensures
        after_steps(0, delays) >= FADE_DURATION_MS,
{
    lemma_after_steps(0, delays);
}

/// A clock that only moves when asked to sleep: by the time asked for, or by a
/// fixed stall whatever was asked.
#[derive(Clone, Copy, PartialEq, Eq, Structural, Debug)]
pub struct FadeClock {
    pub now: u64,
    pub stall: Option<u64>,
}

impl FadeClock {
    /// A clock on which a sleep takes exactly the time asked for.
    pub fn manual(now: u64) -> (r: Self)
        ensures
            r.now == now,
            r.stall is None,
    {
        Self { now, stall: None }
    }

    /// A clock on which every sleep takes `stall` milliseconds.
    pub fn custom(now: u64, stall: u64) -> (r: Self)
        ensures
            r.now == now,
            r.stall == Some(stall),
    {
        Self { now, stall: Some(stall) }
    }

    /// Milliseconds on the clock.
    pub fn now(&self) -> (r: u64)
        ensures
            r == self.now,
    {
        self.now
    }

    /// Advance the clock; it stops at the largest value.
    pub fn sleep(&mut self, ms: u64)
        ensures
            final(self).stall == old(self).stall,
            ({
                let step = match old(self).stall {
                    Some(s) => s,
                    None => ms,
                };
                final(self).now == if old(self).now + step > u64::MAX {
                    u64::MAX as int
                } else {
                    old(self).now + step
                }
            }),
    {
        let step: u64 = match self.stall {
            Some(s) => s,
            None => ms,
        };
        self.now = if step > u64::MAX - self.now {
            u64::MAX
        } else {
            self.now + step
        };
    }
}

} // verus!
