use spotfreeze::overlay::fade::{
    fade_alpha, fade_step, spotlight_radius_scale, FadeClock, FadeDirection, FADE_DURATION_MS,
    FADE_STEPS, FADE_STEP_MS, SPOTLIGHT_SCALE_MIN_PM,
};

fn ms(n: u64) -> u64 {
    n
}

// ---- caps (the product constraint, pinned) ----

#[test]
fn caps_are_within_the_product_budget() {
    assert!(
        FADE_DURATION_MS <= 240,
        "total duration must never exceed 240 ms"
    );
    assert!(
        FADE_STEPS <= 8,
        "Wayland full-frame presents are capped at 8"
    );
    assert_eq!(FADE_STEP_MS * FADE_STEPS, FADE_DURATION_MS);
}

/// The easing curve.
fn ease_out_cubic(t: f32) -> f32 {
    1.0 - (1.0 - t) * (1.0 - t) * (1.0 - t)
}

#[test]
fn alpha_follows_the_easing_curve() {
    for t in 0..=FADE_DURATION_MS {
        let eased = ease_out_cubic(t as f32 / FADE_DURATION_MS as f32);
        assert_eq!(fade_alpha(t, FadeDirection::In), (eased * 255.0).round() as u8, "{t} ms");
    }
}

// ---- fade_alpha ----

#[test]
fn alpha_endpoints_are_exact() {
    assert_eq!(fade_alpha(0, FadeDirection::In), 0);
    assert_eq!(fade_alpha(FADE_DURATION_MS, FadeDirection::In), 255);
    assert_eq!(fade_alpha(0, FadeDirection::Out), 255);
    assert_eq!(fade_alpha(FADE_DURATION_MS, FadeDirection::Out), 0);
}

#[test]
fn alpha_clamps_beyond_the_duration() {
    assert_eq!(fade_alpha(FADE_DURATION_MS + 1000, FadeDirection::In), 255);
    assert_eq!(fade_alpha(FADE_DURATION_MS + 1000, FadeDirection::Out), 0);
}

#[test]
fn alpha_is_monotonic_in_both_directions() {
    let mut prev_in = 0;
    let mut prev_out = 255;
    for t in 0..=FADE_DURATION_MS {
        let a_in = fade_alpha(t, FadeDirection::In);
        let a_out = fade_alpha(t, FadeDirection::Out);
        assert!(a_in >= prev_in, "fade-in regressed at {t} ms");
        assert!(a_out <= prev_out, "fade-out regressed at {t} ms");
        prev_in = a_in;
        prev_out = a_out;
    }
}

#[test]
fn alpha_exit_is_the_exact_time_reverse_of_the_entry() {
    for t in 0..=FADE_DURATION_MS {
        assert_eq!(
            fade_alpha(t, FadeDirection::Out),
            fade_alpha(FADE_DURATION_MS - t, FadeDirection::In),
            "mirror mismatch at {t} ms"
        );
    }
}

#[test]
fn alpha_entry_decelerates() {
    // Ease-out: the first quarter covers more progress than the last.
    let first = fade_alpha(FADE_DURATION_MS / 4, FadeDirection::In);
    let last = 255 - fade_alpha(3 * FADE_DURATION_MS / 4, FadeDirection::In);
    assert!(
        first > last * 2,
        "entry must be front-loaded: first quarter {first} vs last {last}"
    );
}

// ---- spotlight_radius_scale ----

#[test]
fn radius_scale_endpoints_are_exact() {
    assert_eq!(spotlight_radius_scale(0), SPOTLIGHT_SCALE_MIN_PM);
    assert_eq!(spotlight_radius_scale(255), 1000);
}

#[test]
fn radius_scale_is_monotonic_within_the_60_100_band() {
    let mut prev = SPOTLIGHT_SCALE_MIN_PM;
    for a in 1..=255u16 {
        let s = spotlight_radius_scale(a as u8);
        assert!(s >= prev, "scale regressed at alpha {a}");
        assert!((SPOTLIGHT_SCALE_MIN_PM..=1000).contains(&s));
        prev = s;
    }
}

#[test]
fn radius_scale_midpoint_is_about_80_percent() {
    // Eased midpoint alpha (~223 at half time) puts the circle near 95%;
    // the linear-in-alpha midpoint (128) sits near 80%.
    let s = spotlight_radius_scale(128);
    assert!((795..=810).contains(&s), "alpha 128 scale: {s}");
}

// ---- fade_step ----

#[test]
fn step_schedule_walks_the_nominal_grid() {
    // Perfectly timed clock: exactly FADE_STEPS steps, on the grid, each
    // waiting one STEP interval; then the schedule is exhausted.
    let mut t = 0;
    let mut steps = 0;
    while let Some(step) = fade_step(ms(t), FadeDirection::In) {
        assert_eq!(step.alpha, fade_alpha(t, FadeDirection::In));
        assert_eq!(step.wait, ms(FADE_STEP_MS));
        t += FADE_STEP_MS;
        steps += 1;
    }
    assert_eq!(steps, FADE_STEPS);
    assert_eq!(t, FADE_DURATION_MS);
}

#[test]
fn step_schedule_waits_to_the_next_boundary_from_any_phase() {
    // Mid-interval elapsed times still produce one step whose wait lands
    // on the next grid boundary — a late step is skipped TO, not queued.
    let step = fade_step(ms(45), FadeDirection::In).expect("inside the duration");
    assert_eq!(step.alpha, fade_alpha(45, FadeDirection::In));
    assert_eq!(step.wait, ms(5)); // next boundary: 50
    let step = fade_step(ms(FADE_DURATION_MS - 1), FadeDirection::Out).expect("still inside");
    assert_eq!(step.wait, ms(1));
}

#[test]
fn step_schedule_ends_at_the_duration() {
    assert!(fade_step(ms(FADE_DURATION_MS), FadeDirection::In).is_none());
    assert!(fade_step(ms(FADE_DURATION_MS + 1), FadeDirection::Out).is_none());
}

#[test]
fn missed_steps_collapse_into_the_current_alpha() {
    // A 45 ms stall between samples: the schedule emits the alpha for the
    // CURRENT time (intermediate alphas are gone for good — degrade, not
    // stall) and still terminates on time.
    let mut seen = Vec::new();
    let mut t = 0u64;
    while let Some(step) = fade_step(ms(t), FadeDirection::In) {
        seen.push(step.alpha);
        t += 45; // the surface/compositor stalled: nominal steps missed
    }
    assert_eq!(
        seen,
        vec![
            fade_alpha(0, FadeDirection::In),
            fade_alpha(45, FadeDirection::In),
            fade_alpha(90, FadeDirection::In),
            fade_alpha(135, FadeDirection::In),
            fade_alpha(180, FadeDirection::In),
        ]
    );
    assert!(t >= FADE_DURATION_MS);
}

// ---- FadeClock ----

#[test]
fn manual_clock_advances_by_the_sleep_request() {
    let mut clock = FadeClock::manual(0);
    assert_eq!(clock.now(), 0);
    clock.sleep(ms(20));
    clock.sleep(ms(5));
    assert_eq!(clock.now(), ms(25));
    assert_eq!(clock.now, ms(25));
}

#[test]
fn custom_clock_can_jump_past_steps() {
    let mut clock = FadeClock::custom(0, ms(50));
    clock.sleep(ms(20)); // asked for 20, stalled for 50
    assert_eq!(clock.now(), ms(50));
}

#[test]
fn a_fade_ends_within_its_steps_on_an_ideal_clock() {
    let mut clock = FadeClock::manual(0);
    let mut steps: u64 = 0;
    while let Some(step) = fade_step(clock.now(), FadeDirection::Out) {
        clock.sleep(step.wait);
        steps += 1;
    }
    assert_eq!(steps, FADE_STEPS);
    assert_eq!(clock.now(), FADE_DURATION_MS);
}
