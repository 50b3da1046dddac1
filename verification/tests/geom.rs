use draft::clock::{Duration, Instant, WHOLE};
use draft::pill::bar::{bar_width, button, BAR_H, BUTTON_COUNT};
use draft::pill::geom::{
    breathe, transition, Ease, Geom, Hover, Motion, Rgb, Tween, CONCEAL_MS, HAIRLINE_A,
    HOVER_IN_MS, HOVER_OUT_MS, NUB_FILL_A, REVEAL_MS, SESSION_H, SESSION_W, TO_IDLE_MS,
    TO_RECORDING_MS, UNIT,
};
use draft::pill::state::{Origin, PillMode, HANDOFF_MS};
use draft::pill::{ENVELOPE_H, ENVELOPE_W};

/// How far the breath is open after `ms` milliseconds, at 0.8 Hz.
fn pulse(ms: u64) -> u64 {
    let phase = ms as f32 / 1000.0 * std::f32::consts::TAU * 0.8;
    (((0.5 - 0.5 * phase.cos()) * WHOLE as f32) as u64).min(WHOLE)
}


const REC: PillMode = PillMode::Recording {
    origin: Origin::Hotkey,
};

fn t(ms: u64) -> Instant {
    Instant::from_millis(ms)
}

fn proc() -> PillMode {
    PillMode::Processing { since: t(0) }
}

fn done(ok: bool) -> PillMode {
    PillMode::Done { ok, since: t(0) }
}

/// Whether a geometry puts anything at all on screen — *anything*,
/// including the bar row, which is drawn at its own opacity and so can
/// outlive the body it sits in.
fn is_blank(g: &Geom) -> bool {
    g.fill_a < UNIT / 2 && g.border_a < UNIT / 2 && g.bars <= 0 && g.buttons <= 0
}

/// The nub's numbers, as settled. Pinned here rather than only on screen,
/// so a change to one shows up as a failing number.
#[test]
fn the_nub_is_the_settled_shape() {
    let g = Geom::of(PillMode::Idle);
    assert_eq!((g.w, g.h), (36 * UNIT, 10 * UNIT));
    assert_eq!(g.radius, 5 * UNIT);
    assert_eq!((g.fill, g.fill_a), (Rgb(13, 13, 13), 140 * UNIT));
    assert_eq!((g.border, g.border_a), (Rgb(220, 224, 232), 120 * UNIT));
    // No bars. The nub says one thing — Draft is on — and a bar row would
    // make it look like it was listening.
    assert_eq!(g.bars, 0);
    assert_eq!(g.buttons, 0);
}

/// The single fact the whole reveal rests on: `Hidden` is not "no pill", it
/// is the nub with the lights off. Revealing is therefore one motion.
#[test]
fn hidden_is_the_nub_at_zero_alpha() {
    let hidden = Geom::of(PillMode::Hidden);
    let idle = Geom::of(PillMode::Idle);
    assert_eq!(
        (hidden.w, hidden.h, hidden.radius),
        (idle.w, idle.h, idle.radius)
    );
    assert_eq!(hidden.fill_a, 0);
    assert_eq!(hidden.border_a, 0);
    assert!(is_blank(&hidden));
    assert!(!is_blank(&idle));
}

/// Every mode has to fit the window the pill is created at, because the
/// window is never resized to run an animation.
#[test]
fn no_mode_exceeds_the_envelope() {
    for mode in [
        PillMode::Hidden,
        PillMode::Idle,
        PillMode::Expanded,
        REC,
        proc(),
        done(true),
    ] {
        let g = Geom::of(mode);
        assert!(
            g.w <= ENVELOPE_W as i32 * UNIT,
            "{mode:?} is wider than the window"
        );
        assert!(
            g.h <= ENVELOPE_H as i32 * UNIT,
            "{mode:?} is taller than the window"
        );
    }
}

/// The bar is the largest thing the pill draws, so the envelope has to hold
/// it — with room over for the inert end padding and the outermost island's
/// anti-aliased edge.
#[test]
fn the_envelope_holds_the_whole_button_bar() {
    assert!(bar_width() < ENVELOPE_W as i32, "{}", bar_width());
    assert!(BAR_H < ENVELOPE_H as i32);
    // And the session pill, which stopped being the envelope when the bar
    // grew past it.
    assert!(SESSION_W < ENVELOPE_W as i32 && SESSION_H < ENVELOPE_H as i32);
}

/// The nub grows into the button under the cursor, not into a body that is
/// about to be three shapes: `Expanded`'s Geom is the centre island's.
#[test]
fn the_expanded_geom_is_the_centre_island() {
    let g = Geom::of(PillMode::Expanded);
    let dictate = button(BUTTON_COUNT / 2);
    assert_eq!((g.w, g.h, g.radius), (48 * UNIT, 32 * UNIT, 16 * UNIT));
    assert_eq!((g.w, g.h), (dictate.w * UNIT, BAR_H * UNIT));
    assert_eq!(g.buttons, UNIT);
    // And it carries the session pill's surface, not the nub's marker
    // alphas — it is a thing to click, not a thing to notice.
    assert!(g.fill_a > Geom::of(PillMode::Idle).fill_a);
}

/// The flankers' offset is a pure function of the growth progress, and
/// `buttons` is that progress — which is what keeps the fold-out inside the
/// derived-frame model instead of being a second animation beside it.
#[test]
fn the_fold_out_rides_the_same_lerp_as_the_growth() {
    let m = Motion::start(Geom::of(PillMode::Idle), PillMode::Expanded, Tween::out_cubic(HOVER_IN_MS), t(0));
    assert_eq!(m.at(t(0)).buttons, 0);
    assert_eq!(m.at(t(110)).buttons, UNIT);
    // Monotone all the way, so nothing slides back on the way out.
    let mut prev = 0;
    for ms in 0..=110 {
        let b = m.at(t(ms)).buttons;
        assert!(b >= prev, "buttons went backwards at {ms}ms");
        prev = b;
    }
}

/// Sliding from one button to the next is one crossfade: the arriving
/// button comes up over exactly the 90 ms the leaving one goes down.
#[test]
fn the_hover_indicator_crossfades_between_buttons() {
    let all_live = vec![true; BUTTON_COUNT];
    let mut h = Hover::new(t(0));
    assert!(h.slots(t(0), &all_live).iter().all(|s| s.hover == 0));

    h.set(Some(1), t(0));
    assert!(h.is_running(t(0)));
    assert_eq!(h.slots(t(0), &all_live)[1].hover, 0);
    assert_eq!(h.slots(t(90), &all_live)[1].hover, WHOLE);
    assert!(!h.is_running(t(90)));

    // On to the next button: the two move together.
    h.set(Some(2), t(90));
    let mid = h.slots(t(135), &all_live);
    assert_eq!(mid[1].hover + mid[2].hover, WHOLE, "{mid:?}");
    assert!(mid[1].hover > 0 && mid[2].hover > 0);
    let done = h.slots(t(180), &all_live);
    assert_eq!((done[1].hover, done[2].hover), (0, WHOLE));

    // And off the bar entirely: everything goes dark.
    h.set(None, t(180));
    assert!(h.slots(t(270), &all_live).iter().all(|s| s.hover == 0));
}

/// A cursor wandering inside one slab is not a change. Restarting the fade
/// on every `CursorMoved` would leave the indicator permanently mid-fade.
#[test]
fn geom_re_hovering_the_same_button_does_not_restart_the_fade() {
    let mut h = Hover::new(t(0));
    h.set(Some(0), t(0));
    h.set(Some(0), t(45));
    assert_eq!(h.slots(t(90), &vec![true; BUTTON_COUNT])[0].hover, WHOLE);
    assert!(!h.is_running(t(90)));
}

/// The durations, as settled. A table test rather than six
/// assertions, because the point is the whole table.
#[test]
fn the_transition_table_is_the_settled_one() {
    let cases = [
        (PillMode::Hidden, PillMode::Idle, Tween::out_cubic(REVEAL_MS)),
        (PillMode::Idle, PillMode::Hidden, Tween::out_cubic(CONCEAL_MS)),
        (done(true), PillMode::Hidden, Tween::out_cubic(CONCEAL_MS)),
        (PillMode::Idle, REC, Tween::out_cubic(TO_RECORDING_MS)),
        (PillMode::Expanded, REC, Tween::out_cubic(TO_RECORDING_MS)),
        (REC, proc(), Tween::handoff()),
        (proc(), done(true), Tween::snap()),
        (done(true), PillMode::Idle, Tween::out_cubic(TO_IDLE_MS)),
        (PillMode::Idle, PillMode::Expanded, Tween::out_cubic(HOVER_IN_MS)),
        (PillMode::Expanded, PillMode::Idle, Tween::out_cubic(HOVER_OUT_MS)),
    ];
    for (from, to, expected) in cases {
        assert_eq!(transition(from, to), expected, "{from:?} -> {to:?}");
    }
    assert_eq!(Tween::out_cubic(REVEAL_MS).dur, Duration::from_millis(140));
    assert_eq!(Tween::out_cubic(CONCEAL_MS).dur, Duration::from_millis(120));
    assert_eq!(Tween::out_cubic(TO_RECORDING_MS).dur, Duration::from_millis(90));
    assert_eq!(Tween::out_cubic(TO_IDLE_MS).dur, Duration::from_millis(160));
    assert_eq!(Tween::handoff().dur, Duration::from_millis(320));
    assert_eq!(Tween::handoff().ease, Ease::Linear);
}

/// The handoff's border crossfade and the core's waveform drain are one
/// gesture. If these two clocks ever diverged, the bars would reach flat
/// while the border was still arriving.
#[test]
fn the_handoff_tween_and_the_cores_drain_share_a_clock() {
    assert_eq!(Tween::handoff().dur, Duration::from_millis(HANDOFF_MS));
}

/// With residency off, a chord press is the pill's whole existence
/// beginning — it appears at once, exactly as the session pill always has.
#[test]
fn a_chord_press_from_nothing_does_not_animate_in() {
    assert_eq!(transition(PillMode::Hidden, REC), Tween::snap());
}

/// The one motion rule with no exceptions: nothing ever goes past where it
/// is heading. An overshoot on a 36x10 nub reads as a wobble.
#[test]
fn no_easing_overshoots() {
    for ease in [Ease::Linear, Ease::OutCubic] {
        for step in 0..=100 {
            let e = ease.apply(WHOLE as i64 * step / 100);
            assert!((0..=WHOLE).contains(&e), "{ease:?} at {step}%: {e}");
        }
        // And it is monotone: no easing doubles back either.
        let mut prev = 0;
        for step in 0..=100 {
            let e = ease.apply(WHOLE as i64 * step / 100);
            assert!(e >= prev, "{ease:?} went backwards at {step}%");
            prev = e;
        }
        assert_eq!(ease.apply(0), 0);
        assert_eq!(ease.apply(WHOLE as i64), WHOLE);
        // Past the end, and before the start, both clamp.
        assert_eq!(ease.apply(2 * WHOLE as i64), WHOLE);
        assert_eq!(ease.apply(-(WHOLE as i64)), 0);
    }
}

/// Out-cubic, not linear: most of the distance is covered early, so a
/// 140 ms reveal reads as arriving rather than as sliding.
#[test]
fn out_cubic_front_loads_the_motion() {
    assert!(Ease::OutCubic.apply(WHOLE as i64 / 2) > WHOLE / 10 * 8);
    assert_eq!(Ease::OutCubic.apply(WHOLE as i64 / 2), 875_000_000);
    assert!(Ease::OutCubic.apply(WHOLE as i64 / 4) > Ease::Linear.apply(WHOLE as i64 / 4));
}

/// A geometry that never overshoots also never leaves the two Geoms it is
/// between — the pill cannot be narrower than the nub or wider than the
/// mode it is growing into at any point in a transition.
#[test]
fn a_transition_stays_between_its_endpoints() {
    let m = Motion::start(Geom::of(PillMode::Idle), REC, Tween::out_cubic(REVEAL_MS), t(0));
    let (from, to) = (Geom::of(PillMode::Idle), Geom::of(REC));
    for ms in 0..=200 {
        let g = m.at(t(ms));
        assert!(g.w >= from.w && g.w <= to.w, "at {ms}ms: w {}", g.w);
        assert!(g.h >= from.h && g.h <= to.h, "at {ms}ms: h {}", g.h);
        assert!(g.bars >= 0 && g.bars <= UNIT, "at {ms}ms: bars {}", g.bars);
    }
}

#[test]
fn a_motion_runs_for_its_duration_and_then_holds() {
    let m = Motion::start(Geom::of(PillMode::Hidden), PillMode::Idle, Tween::out_cubic(REVEAL_MS), t(0));
    assert_eq!(m.at(t(0)), Geom::of(PillMode::Hidden));
    assert!(m.is_running(t(0)));
    assert!(m.is_running(t(139)));
    assert!(!m.is_running(t(140)));
    assert_eq!(m.at(t(140)), Geom::of(PillMode::Idle));
    // And it stays there rather than continuing past the target.
    assert_eq!(m.at(t(5000)), Geom::of(PillMode::Idle));
}

/// A snap has no frames to draw at all — not even the first one.
#[test]
fn a_snap_is_already_over_when_it_starts() {
    let m = Motion::start(Geom::of(proc()), done(true), Tween::snap(), t(0));
    assert!(!m.is_running(t(0)));
    assert_eq!(m.at(t(0)), Geom::of(done(true)));
}

/// A pill that is not transitioning is a still image, so the adapter can
/// stop pushing pixels entirely — the whole idle-cost argument.
#[test]
fn a_settled_pill_has_nothing_left_to_draw() {
    let m = Motion::settled(PillMode::Idle, t(0));
    assert!(!m.is_running(t(0)));
    assert_eq!(m.at(t(10_000)), Geom::of(PillMode::Idle));
}

/// Interrupting a transition continues from what is on screen, not from
/// the mode it set out from — otherwise the pill jumps on the frame the
/// second transition begins.
#[test]
fn an_interrupted_transition_continues_from_where_it_looks() {
    let reveal = Motion::start(Geom::of(PillMode::Hidden), PillMode::Idle, Tween::out_cubic(REVEAL_MS), t(0));
    let mid = reveal.at(t(70));
    assert!(mid.fill_a > 0 && mid.fill_a < NUB_FILL_A * UNIT, "{mid:?}");
    let interrupted = Motion::start(mid, REC, Tween::out_cubic(TO_RECORDING_MS), t(70));
    assert_eq!(interrupted.at(t(70)), mid);
    assert_eq!(interrupted.at(t(160)), Geom::of(REC));
}

/// The flash resolves *to* something rather than fading in place: with
/// residency on that is the nub, and both endpoints are real geometry.
#[test]
fn the_flash_returns_to_the_nub_rather_than_to_nothing() {
    let m = Motion::start(Geom::of(done(true)), PillMode::Idle, Tween::out_cubic(TO_IDLE_MS), t(0));
    let end = m.at(t(160));
    assert_eq!(end, Geom::of(PillMode::Idle));
    assert!(
        !is_blank(&end),
        "the pill is still on screen after a session"
    );
    // Halfway, it is genuinely between the two — a morph, not a cut.
    let mid = m.at(t(80));
    assert!(mid.w > Geom::of(PillMode::Idle).w && mid.w < Geom::of(done(true)).w);
}

/// And with residency off it resolves to nothing, over the conceal — the
/// exit is the same one motion, aimed at a blank Geom.
#[test]
fn the_flash_conceals_to_blank_when_there_is_no_nub_to_return_to() {
    let m = Motion::start(Geom::of(done(false)), PillMode::Hidden, Tween::out_cubic(CONCEAL_MS), t(0));
    assert!(!is_blank(&m.at(t(0))));
    assert!(is_blank(&m.at(t(120))));
}

/// A conceal fades in place. With residency off the pill leaving has never
/// been a nub, and shrinking it into one on the way out would be a morph
/// into a shape that user has never seen — the exit residency is switched
/// off to keep unchanged.
#[test]
fn a_conceal_fades_without_reshaping_what_is_leaving() {
    let full = Geom::of(done(true));
    let m = Motion::start(full, PillMode::Hidden, Tween::out_cubic(CONCEAL_MS), t(0));
    for ms in 0..=120 {
        let g = m.at(t(ms));
        assert_eq!((g.w, g.h), (full.w, full.h), "the pill resized at {ms}ms");
    }
}

/// The bar row fades *with* the pill, not after it. It is drawn at its own
/// opacity, so a conceal that only took the body's alphas down left a row
/// of white marks sitting on the desktop with nothing around them.
#[test]
fn a_conceal_takes_the_bar_row_with_it() {
    let m = Motion::start(Geom::of(done(false)), PillMode::Hidden, Tween::out_cubic(CONCEAL_MS), t(0));
    // The row is on the way out the whole time, and gone at the end.
    let start = m.at(t(0)).bars;
    assert!(start > 0, "the flash draws a bar row to begin with");
    for ms in 0..=120 {
        let g = m.at(t(ms));
        assert!(
            g.bars <= start,
            "at {ms}ms the row was brighter than the flash's own: {}",
            g.bars
        );
        // It never outlives the body it sits in.
        assert!(
            g.bars <= 0 || g.fill_a > 0 || g.border_a > 0,
            "at {ms}ms the bars outlived the pill"
        );
    }
    assert_eq!(m.at(t(120)).bars, 0);
}

/// The same rule read the other way: a resident pill's conceal *is* the nub
/// fading, because that is what was on screen. Both cases are one rule.
#[test]
fn concealing_a_resident_pill_is_still_the_nub() {
    let m = Motion::start(Geom::of(PillMode::Idle), PillMode::Hidden, Tween::out_cubic(CONCEAL_MS), t(0));
    assert_eq!(m.at(t(120)), Geom::of(PillMode::Hidden));
}

/// Green and red have to be unmistakable at a glance — they are read
/// peripherally, while the user is looking at where the text landed.
#[test]
fn the_two_flashes_stay_far_apart() {
    let ok = Geom::of(done(true)).border;
    let bad = Geom::of(done(false)).border;
    assert!(ok.1 > ok.0 + 40, "success reads green: {ok:?}");
    assert!(bad.0 > bad.1 + 40, "error reads red: {bad:?}");
}

/// The handoff is 320 ms of animation, not a swap with animation either
/// side of it: at the mode change, Processing has to *be* Recording.
#[test]
fn the_handoff_starts_looking_exactly_like_recording() {
    let m = Motion::start(Geom::of(REC), proc(), Tween::handoff(), t(0));
    assert_eq!(m.at(t(0)), Geom::of(REC));
    assert_eq!(m.at(t(320)), Geom::of(proc()));
}

/// The breath is what a mode says; the hairline is how the pill is found.
/// At the dimmest point of the breath the edge is still the hairline —
/// including mid-handoff, where the tweened border is at its faintest.
#[test]
fn the_breath_never_dims_the_pill_below_its_hairline() {
    let handoff = Motion::start(Geom::of(REC), proc(), Tween::handoff(), t(0));
    for ms in 0..=1200 {
        let base = if ms <= 320 {
            handoff.at(t(ms))
        } else {
            Geom::of(proc())
        };
        let g = breathe(base, pulse(ms));
        assert!(
            g.border_a >= HAIRLINE_A * UNIT,
            "at {ms}ms the edge breathed down to {}",
            g.border_a
        );
    }
}

/// And it actually breathes: a full cycle reaches both ends rather than
/// hovering near one of them.
#[test]
fn the_breath_swings_over_its_cycle() {
    let settled = Geom::of(proc());
    let alphas: Vec<i32> = (0..=1250)
        .map(|ms| breathe(settled, pulse(ms)).border_a)
        .collect();
    let lo = alphas.iter().cloned().min().unwrap();
    let hi = alphas.iter().cloned().max().unwrap();
    assert_eq!(lo, HAIRLINE_A * UNIT);
    assert!(hi > 200 * UNIT, "the breath never reaches full: {hi}");
}

/// The breath is the one thing the Geom table does not own, so it must not
/// touch anything else — a modulation of the edge, not of the shape.
#[test]
fn the_breath_changes_nothing_but_the_edge() {
    let g = Geom::of(proc());
    let b = breathe(g, pulse(400));
    assert_eq!(
        Geom {
            border_a: g.border_a,
            ..b
        },
        g
    );
}

/// A breath halfway open takes a quarter off the edge, and the hairline is its floor.
#[test]
fn a_breath_is_exact() {
    let g = Geom { border_a: 200 * UNIT, ..Geom::of(PillMode::Idle) };
    assert_eq!(breathe(g, WHOLE / 2).border_a, 150 * UNIT);
    assert_eq!(breathe(g, WHOLE).border_a, 200 * UNIT);
    assert_eq!(breathe(g, 0).border_a, HAIRLINE_A * UNIT);
}

/// Halfway through a linear transition every number is halfway.
#[test]
fn a_linear_transition_is_exact_at_its_middle() {
    let m = Motion::start(Geom::of(REC), proc(), Tween::handoff(), t(0));
    let g = m.at(t(160));
    assert_eq!(g.border_a, 170 * UNIT);
    assert_eq!(g.bars, 725);
    assert_eq!(g.border, Rgb(205, 208, 216));
}
