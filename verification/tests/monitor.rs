use draft::clock::Instant;
use draft::pill::monitor::{
    before_nul, effective_dpi, identify, sample, target_name, wide_to_string, Displays, Home,
    HomeMonitor, MonitorId, MonitorInfo, Policy, Rect, Signals, Target, Trigger, CURSOR_DWELL_MS,
};
use draft::pill::{ENVELOPE_H, ENVELOPE_W, PILL_BOTTOM_MARGIN};

/// A monitor's scale: its DPI over the DPI of an unscaled one.
fn scale(home: &HomeMonitor) -> f32 {
    home.dpi as f32 / 96.0
}


fn t(ms: u64) -> Instant {
    Instant::from_millis(ms)
}

const LAPTOP: MonitorId = 1;
const EXTERNAL: MonitorId = 2;

/// A 150% laptop panel left of a 100% external — the ordinary Windows
/// mixed-DPI desk, where every crossing is also a scale change.
fn desk() -> Displays {
    Displays::new(vec![
        MonitorInfo {
            id: LAPTOP,
            work: Rect {
                left: 0,
                top: 0,
                right: 2560,
                bottom: 1520,
            },
            dpi: 144,
            primary: true,
            device_path: Some(r"\\?\DISPLAY#LAPTOP#EDID".into()),
            friendly_name: Some("Built-in display".into()),
        },
        MonitorInfo {
            id: EXTERNAL,
            work: Rect {
                left: 2560,
                top: 0,
                right: 6400,
                bottom: 2112,
            },
            dpi: 96,
            primary: false,
            device_path: Some(r"\\?\DISPLAY#DELL#EDID".into()),
            friendly_name: Some("DELL U2720Q".into()),
        },
    ])
}

fn idle() -> Trigger {
    Trigger::Poll { idle: true }
}

fn on(id: MonitorId) -> Signals {
    Signals {
        focused: Some(id),
        cursor: Some(id),
    }
}

/// The whole point of the policy: four rules, four answers, off the same
/// desk and the same signals.
#[test]
fn each_policy_names_its_own_monitor() {
    let desk = desk();
    let signals = Signals {
        focused: Some(EXTERNAL),
        cursor: Some(EXTERNAL),
    };
    let cases = [
        (Policy::Focused, None, EXTERNAL),
        // `cursor` is the one that has to wait, so it is asserted on its own
        // below; here it is only shown reaching the same monitor.
        (Policy::Primary, None, LAPTOP),
        (
            Policy::Pinned,
            Some(r"\\?\DISPLAY#DELL#EDID".to_string()),
            EXTERNAL,
        ),
        (
            Policy::Pinned,
            Some(r"\\?\DISPLAY#LAPTOP#EDID".to_string()),
            LAPTOP,
        ),
    ];
    for (policy, pin, expected) in cases {
        let mut home = Home::new(policy, pin.clone());
        let got = home.update(Trigger::Rederive, &desk, signals, t(0));
        assert_eq!(
            got.map(|h| h.id),
            Some(expected),
            "policy {policy:?} pin {pin:?}"
        );
    }
}

/// The signal the policy doesn't read is not allowed to move the pill —
/// `focused` must ignore the cursor and `cursor` must ignore focus.
#[test]
fn a_policy_reads_only_its_own_signal() {
    let desk = desk();
    let mut focused = Home::new(Policy::Focused, None);
    focused.update(Trigger::Rederive, &desk, on(LAPTOP), t(0));
    // The cursor wanders to the external; focus stays put.
    let signals = Signals {
        focused: Some(LAPTOP),
        cursor: Some(EXTERNAL),
    };
    assert_eq!(focused.update(idle(), &desk, signals, t(5_000)), None);
    assert_eq!(focused.current().map(|h| h.id), Some(LAPTOP));
}

/// No dwell for `focused`: a focus change is deliberate, and its monitor is
/// already settled by the time we hear about it.
#[test]
fn focus_moves_the_pill_on_the_very_next_poll() {
    let desk = desk();
    let mut home = Home::new(Policy::Focused, None);
    home.update(Trigger::Rederive, &desk, on(LAPTOP), t(0));
    assert_eq!(
        home.update(idle(), &desk, on(EXTERNAL), t(1)).map(|h| h.id),
        Some(EXTERNAL)
    );
}

/// Dragging across a bezel and back must not teleport the pill twice. It
/// never moves at all here: the cursor is back before the dwell is up.
#[test]
fn a_bezel_round_trip_inside_the_dwell_never_moves_the_pill() {
    let desk = desk();
    let mut home = Home::new(Policy::Cursor, None);
    home.update(Trigger::Rederive, &desk, on(LAPTOP), t(0));
    // Across the bezel...
    assert_eq!(home.update(idle(), &desk, on(EXTERNAL), t(50)), None);
    assert_eq!(home.update(idle(), &desk, on(EXTERNAL), t(150)), None);
    // ...and back, well inside the dwell.
    assert_eq!(home.update(idle(), &desk, on(LAPTOP), t(200)), None);
    // The abandoned dwell must not be banked: crossing again starts over,
    // so t(250) is not "300 ms since the first crossing".
    assert_eq!(home.update(idle(), &desk, on(EXTERNAL), t(250)), None);
    assert_eq!(home.update(idle(), &desk, on(EXTERNAL), t(400)), None);
    assert_eq!(home.current().map(|h| h.id), Some(LAPTOP));
}

/// The cursor that stays put does move it — after the dwell, not before.
#[test]
fn the_cursor_moves_the_pill_once_it_has_settled() {
    let desk = desk();
    let mut home = Home::new(Policy::Cursor, None);
    home.update(Trigger::Rederive, &desk, on(LAPTOP), t(0));
    assert_eq!(home.update(idle(), &desk, on(EXTERNAL), t(1_000)), None);
    let just_short = 1_000 + CURSOR_DWELL_MS - 1;
    assert_eq!(
        home.update(idle(), &desk, on(EXTERNAL), t(just_short)),
        None
    );
    let settled = 1_000 + CURSOR_DWELL_MS;
    assert_eq!(
        home.update(idle(), &desk, on(EXTERNAL), t(settled))
            .map(|h| h.id),
        Some(EXTERNAL)
    );
    // And having arrived, it stops emitting.
    assert_eq!(home.update(idle(), &desk, on(EXTERNAL), t(9_999)), None);
}

/// The latch: while a session runs or the pill is expanded, nothing moves it
/// — not even a focus change, which is otherwise instant.
#[test]
fn the_latch_holds_while_a_session_runs_or_the_pill_is_expanded() {
    let desk = desk();
    let mut home = Home::new(Policy::Focused, None);
    home.update(Trigger::Rederive, &desk, on(LAPTOP), t(0));
    let latched = Trigger::Poll { idle: false };
    for ms in [10, 200, 5_000] {
        assert_eq!(home.update(latched, &desk, on(EXTERNAL), t(ms)), None);
    }
    assert_eq!(home.current().map(|h| h.id), Some(LAPTOP));
    // Back to idle, and it goes where it was always going to go.
    assert_eq!(
        home.update(idle(), &desk, on(EXTERNAL), t(5_001))
            .map(|h| h.id),
        Some(EXTERNAL)
    );
}

/// A dwell may not run down behind the latch either — a session that
/// outlasts 300 ms would otherwise land the pill somewhere else the instant
/// it ends.
#[test]
fn a_dwell_does_not_accumulate_behind_the_latch() {
    let desk = desk();
    let mut home = Home::new(Policy::Cursor, None);
    home.update(Trigger::Rederive, &desk, on(LAPTOP), t(0));
    assert_eq!(home.update(idle(), &desk, on(EXTERNAL), t(100)), None);
    // A session starts and runs for two seconds with the cursor over there.
    for ms in [150, 1_000, 2_000] {
        assert_eq!(
            home.update(Trigger::Poll { idle: false }, &desk, on(EXTERNAL), t(ms)),
            None
        );
    }
    // The first idle poll after it restarts the clock rather than firing.
    assert_eq!(home.update(idle(), &desk, on(EXTERNAL), t(2_001)), None);
    assert_eq!(
        home.update(
            idle(),
            &desk,
            on(EXTERNAL),
            t(2_001 + CURSOR_DWELL_MS)
        )
        .map(|h| h.id),
        Some(EXTERNAL)
    );
}

/// `WM_DISPLAYCHANGE` is the one thing that overrides the latch: the pill
/// may be mid-sentence, but its coordinate space no longer exists.
#[test]
fn a_display_change_breaks_the_latch_and_skips_the_dwell() {
    let desk = desk();
    let mut home = Home::new(Policy::Cursor, None);
    home.update(Trigger::Rederive, &desk, on(LAPTOP), t(0));
    // Latched, and no dwell served — it moves anyway, immediately.
    assert_eq!(
        home.update(Trigger::Rederive, &desk, on(EXTERNAL), t(1))
            .map(|h| h.id),
        Some(EXTERNAL)
    );
}

/// The same monitor with a different work area or DPI is still a move: a
/// taskbar appearing, or a resolution change, both arrive this way and both
/// leave the pill in the wrong place until it re-places.
#[test]
fn the_same_monitor_resized_under_the_pill_still_reports_a_move() {
    let mut home = Home::new(Policy::Primary, None);
    home.update(Trigger::Rederive, &desk(), Signals::default(), t(0));
    let mut all = desk().all().to_vec();
    all[0].work.bottom = 1400;
    all[0].dpi = 120;
    let shrunk = Displays::new(all);
    let after = home
        .update(Trigger::Rederive, &shrunk, Signals::default(), t(1))
        .expect("a resized home monitor is a move");
    assert_eq!(after.id, LAPTOP);
    assert_eq!(after.work.bottom, 1400);
    assert_eq!(after.dpi, 120);
}

/// A pinned monitor that is not connected — unplugged, or moved to another
/// port, which can change the EDID path. It falls back to primary rather
/// than leaving the pill nowhere.
#[test]
fn an_unresolvable_pin_falls_back_to_primary() {
    let desk = desk();
    let mut home = Home::new(Policy::Pinned, Some(r"\\?\DISPLAY#GONE#EDID".into()));
    assert_eq!(
        home.update(Trigger::Rederive, &desk, Signals::default(), t(0))
            .map(|h| h.id),
        Some(LAPTOP)
    );
    // So does a policy of `pinned` with nothing pinned yet.
    let mut unset = Home::new(Policy::Pinned, None);
    assert_eq!(
        unset
            .update(Trigger::Rederive, &desk, Signals::default(), t(0))
            .map(|h| h.id),
        Some(LAPTOP)
    );
}

/// Every policy falls back the same way when its signal names nothing —
/// a foreground window Windows won't place, a cursor off every monitor.
#[test]
fn a_signal_naming_nothing_falls_back_to_primary() {
    let desk = desk();
    for policy in [Policy::Focused, Policy::Cursor] {
        let mut home = Home::new(policy, None);
        assert_eq!(
            home.update(Trigger::Rederive, &desk, Signals::default(), t(0))
                .map(|h| h.id),
            Some(LAPTOP),
            "{policy:?}"
        );
    }
    // As does a signal naming a monitor that has since gone.
    let mut home = Home::new(Policy::Focused, None);
    assert_eq!(
        home.update(Trigger::Rederive, &desk, on(99), t(0))
            .map(|h| h.id),
        Some(LAPTOP)
    );
}

/// Windows names no primary while the topology is mid-change. The universal
/// fallback still has to answer with something.
#[test]
fn with_no_primary_flagged_the_fallback_is_still_a_monitor() {
    let mut all = desk().all().to_vec();
    all[0].primary = false;
    let displays = Displays::new(all);
    let mut home = Home::new(Policy::Primary, None);
    assert_eq!(
        home.update(Trigger::Rederive, &displays, Signals::default(), t(0))
            .map(|h| h.id),
        Some(LAPTOP)
    );
}

/// No monitors at all: keep what we have. A stale home monitor beats none,
/// and the display change that follows settles it.
#[test]
fn an_empty_desk_leaves_the_home_monitor_alone() {
    let mut home = Home::new(Policy::Primary, None);
    home.update(Trigger::Rederive, &desk(), Signals::default(), t(0));
    assert_eq!(
        home.update(
            Trigger::Rederive,
            &Displays::default(),
            Signals::default(),
            t(1)
        ),
        None
    );
    assert_eq!(home.current().map(|h| h.id), Some(LAPTOP));
}

/// A DPI change rescales the monitor the pill is on. It re-places, and it
/// does *not* get to run the policy again — the latch belongs to
/// `WM_DISPLAYCHANGE` alone.
#[test]
fn a_dpi_change_rescales_the_home_monitor_without_re_running_the_policy() {
    let desk = desk();
    let mut home = Home::new(Policy::Focused, None);
    home.update(Trigger::Rederive, &desk, on(LAPTOP), t(0));
    // The laptop panel is set to 200%, and the foreground window has since
    // moved to the external — which must not be allowed to matter.
    let mut all = desk.all().to_vec();
    all[0].dpi = 192;
    all[0].work.bottom = 1140;
    let rescaled = Displays::new(all);
    let after = home
        .refresh(&rescaled)
        .expect("a rescaled monitor re-places");
    assert_eq!(after.id, LAPTOP);
    assert_eq!(after.dpi, 192);
    assert_eq!(scale(&after), 2.0);
    // Idempotent — nothing moved the second time.
    assert_eq!(home.refresh(&rescaled), None);
}

/// A home monitor that has gone is not this event's problem: the
/// `WM_DISPLAYCHANGE` that unplugged it re-derives properly.
#[test]
fn refreshing_a_vanished_home_monitor_leaves_it_alone() {
    let desk = desk();
    let mut home = Home::new(Policy::Focused, None);
    home.update(Trigger::Rederive, &desk, on(EXTERNAL), t(0));
    let only_laptop = Displays::new(desk.all()[..1].to_vec());
    assert_eq!(home.refresh(&only_laptop), None);
    assert_eq!(home.current().map(|h| h.id), Some(EXTERNAL));
}

/// A policy change from settings re-derives on the same path startup takes,
/// and abandons any dwell the old policy had going.
#[test]
fn changing_the_policy_re_derives_from_scratch() {
    let desk = desk();
    let mut home = Home::new(Policy::Cursor, None);
    home.update(Trigger::Rederive, &desk, on(LAPTOP), t(0));
    home.update(idle(), &desk, on(EXTERNAL), t(100));
    home.configure(Policy::Pinned, Some(r"\\?\DISPLAY#DELL#EDID".into()));
    assert_eq!(
        home.update(Trigger::Rederive, &desk, Signals::default(), t(150))
            .map(|h| h.id),
        Some(EXTERNAL)
    );
}

/// Only the policies with a per-poll signal cost anything per poll.
#[test]
fn only_the_following_policies_sample_anything() {
    assert!(Policy::Focused.samples_foreground());
    assert!(!Policy::Focused.samples_cursor());
    assert!(Policy::Cursor.samples_cursor());
    assert!(!Policy::Cursor.samples_foreground());
    for policy in [Policy::Primary, Policy::Pinned] {
        assert!(!policy.samples_foreground(), "{policy:?}");
        assert!(!policy.samples_cursor(), "{policy:?}");
    }
}

// ---- placement -----------------------------------------------------

/// The gap under the pill is measured from the work area, so it is the same
/// number of *logical* pixels on every monitor whatever its taskbar and
/// whatever its DPI.
#[test]
fn the_gap_under_the_pill_is_identical_on_every_monitor() {
    for m in desk().all() {
        let home = HomeMonitor::from(m);
        let p = home.placement();
        let gap = (home.work.bottom - p.bottom) as f32 / scale(&home);
        assert!(
            (gap - PILL_BOTTOM_MARGIN as f32).abs() <= 1.0,
            "monitor {} gap {gap}",
            m.id
        );
    }
}

/// Anchored to `rcWork`, so the pill sits above a bottom taskbar rather than
/// over it — and a left-docked one shifts the horizontal centre for free.
#[test]
fn the_pill_clears_the_taskbar_and_centres_on_the_work_area() {
    // A monitor with a 48px bottom taskbar and a 60px left dock.
    let m = MonitorInfo {
        id: 7,
        work: Rect {
            left: 60,
            top: 0,
            right: 1920,
            bottom: 1032,
        },
        dpi: 96,
        primary: true,
        device_path: None,
        friendly_name: None,
    };
    let home = HomeMonitor::from(&m);
    let p = home.placement();
    assert!(p.bottom <= m.work.bottom, "the pill overlaps the taskbar");
    assert!(p.left >= m.work.left, "the pill overlaps the left dock");
    // Centred on the work area, not on the monitor.
    let slack = (m.work.left + m.work.right) / 2 - (p.left + p.right) / 2;
    assert!(slack.abs() <= 1, "off-centre by {slack}");
}

/// The window is the envelope, scaled by the home monitor — which is what
/// makes the pill the same physical size on a 150% panel and a 100% one.
#[test]
fn the_window_is_the_envelope_at_the_home_monitors_scale() {
    for m in desk().all() {
        let home = HomeMonitor::from(m);
        let p = home.placement();
        let expected_w = (ENVELOPE_W as f32 * scale(&home)).round() as i32;
        let expected_h = (ENVELOPE_H as f32 * scale(&home)).round() as i32;
        assert_eq!(
            (p.width(), p.height()),
            (expected_w, expected_h),
            "{}",
            m.id
        );
    }
}

/// The window's exact place on an ordinary monitor, and at a scale that rounds.
#[test]
fn placement_is_exact() {
    let mut home = HomeMonitor {
        id: 1,
        work: Rect { left: 0, top: 0, right: 1920, bottom: 1040 },
        dpi: 96,
    };
    assert_eq!(
        home.placement(),
        Rect { left: 898, top: 956, right: 1022, bottom: 1020 }
    );
    home.dpi = 120;
    assert_eq!(
        home.placement(),
        Rect { left: 882, top: 935, right: 1037, bottom: 1015 }
    );
}

/// A signal that a policy does not read does not reach it.
#[test]
fn sampling_keeps_what_the_policy_reads() {
    assert_eq!(
        sample(Policy::Focused, Some(1), Some(2)),
        Signals { focused: Some(1), cursor: None }
    );
    assert_eq!(
        sample(Policy::Cursor, Some(1), Some(2)),
        Signals { focused: None, cursor: Some(2) }
    );
    assert_eq!(sample(Policy::Primary, Some(1), Some(2)), Signals::default());
}

/// A fixed-size field ends at its first zero, and what is no UTF-16 is replaced.
#[test]
fn wide_fields_are_decoded_up_to_the_first_zero() {
    let buf: Vec<u16> = vec![0x44, 0x45, 0x4c, 0x4c, 0, 0x41, 0];
    assert_eq!(before_nul(&buf), vec![0x44, 0x45, 0x4c, 0x4c]);
    assert_eq!(wide_to_string(&buf), "DELL");
    assert_eq!(wide_to_string(&vec![0xd83d, 0xde00]), "\u{1f600}");
    assert_eq!(wide_to_string(&vec![0x41, 0xd800, 0x42]), "A\u{fffd}B");
    assert_eq!(wide_to_string(&vec![]), "");
}

/// A monitor takes the path and name of the target on its slot, the last where
/// several name it, and goes without where none does.
#[test]
fn monitors_are_joined_to_targets_by_their_slot() {
    let target = |slot: &str, path: &str| Target {
        slot: slot.to_string(),
        path: path.to_string(),
        friendly_name: None,
    };
    let targets = vec![target("D1", "first"), target("D2", "other"), target("D1", "second")];
    let m = identify(4, Rect::default(), 96, true, "D1", &targets);
    assert_eq!(m.device_path, Some("second".to_string()));
    assert_eq!((m.id, m.dpi, m.primary), (4, 96, true));
    let m = identify(5, Rect::default(), 96, false, "D9", &targets);
    assert_eq!((m.device_path, m.friendly_name), (None, None));
}

/// A target without a path of its own is no target, and an empty name is none.
#[test]
fn a_target_needs_a_path() {
    assert!(target_name("D1".into(), "".into(), "Panel".into()).is_none());
    let t = target_name("D1".into(), "p".into(), "".into()).unwrap();
    assert_eq!((t.path.as_str(), t.friendly_name), ("p", None));
    let t = target_name("D1".into(), "p".into(), "Panel".into()).unwrap();
    assert_eq!(t.friendly_name, Some("Panel".to_string()));
}

/// A DPI that is missing or zero is the unscaled one.
#[test]
fn a_missing_dpi_is_the_unscaled_one() {
    assert_eq!(effective_dpi(None), 96);
    assert_eq!(effective_dpi(Some(0)), 96);
    assert_eq!(effective_dpi(Some(144)), 144);
}
