use draft::clock::{Duration, Instant, WHOLE};
use draft::pill::state::{
    handoff_damping, linger, Command, Origin, Pill, PillMode, Presence, SessionActivity,
    ERROR_LINGER_MS, HANDOFF_MS, SUCCESS_LINGER_MS,
};


fn t(ms: u64) -> Instant {
    Instant::from_millis(ms)
}

/// The last mode the core handed over while reaching `presence` × `activity`
/// from scratch, read off the command lists — never off private state.
/// `None` means it never handed over a mode at all.
fn mode_for(presence: Presence, activity: SessionActivity) -> Option<PillMode> {
    let mut p = Pill::new();
    let mut cmds = p.set_presence(presence);
    cmds.extend(p.on_session(activity, t(0)));
    cmds.iter().rev().find_map(|c| match c {
        Command::SetMode(m) => Some(*m),
        _ => None,
    })
}

/// Every presence × activity pair, as one table. The rows where they
/// disagree are the point: activity wins in all of them.
#[test]
fn mode_is_derived_from_presence_and_activity() {
    let rec = SessionActivity::Recording {
        origin: Origin::Hotkey,
    };
    let proc = SessionActivity::Processing { since: t(0) };
    let fin = SessionActivity::Finished { ok: true };
    let cases = [
        // Presence alone, with no session running. `Off` × `None` derives
        // `Hidden` like `Suppressed` does, but from a standing start there
        // is no window to hand it to, so nothing is emitted at all —
        // reaching that same cell *with* a window is asserted in
        // `a_session_that_never_shows_anything_leaves_no_window_behind`.
        (Presence::Off, SessionActivity::NoSession, None),
        (
            Presence::Suppressed,
            SessionActivity::NoSession,
            Some(PillMode::Hidden),
        ),
        (
            Presence::Resident { expanded: false },
            SessionActivity::NoSession,
            Some(PillMode::Idle),
        ),
        (
            Presence::Resident { expanded: true },
            SessionActivity::NoSession,
            Some(PillMode::Expanded),
        ),
        // Recording, from each presence.
        (
            Presence::Off,
            rec,
            Some(PillMode::Recording {
                origin: Origin::Hotkey,
            }),
        ),
        (
            Presence::Suppressed,
            rec,
            Some(PillMode::Recording {
                origin: Origin::Hotkey,
            }),
        ),
        (
            Presence::Resident { expanded: false },
            rec,
            Some(PillMode::Recording {
                origin: Origin::Hotkey,
            }),
        ),
        (
            Presence::Resident { expanded: true },
            rec,
            Some(PillMode::Recording {
                origin: Origin::Hotkey,
            }),
        ),
        // Processing, from each presence.
        (
            Presence::Off,
            proc,
            Some(PillMode::Processing { since: t(0) }),
        ),
        (
            Presence::Suppressed,
            proc,
            Some(PillMode::Processing { since: t(0) }),
        ),
        (
            Presence::Resident { expanded: false },
            proc,
            Some(PillMode::Processing { since: t(0) }),
        ),
        (
            Presence::Resident { expanded: true },
            proc,
            Some(PillMode::Processing { since: t(0) }),
        ),
        // The terminal flash, from each presence.
        (
            Presence::Off,
            fin,
            Some(PillMode::Done {
                ok: true,
                since: t(0),
            }),
        ),
        (
            Presence::Suppressed,
            fin,
            Some(PillMode::Done {
                ok: true,
                since: t(0),
            }),
        ),
        (
            Presence::Resident { expanded: false },
            fin,
            Some(PillMode::Done {
                ok: true,
                since: t(0),
            }),
        ),
        (
            Presence::Resident { expanded: true },
            fin,
            Some(PillMode::Done {
                ok: true,
                since: t(0),
            }),
        ),
    ];
    for (presence, activity, expected) in cases {
        assert_eq!(
            mode_for(presence, activity),
            expected,
            "presence {presence:?} x activity {activity:?}"
        );
    }
}

// Flat is a state — "stopped listening". A frozen height is an accident of
// when the key happened to be released, so the handoff has to actually
// reach zero, and reach it from a full-strength waveform.
#[test]
fn the_handoff_drains_the_waveform_to_flat() {
    assert_eq!(handoff_damping(Duration::from_millis(0)), WHOLE);
    assert_eq!(handoff_damping(Duration::from_millis(HANDOFF_MS)), 0);
    assert_eq!(handoff_damping(Duration::from_millis(HANDOFF_MS * 3)), 0);
}

// Linear, not eased: an ease-out lingers near full and then drops, which
// reads as the bars being dragged down rather than losing energy.
#[test]
fn the_handoff_drains_at_a_steady_rate() {
    for step in 0..=4 {
        let t = step as f32 / 4.0;
        let d = handoff_damping(Duration::from_millis(HANDOFF_MS * step / 4)) as f32 / WHOLE as f32;
        assert!((d - (1.0 - t)).abs() < 1e-5, "at {t}: {d}");
        assert_eq!(
            handoff_damping(Duration::from_millis(HANDOFF_MS * step / 4)),
            WHOLE - WHOLE * step / 4
        );
    }
}

// The handoff is longer than the flash's own fade is quick, and long enough
// at the ~30 Hz redraw to be an animation rather than a couple of frames.
#[test]
fn the_handoff_is_long_enough_to_read_as_motion() {
    assert!(HANDOFF_MS >= 250);
    assert!(HANDOFF_MS < SUCCESS_LINGER_MS);
}

#[test]
fn a_session_is_visible_even_when_a_fullscreen_app_suppresses_the_pill() {
    let mut p = Pill::new();
    // Resident, then a fullscreen app takes focus: hidden, window kept.
    assert_eq!(
        p.set_presence(Presence::Resident { expanded: false }),
        vec![
            Command::Create,
            Command::SetMode(PillMode::Idle),
            Command::Show
        ]
    );
    assert_eq!(
        p.set_presence(Presence::Suppressed),
        vec![Command::SetMode(PillMode::Hidden), Command::Hide]
    );
    // A chord press is an explicit request — suppression never wins over it.
    assert_eq!(
        p.on_session(
            SessionActivity::Recording {
                origin: Origin::Hotkey
            },
            t(0)
        ),
        vec![
            Command::SetMode(PillMode::Recording {
                origin: Origin::Hotkey
            }),
            Command::Show
        ]
    );
}

#[test]
fn hover_cannot_expand_a_recording_pill() {
    let mut p = Pill::new();
    p.set_presence(Presence::Resident { expanded: false });
    p.on_session(
        SessionActivity::Recording {
            origin: Origin::Hotkey,
        },
        t(0),
    );
    // The cursor drifts over the pill mid-capture: no mode change at all.
    assert_eq!(
        p.set_presence(Presence::Resident { expanded: true }),
        vec![]
    );
}

#[test]
fn tick_past_linger_retires_the_flash_exactly_once() {
    let mut p = Pill::new();
    p.on_session(SessionActivity::Processing { since: t(0) }, t(0));
    assert_eq!(
        p.on_session(SessionActivity::Finished { ok: true }, t(2000)),
        vec![Command::SetMode(PillMode::Done {
            ok: true,
            since: t(2000)
        })]
    );
    // Before the linger elapses: nothing.
    let early = t(2000 + SUCCESS_LINGER_MS - 1);
    assert!(p.tick(early).is_empty());
    // Once past it, the pill goes — presence is Off, so it has nowhere to
    // return to...
    let late = t(2000 + SUCCESS_LINGER_MS);
    assert_eq!(
        p.tick(late),
        vec![
            Command::SetMode(PillMode::Hidden),
            Command::Hide,
            Command::Destroy
        ]
    );
    // ...and never again.
    assert!(p.tick(late.plus(Duration::from_millis(1000))).is_empty());
}

#[test]
fn a_failed_flash_holds_for_the_longer_linger() {
    let mut p = Pill::new();
    p.on_session(SessionActivity::Finished { ok: false }, t(0));
    // A success would already be gone by here.
    assert!(p.tick(t(0 + SUCCESS_LINGER_MS)).is_empty());
    assert_eq!(p.tick(t(0 + ERROR_LINGER_MS)).len(), 3);
}

#[test]
fn the_state_after_a_session_is_derived_from_presence_not_remembered() {
    let mut p = Pill::new();
    // The session starts with the pill off...
    p.on_session(
        SessionActivity::Recording {
            origin: Origin::Hotkey,
        },
        t(0),
    );
    // ...and residency is switched on while it runs. Activity outranks
    // presence, so nothing changes on screen yet.
    assert_eq!(
        p.set_presence(Presence::Resident { expanded: false }),
        vec![]
    );
    p.on_session(SessionActivity::Finished { ok: true }, t(1000));
    // The flash retires to the *current* presence, not to where it started.
    assert_eq!(
        p.tick(t(1000 + SUCCESS_LINGER_MS)),
        vec![Command::SetMode(PillMode::Idle)]
    );
}

#[test]
fn residency_switched_off_mid_flash_takes_the_window_with_it() {
    let mut p = Pill::new();
    p.set_presence(Presence::Resident { expanded: false });
    p.on_session(SessionActivity::Finished { ok: true }, t(0));
    // Toggled off during the flash: the flash still owns the pill.
    assert_eq!(p.set_presence(Presence::Off), vec![]);
    // And when it retires there is nothing left to return to.
    assert_eq!(
        p.tick(t(0 + SUCCESS_LINGER_MS)),
        vec![
            Command::SetMode(PillMode::Hidden),
            Command::Hide,
            Command::Destroy
        ]
    );
}

#[test]
fn a_resident_window_is_created_once_and_survives_a_whole_session() {
    let mut p = Pill::new();
    let mut cmds = p.set_presence(Presence::Resident { expanded: false });
    cmds.extend(p.on_session(
        SessionActivity::Recording {
            origin: Origin::Hotkey,
        },
        t(0),
    ));
    cmds.extend(p.on_session(SessionActivity::Processing { since: t(500) }, t(500)));
    cmds.extend(p.on_session(SessionActivity::Finished { ok: true }, t(900)));
    cmds.extend(p.tick(t(900 + SUCCESS_LINGER_MS)));
    assert_eq!(
        cmds.iter().filter(|c| **c == Command::Create).count(),
        1,
        "{cmds:?}"
    );
    assert!(!cmds.contains(&Command::Destroy), "{cmds:?}");
}

#[test]
fn a_session_that_never_shows_anything_leaves_no_window_behind() {
    let mut p = Pill::new();
    // Too short a capture, or nothing usable said: straight back to None.
    assert!(p.on_session(SessionActivity::NoSession, t(0)).is_empty());
    assert!(p
        .on_session(
            SessionActivity::Recording {
                origin: Origin::Hotkey
            },
            t(0)
        )
        .contains(&Command::Create));
    assert_eq!(
        p.on_session(SessionActivity::NoSession, t(100)),
        vec![
            Command::SetMode(PillMode::Hidden),
            Command::Hide,
            Command::Destroy
        ]
    );
}

/// Residency turned on: the nub arrives, once, and stays. This is the whole
/// of what the toggle does from a standing start.
#[test]
fn switching_residency_on_puts_the_nub_up_and_leaves_it_there() {
    let mut p = Pill::new();
    assert_eq!(
        p.set_presence(Presence::Resident { expanded: false }),
        vec![
            Command::Create,
            Command::SetMode(PillMode::Idle),
            Command::Show
        ]
    );
    // Idempotent: a config reload that didn't change residency is not a
    // reason to touch the window.
    assert_eq!(
        p.set_presence(Presence::Resident { expanded: false }),
        vec![]
    );
    // And nothing retires a nub — `tick` is the flash's clock alone.
    assert!(p.tick(t(60_000)).is_empty());
}

/// The idle → hidden transition: residency turned off with nothing running.
/// The pill goes, and the window goes with it, because there is nothing
/// left for it to do.
#[test]
fn switching_residency_off_while_idle_takes_the_pill_and_its_window() {
    let mut p = Pill::new();
    p.set_presence(Presence::Resident { expanded: false });
    assert_eq!(
        p.set_presence(Presence::Off),
        vec![
            Command::SetMode(PillMode::Hidden),
            Command::Hide,
            Command::Destroy
        ]
    );
    assert_eq!(p.set_presence(Presence::Off), vec![]);
}

/// Toggled OFF mid-session: the pill is not snatched away. It rides out
/// Recording and Processing, holds the flash, and only then goes.
#[test]
fn residency_switched_off_mid_session_rides_the_session_out() {
    let mut p = Pill::new();
    p.set_presence(Presence::Resident { expanded: false });
    p.on_session(
        SessionActivity::Recording {
            origin: Origin::Hotkey,
        },
        t(0),
    );
    // The user saves settings with residency off while still speaking.
    assert_eq!(p.set_presence(Presence::Off), vec![]);
    // Recording and Processing are unaffected — activity outranks presence.
    assert_eq!(
        p.on_session(SessionActivity::Processing { since: t(500) }, t(500)),
        vec![Command::SetMode(PillMode::Processing { since: t(500) })]
    );
    assert_eq!(
        p.on_session(SessionActivity::Finished { ok: true }, t(800)),
        vec![Command::SetMode(PillMode::Done {
            ok: true,
            since: t(800)
        })]
    );
    // The flash holds its full linger...
    assert!(p
        .tick(t(800 + SUCCESS_LINGER_MS - 1))
        .is_empty());
    // ...and only when it retires does the pill leave.
    assert_eq!(
        p.tick(t(800 + SUCCESS_LINGER_MS)),
        vec![
            Command::SetMode(PillMode::Hidden),
            Command::Hide,
            Command::Destroy
        ]
    );
}

/// Toggled ON mid-session: nothing appears mid-dictation, and the flash
/// retires to the nub rather than to nothing. The other direction of the
/// same rule — the return state is derived, never remembered.
#[test]
fn residency_switched_on_mid_session_shows_the_nub_once_the_flash_retires() {
    let mut p = Pill::new();
    p.on_session(
        SessionActivity::Recording {
            origin: Origin::Hotkey,
        },
        t(0),
    );
    // Turned on while recording: nothing on screen changes.
    assert_eq!(
        p.set_presence(Presence::Resident { expanded: false }),
        vec![]
    );
    p.on_session(SessionActivity::Processing { since: t(500) }, t(500));
    p.on_session(SessionActivity::Finished { ok: false }, t(900));
    // The longer linger, since this one failed.
    assert!(p.tick(t(900 + SUCCESS_LINGER_MS)).is_empty());
    // The flash resolves to the nub, and the window is kept — no Hide, no
    // Destroy, because the pill has somewhere to be.
    assert_eq!(
        p.tick(t(900 + ERROR_LINGER_MS)),
        vec![Command::SetMode(PillMode::Idle)]
    );
}

/// A session started with residency off, toggled on and off again before it
/// ends, resolves to whatever presence says at the moment the flash retires
/// — not to any state it passed through on the way.
#[test]
fn only_the_presence_at_retirement_decides_where_the_flash_goes() {
    let mut p = Pill::new();
    p.on_session(SessionActivity::Finished { ok: true }, t(0));
    p.set_presence(Presence::Resident { expanded: false });
    p.set_presence(Presence::Off);
    p.set_presence(Presence::Resident { expanded: false });
    assert_eq!(
        p.tick(t(0 + SUCCESS_LINGER_MS)),
        vec![Command::SetMode(PillMode::Idle)]
    );
}

#[test]
fn a_click_started_session_reaches_the_adapter_as_one() {
    let mut p = Pill::new();
    assert!(p
        .on_session(
            SessionActivity::Recording {
                origin: Origin::Click
            },
            t(0)
        )
        .contains(&Command::SetMode(PillMode::Recording {
            origin: Origin::Click
        })));
}

/// A failure holds longer than a success, by a fixed amount each.
#[test]
fn lingers_are_exact() {
    assert_eq!(linger(true), Duration::from_millis(500));
    assert_eq!(linger(false), Duration::from_millis(1200));
}

/// Whatever calls come, replaying every command so far gives the window that the last
/// presence and activity ask for.
#[test]
fn replaying_everything_gives_the_window() {
    let mut p = Pill::new();
    let mut window: Option<(bool, Option<PillMode>)> = None;
    let mut replay = |cmds: Vec<Command>| {
        for c in cmds {
            window = match (c, window) {
                (Command::Create, None) => Some((false, None)),
                (Command::SetMode(m), Some((shown, _))) => Some((shown, Some(m))),
                (Command::Show, Some((false, m))) => Some((true, m)),
                (Command::Hide, Some((true, m))) => Some((false, m)),
                (Command::Destroy, Some(_)) => None,
                (c, w) => panic!("{c:?} on {w:?}"),
            };
        }
        window
    };
    let rec = PillMode::Recording {
        origin: Origin::Hotkey,
    };
    let done = PillMode::Done {
        ok: true,
        since: t(200),
    };
    let idle = PillMode::Idle;
    assert_eq!(replay(p.tick(t(0))), None);
    let report = SessionActivity::Recording {
        origin: Origin::Hotkey,
    };
    assert_eq!(replay(p.on_session(report, t(100))), Some((true, Some(rec))));
    assert_eq!(
        replay(p.set_presence(Presence::Suppressed)),
        Some((true, Some(rec)))
    );
    let report = SessionActivity::Finished { ok: true };
    assert_eq!(replay(p.on_session(report, t(200))), Some((true, Some(done))));
    assert_eq!(replay(p.tick(t(699))), Some((true, Some(done))));
    assert_eq!(
        replay(p.tick(t(700))),
        Some((false, Some(PillMode::Hidden)))
    );
    assert_eq!(
        replay(p.set_presence(Presence::Resident { expanded: false })),
        Some((true, Some(idle)))
    );
    assert_eq!(replay(p.set_presence(Presence::Off)), None);
}
