use draft::clock::Instant;
use draft::pill::fullscreen::{
    blocks_ui, covers, is_shell, suppresses, Foreground, Probe, Watcher, EDGE_TOLERANCE,
};
use draft::pill::monitor::{MonitorId, Rect};
use std::cell::Cell;


fn t(ms: u64) -> Instant {
    Instant::from_millis(ms)
}

const LAPTOP: MonitorId = 1;
const EXTERNAL: MonitorId = 2;

fn screen(id: MonitorId) -> Rect {
    // Side by side, so the external's rect is nowhere near the laptop's —
    // a covering window on one cannot be mistaken for one on the other.
    let left = if id == LAPTOP { 0 } else { 1920 };
    Rect {
        left,
        top: 0,
        right: left + 1920,
        bottom: 1080,
    }
}

/// A borderless-windowed game on `id`: its rect is its monitor's, exactly.
fn fullscreen_on(id: MonitorId) -> Probe {
    Probe {
        foreground: Some(Foreground {
            monitor: id,
            rect: screen(id),
            monitor_rect: screen(id),
            zoomed: false,
            visible: true,
            shell: false,
        }),
        session_blocked: false,
    }
}

/// An ordinary window on `id`, covering most of it but not all.
fn windowed_on(id: MonitorId) -> Probe {
    let mut probe = fullscreen_on(id);
    let fg = probe.foreground.as_mut().unwrap();
    fg.rect.top += 40;
    probe
}

/// What this probe decides, with the pill at home on the laptop. `None` is
/// the unknown that keeps whatever was decided last.
fn verdict(probe: Probe) -> Option<bool> {
    suppresses(&probe, Some(LAPTOP))
}

/// The load-bearing case: a borderless game on the pill's own monitor.
#[test]
fn a_fullscreen_window_on_the_home_monitor_suppresses_the_pill() {
    assert_eq!(verdict(fullscreen_on(LAPTOP)), Some(true));
}

/// And the regression that guard exists to prevent: a game on the other
/// screen must not take away a pill the user can still see.
#[test]
fn a_fullscreen_window_on_another_monitor_leaves_the_pill_alone() {
    assert_eq!(verdict(fullscreen_on(EXTERNAL)), Some(false));
    // And it gives the pill back: a game on the home monitor closing while
    // one on the other screen takes focus is a reveal, not a hold.
    let mut w = Watcher::new();
    assert_eq!(
        w.poll(t(0), false, Some(LAPTOP), || fullscreen_on(LAPTOP)),
        Some(true)
    );
    assert_eq!(
        w.poll(t(2_000), false, Some(LAPTOP), || fullscreen_on(EXTERNAL)),
        Some(false)
    );
}

/// With no home monitor derived yet there is nothing to share, so nothing
/// is suppressed by geometry.
#[test]
fn with_no_home_monitor_geometry_suppresses_nothing() {
    assert_eq!(suppresses(&fullscreen_on(LAPTOP), None), Some(false));
}

/// Every guard, as one table. Each of these covers its monitor exactly and
/// is still not a fullscreen app.
#[test]
fn the_guards_reject_windows_that_merely_cover_the_monitor() {
    let covering = |mutate: fn(&mut Foreground)| {
        let mut probe = fullscreen_on(LAPTOP);
        mutate(probe.foreground.as_mut().unwrap());
        probe
    };
    let cases = [
        // Maximized with an autohidden taskbar: rcWork == rcMonitor, so the
        // geometry matches and IsZoomed is the only thing that says no.
        ("maximized", covering(|fg| fg.zoomed = true)),
        // The wallpaper host is monitor-sized and does reach the foreground.
        ("shell window", covering(|fg| fg.shell = true)),
        ("invisible", covering(|fg| fg.visible = false)),
    ];
    for (name, probe) in cases {
        assert_eq!(verdict(probe), Some(false), "{name}");
    }
}

/// A null foreground — every alt-tab passes through one — is unknown, not
/// "nothing is fullscreen". Answering it would flash the pill back over the
/// game mid-switch.
#[test]
fn a_null_foreground_keeps_the_prior_answer() {
    let mut w = Watcher::new();
    w.poll(t(0), false, Some(LAPTOP), || fullscreen_on(LAPTOP));
    assert!(w.suppressed());
    assert_eq!(w.poll(t(2_000), false, Some(LAPTOP), Probe::default), None);
    assert!(w.suppressed(), "an unknown foreground gave the pill back");
}

/// The second signal: session-global, so it hides the pill wherever it is
/// and whatever the foreground says — a locked machine and a screensaver
/// are not "on one monitor".
#[test]
fn the_shells_do_not_disturb_state_suppresses_on_its_own() {
    let probe = Probe {
        foreground: Some(windowed_on(EXTERNAL).foreground.unwrap()),
        session_blocked: true,
    };
    assert_eq!(verdict(probe), Some(true));
    // Including with no foreground window at all — the screensaver case.
    assert_eq!(
        verdict(Probe {
            session_blocked: true,
            ..Probe::default()
        }),
        Some(true)
    );
}

/// Covers, not equals: the invisible resize borders `GetWindowRect`
/// includes, and the apps that overshoot by a pixel, both have to pass.
#[test]
fn the_cover_test_allows_a_little_slack_at_every_edge() {
    let mon = screen(LAPTOP);
    let inset = |by: i32| Rect {
        left: mon.left + by,
        top: mon.top + by,
        right: mon.right - by,
        bottom: mon.bottom - by,
    };
    assert!(covers(inset(EDGE_TOLERANCE), mon));
    assert!(!covers(inset(EDGE_TOLERANCE + 1), mon));
    // Overshoot is fullscreen too.
    assert!(covers(inset(-10), mon));
    // And an ordinary window is not.
    assert_eq!(verdict(windowed_on(LAPTOP)), Some(false));
}

/// The whole cadence: a probe costs six Win32 calls, so it happens once a
/// second — or the moment the foreground changed, which is what makes
/// alt-tabbing into a game feel instant.
#[test]
fn the_watcher_probes_once_a_second_or_when_the_foreground_changed() {
    let probes = Cell::new(0);
    let take = || {
        probes.set(probes.get() + 1);
        windowed_on(LAPTOP)
    };
    let mut w = Watcher::new();
    // The first poll always looks: there is no prior answer to keep.
    w.poll(t(0), false, Some(LAPTOP), take);
    assert_eq!(probes.get(), 1);
    // The app loop wakes twenty times a second and this is not its business.
    for ms in [50, 100, 500, 999] {
        w.poll(t(ms), false, Some(LAPTOP), take);
    }
    assert_eq!(probes.get(), 1, "the idle loop probed");
    // A foreground change does not wait for the interval.
    w.poll(t(120), true, Some(LAPTOP), take);
    assert_eq!(probes.get(), 2);
    // And the interval runs from the last probe, event or poll alike.
    w.poll(t(1_119), false, Some(LAPTOP), take);
    assert_eq!(probes.get(), 2);
    w.poll(t(1_120), false, Some(LAPTOP), take);
    assert_eq!(probes.get(), 3);
}

/// Only changes are reported: the adapter turns each answer into a presence
/// change, and a pill re-suppressed once a second forever would be a mode
/// change once a second forever.
#[test]
fn an_unchanged_answer_is_not_reported() {
    let mut w = Watcher::new();
    assert_eq!(
        w.poll(t(0), false, Some(LAPTOP), || fullscreen_on(LAPTOP)),
        Some(true)
    );
    for ms in [1_000, 2_000, 3_000] {
        assert_eq!(
            w.poll(t(ms), false, Some(LAPTOP), || fullscreen_on(LAPTOP)),
            None
        );
    }
    assert_eq!(
        w.poll(t(4_000), false, Some(LAPTOP), || windowed_on(LAPTOP)),
        Some(false)
    );
}

/// Residency toggled off and back on: whatever was decided while there was
/// no hook and no probe is stale, so the next poll looks immediately rather
/// than up to a second later.
#[test]
fn rearming_looks_again_at_once_without_giving_the_pill_back_first() {
    let mut w = Watcher::new();
    w.poll(t(0), false, Some(LAPTOP), || fullscreen_on(LAPTOP));
    assert!(w.suppressed());
    w.rearm();
    // The answer is kept, not cleared: an unknown probe here would
    // otherwise put the nub back over the game for a second.
    assert!(w.suppressed());
    // That first probe happens well inside the interval, which is the point
    // of rearming — and it lands on an unknown, which changes nothing.
    assert_eq!(w.poll(t(10), false, Some(LAPTOP), Probe::default), None);
    assert!(w.suppressed());
    // The foreground change that resolves the alt-tab brings the next one.
    assert_eq!(
        w.poll(t(20), true, Some(LAPTOP), || windowed_on(LAPTOP)),
        Some(false)
    );
}

/// The states that block the pill everywhere, and the ones that must not: an app
/// that is only busy, a store app, quiet time, and one that takes notifications.
#[test]
fn only_the_session_wide_states_block_the_pill_everywhere() {
    // Not present, running a full screen 3D application, presentation mode.
    for state in [1, 3, 4] {
        assert!(blocks_ui(state), "{state:?} should block");
    }
    // Busy, a store app, quiet time, accepts notifications.
    for state in [2, 7, 6, 5] {
        assert!(!blocks_ui(state), "{state:?} should not block");
    }
}

/// The shell is its own window, this program's windows, and the wallpaper hosts.
#[test]
fn the_shell_is_told_by_its_window_and_class() {
    assert!(is_shell(true, false, None));
    assert!(is_shell(false, true, None));
    assert!(is_shell(false, false, Some("Progman")));
    assert!(is_shell(false, false, Some("WorkerW")));
    assert!(!is_shell(false, false, Some("Notepad")));
    assert!(!is_shell(false, false, None));
}
