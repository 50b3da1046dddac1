//! The pill gets out of the way of a game, a video or a presentation.
//!
//! Two signals decide, and either is enough: the foreground window covers the
//! pill's home monitor, or the shell says that nothing may be on screen at all.
//! Only the resident pill is suppressed, never what a session shows.
use crate::clock;
use crate::clock::Instant;
use crate::pill::monitor::{MonitorId, Rect};
use crate::text;
use crate::text::same;
use vstd::prelude::*;

verus! {

/// How often the watcher looks with nothing having happened, in milliseconds.
pub const POLL_INTERVAL_MS: u64 = 1000;

/// Slack per edge, in physical pixels, for the invisible borders that a window's
/// rectangle takes in.
pub const EDGE_TOLERANCE: i32 = 2;

/// The foreground window.
#[derive(Clone, Copy, PartialEq, Eq, Debug, Structural)]
pub struct Foreground {
    /// The monitor holding it.
    pub monitor: MonitorId,
    /// The window's own rectangle.
    pub rect: Rect,
    /// That monitor's full rectangle, taskbar and all: against the work area
    /// every maximized window would read as fullscreen.
    pub monitor_rect: Rect,
    /// Maximized, which is not fullscreen.
    pub zoomed: bool,
    pub visible: bool,
    /// The shell's own furniture, or one of this program's windows.
    pub shell: bool,
}

/// One look at the desktop. `foreground` is `None` where it is unknown, as it is
/// for a moment at every switch between windows.
#[derive(Clone, Copy, PartialEq, Eq, Debug)]
pub struct Probe {
    pub foreground: Option<Foreground>,
    /// The shell said that nothing may be on screen.
    pub session_blocked: bool,
}

impl Default for Probe {
    fn default() -> (p: Self)
        ensures
            p == (Probe { foreground: None, session_blocked: false }),
    {
        Probe { foreground: None, session_blocked: false }
    }
}

/// `window` covers `monitor`, give or take the tolerance at every edge.
pub open spec fn covered(window: Rect, monitor: Rect) -> bool {
    &&& window.left <= monitor.left + EDGE_TOLERANCE
    &&& window.top <= monitor.top + EDGE_TOLERANCE
    &&& window.right >= monitor.right - EDGE_TOLERANCE
    &&& window.bottom >= monitor.bottom - EDGE_TOLERANCE
}

/// Whether `window` covers `monitor`.
pub fn covers(window: Rect, monitor: Rect) -> (r: bool)
    ensures
        r == covered(window, monitor),
{
    let t: i64 = EDGE_TOLERANCE as i64;
    window.left as i64 <= monitor.left as i64 + t && window.top as i64 <= monitor.top as i64 + t
        && window.right as i64 >= monitor.right as i64 - t && window.bottom as i64
        >= monitor.bottom as i64 - t
}

/// A foreground window that is a fullscreen app on the monitor `home`.
pub open spec fn fullscreen_on(fg: Foreground, home: Option<MonitorId>) -> bool {
    &&& !fg.shell
    &&& fg.visible
    &&& !fg.zoomed
    &&& home == Some(fg.monitor)
    &&& covered(fg.rect, fg.monitor_rect)
}

/// What a look decides: suppressed or not, or `None` where it is unknown.
pub open spec fn decided(probe: Probe, home: Option<MonitorId>) -> Option<bool> {
    if probe.session_blocked {
        Some(true)
    } else {
        match probe.foreground {
            Some(fg) => Some(fullscreen_on(fg, home)),
            None => None,
        }
    }
}

/// Whether the pill should be suppressed, or `None` for "unknown, keep whatever
/// was decided last".
pub fn suppresses(probe: &Probe, home: Option<MonitorId>) -> (r: Option<bool>)
    ensures
        r == decided(*probe, home),
{
    if probe.session_blocked {
        return Some(true);
    }
    let fg = match probe.foreground {
        Some(fg) => fg,
        None => {
            return None;
        },
    };
    if fg.shell || !fg.visible || fg.zoomed {
        return Some(false);
    }
    let at_home = match home {
        Some(id) => fg.monitor == id,
        None => false,
    };
    if !at_home {
        return Some(false);
    }
    Some(covers(fg.rect, fg.monitor_rect))
}

/// What a [`Watcher`] holds.
pub struct WatcherView {
    pub suppressed: bool,
    pub last: Option<Instant>,
}

/// A poll at `now` looks: the interval is over, the foreground changed, or
/// nobody has looked yet.
pub open spec fn looks(w: WatcherView, now: Instant, foreground_changed: bool) -> bool {
    ||| foreground_changed
    ||| match w.last {
        Some(t) => clock::elapsed(t, now) >= POLL_INTERVAL_MS * 1_000_000,
        None => true,
    }
}

/// The watcher once it has looked. An unknown answer keeps the last one.
pub open spec fn observed(
    w: WatcherView,
    now: Instant,
    home: Option<MonitorId>,
    probe: Probe,
) -> WatcherView {
    WatcherView {
        suppressed: match decided(probe, home) {
            Some(answer) => answer,
            None => w.suppressed,
        },
        last: Some(now),
    }
}

/// The answer where it is not what it was.
pub open spec fn news(before: WatcherView, after: WatcherView) -> Option<bool> {
    if before.suppressed == after.suppressed {
        None
    } else {
        Some(after.suppressed)
    }
}

/// The last answer, and when the watcher last looked.
pub struct Watcher {
    suppressed: bool,
    last: Option<Instant>,
}

impl View for Watcher {
    type V = WatcherView;

    closed spec fn view(&self) -> WatcherView {
        WatcherView { suppressed: self.suppressed, last: self.last }
    }
}

impl Default for Watcher {
    fn default() -> (w: Self)
        ensures
            w@ == (WatcherView { suppressed: false, last: None }),
    {
        Watcher { suppressed: false, last: None }
    }
}

impl Watcher {
    pub fn new() -> (w: Self)
        ensures
            w@ == (WatcherView { suppressed: false, last: None }),
    {
        Watcher { suppressed: false, last: None }
    }

    /// The current answer.
    pub fn suppressed(&self) -> (r: bool)
        ensures
            r == self@.suppressed,
    {
        self.suppressed
    }

    /// Looks again on the very next poll. The answer is kept until then.
    pub fn rearm(&mut self)
        ensures
            final(self)@ == (WatcherView { last: None, ..old(self)@ }),
    {
        self.last = None;
    }

    /// Looks, if this is a poll that should, and returns the answer only where
    /// it changed. Taking the probe is the expensive part, so it is taken only
    /// where the watcher looks.
    pub fn poll<F>(
        &mut self,
        now: Instant,
        foreground_changed: bool,
        home: Option<MonitorId>,
        probe: F,
    ) -> (r: Option<bool>) where F: FnOnce() -> Probe
        requires
            call_requires(probe, ()),
        ensures
            looks(old(self)@, now, foreground_changed) ==> exists|p: Probe| #[trigger]
                call_ensures(probe, (), p) && final(self)@ == observed(old(self)@, now, home, p),
            !looks(old(self)@, now, foreground_changed) ==> final(self)@ == old(self)@,
            r == news(old(self)@, final(self)@),
    {
        let due = match self.last {
            Some(t) => now.saturating_duration_since(t).nanos >= POLL_INTERVAL_MS * 1_000_000,
            None => true,
        };
        if !due && !foreground_changed {
            return None;
        }
        let p = probe();
        self.observe(now, home, &p)
    }

    /// Takes one look at the desktop.
    pub fn observe(&mut self, now: Instant, home: Option<MonitorId>, probe: &Probe) -> (r: Option<
        bool,
    >)
        ensures
            final(self)@ == observed(old(self)@, now, home, *probe),
            r == news(old(self)@, final(self)@),
    {
        self.last = Some(now);
        let answer = match suppresses(probe, home) {
            Some(answer) => answer,
            None => {
                return None;
            },
        };
        if answer == self.suppressed {
            return None;
        }
        self.suppressed = answer;
        Some(answer)
    }
}

/// The shell's states in which nothing may be on screen anywhere: nobody is
/// present, a full-screen application runs in exclusive mode, or a presentation
/// is on. Being merely busy is none of them: it does not say on which monitor.
pub open spec fn blocking_state(state: i32) -> bool {
    state == 1 || state == 3 || state == 4
}

/// Whether the shell's notification state means that nothing may be on screen.
pub fn blocks_ui(state: i32) -> (r: bool)
    ensures
        r == blocking_state(state),
{
    state == 1 || state == 3 || state == 4
}

/// The window classes that belong to the shell: the desktop, the wallpaper's
/// host and the taskbar.
pub open spec fn shell_class(class: Seq<char>) -> bool {
    class == "Progman"@ || class == "WorkerW"@ || class == "Shell_TrayWnd"@
}

/// Whether a window is the shell's furniture or this program's own. `class` is
/// `None` where the window's class could not be read.
pub fn is_shell(shell_window: bool, own_process: bool, class: Option<&str>) -> (r: bool)
    ensures
        r == (shell_window || own_process || (class matches Some(c) && shell_class(c@))),
{
    if shell_window || own_process {
        return true;
    }
    match class {
        Some(c) => same(c, "Progman") || same(c, "WorkerW") || same(c, "Shell_TrayWnd"),
        None => false,
    }
}

/// An unknown foreground keeps the prior answer and reports nothing.
pub proof fn law_unknown_keeps_the_answer(w: WatcherView, now: Instant, home: Option<MonitorId>)
    ensures
        ({
            let unknown = Probe { foreground: None, session_blocked: false };
            let after = observed(w, now, home, unknown);
            after.suppressed == w.suppressed && news(w, after) is None
        }),
{
}

/// Only changes are reported: the same look twice is news at most once.
pub proof fn law_only_changes_are_news(
    w: WatcherView,
    now: Instant,
    later: Instant,
    home: Option<MonitorId>,
    probe: Probe,
)
    ensures
        ({
            let once = observed(w, now, home, probe);
            news(once, observed(once, later, home, probe)) is None
        }),
{
}

/// A fullscreen window on another monitor, or with no home monitor known, leaves
/// the pill alone.
pub proof fn law_other_monitors_do_not_count(fg: Foreground, home: Option<MonitorId>)
    requires
        home != Some(fg.monitor),
    ensures
        decided(Probe { foreground: Some(fg), session_blocked: false }, home) == Some(false),
{
}

/// The shell's word suppresses the pill whatever the foreground is.
pub proof fn law_the_shells_word_is_enough(
    foreground: Option<Foreground>,
    home: Option<MonitorId>,
)
    ensures
        decided(Probe { foreground, session_blocked: true }, home) == Some(true),
{
}

/// After re-arming the next poll looks, and until then the answer stands.
pub proof fn law_rearming_looks_at_once(w: WatcherView, now: Instant)
    ensures
        looks(WatcherView { last: None, ..w }, now, false),
{
}

/// Growing the window never uncovers the monitor.
pub proof fn law_covering_is_monotone(inner: Rect, outer: Rect, monitor: Rect)
    requires
        covered(inner, monitor),
        outer.left <= inner.left,
        outer.top <= inner.top,
        outer.right >= inner.right,
        outer.bottom >= inner.bottom,
    ensures
        covered(outer, monitor),
{
}

/// What counts as a fullscreen app: a visible window that is not the shell's and not
/// merely maximized, on the pill's own monitor, and that misses no edge of it by more than
/// two pixels.
pub proof fn law_what_suppresses_the_pill(fg: Foreground, home: MonitorId)
    ensures
        decided(Probe { foreground: Some(fg), session_blocked: false }, Some(home)) == Some(
            fg.visible && !fg.zoomed && !fg.shell && fg.monitor == home && fg.rect.left
                - fg.monitor_rect.left <= 2 && fg.rect.top - fg.monitor_rect.top <= 2
                && fg.monitor_rect.right - fg.rect.right <= 2 && fg.monitor_rect.bottom
                - fg.rect.bottom <= 2,
        ),
{
}

/// The watcher looks when the foreground changed, when nobody has looked yet, and when a
/// second has gone by; in between it does not.
pub proof fn law_when_the_watcher_looks(
    suppressed: bool,
    last: Instant,
    now: Instant,
    changed: bool,
)
    ensures
        looks(WatcherView { suppressed, last: Some(last) }, now, changed) <==> changed
            || clock::elapsed(last, now) >= 1_000_000_000,
        looks(WatcherView { suppressed, last: None }, now, changed),
{
}

/// A look takes its answer over and stamps the moment, and what is told is the new answer,
/// where it is another one.
pub proof fn law_a_look_is_taken_over(
    w: WatcherView,
    now: Instant,
    home: Option<MonitorId>,
    probe: Probe,
    answer: bool,
)
    requires
        decided(probe, home) == Some(answer),
    ensures
        observed(w, now, home, probe) == (WatcherView { suppressed: answer, last: Some(now) }),
        w.suppressed != answer ==> news(w, observed(w, now, home, probe)) == Some(answer),
        w.suppressed == answer ==> news(w, observed(w, now, home, probe)) is None,
{
}

/// Nothing may be on screen while nobody is there, while a program owns the screen, and
/// during a presentation. Every other state of the shell leaves the pill alone.
pub proof fn law_when_nothing_may_be_on_screen(state: i32)
    ensures
        blocking_state(state) <==> state == 1 || state == 3 || state == 4,
{
}

/// The desktop, the wallpaper's host and the taskbar are the shell's, and no other window
/// class is.
pub proof fn law_what_belongs_to_the_shell(class: Seq<char>)
    ensures
        shell_class("Progman"@),
        shell_class("WorkerW"@),
        shell_class("Shell_TrayWnd"@),
        class != "Progman"@ && class != "WorkerW"@ && class != "Shell_TrayWnd"@ ==> !shell_class(
            class,
        ),
{
}

} // verus!
