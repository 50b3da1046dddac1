//! The pill's home monitor: the one screen it lives on, and the policy that
//! picks it.
//!
//! - The home monitor is derived anew only while the pill is idle. While a
//!   session runs or the pill is expanded it stays where it is.
//! - The focused policy moves the pill at once; the cursor policy waits until
//!   the cursor has settled on the new monitor.
//! - A change of the displays derives it anew in any case.
//! - The primary monitor is the fallback of every policy.
use crate::clock;
use crate::clock::Instant;
use crate::config;
use crate::pill::{ENVELOPE_H, ENVELOPE_W, PILL_BOTTOM_MARGIN};
use crate::text;
use crate::text::same;
use vstd::prelude::*;

verus! {

/// How long the cursor has to sit on a new monitor before the pill follows it,
/// in milliseconds.
pub const CURSOR_DWELL_MS: u64 = 300;

/// What a monitor reports when its DPI cannot be read: 100%.
pub const DEFAULT_DPI: u32 = 96;

/// A monitor's handle, as plain data.
pub type MonitorId = isize;

/// A screen rectangle in physical pixels.
#[derive(Clone, Copy, PartialEq, Eq, Debug, Structural)]
pub struct Rect {
    pub left: i32,
    pub top: i32,
    pub right: i32,
    pub bottom: i32,
}

impl Default for Rect {
    fn default() -> (r: Self)
        ensures
            r == (Rect { left: 0, top: 0, right: 0, bottom: 0 }),
    {
        Rect { left: 0, top: 0, right: 0, bottom: 0 }
    }
}

/// `x` is a number of pixels that a coordinate can hold.
pub open spec fn fits(x: int) -> bool {
    i32::MIN <= x <= i32::MAX
}

impl Rect {
    pub fn width(&self) -> (w: i32)
        requires
            fits(self.right - self.left),
        ensures
            w == self.right - self.left,
    {
        self.right - self.left
    }

    pub fn height(&self) -> (h: i32)
        requires
            fits(self.bottom - self.top),
        ensures
            h == self.bottom - self.top,
    {
        self.bottom - self.top
    }
}

/// One connected monitor, as the policy needs to see it.
#[derive(Clone, PartialEq, Eq, Debug)]
pub struct MonitorInfo {
    pub id: MonitorId,
    /// The monitor minus its taskbar and any other bar.
    pub work: Rect,
    /// Effective DPI; 96 is 100%.
    pub dpi: u32,
    pub primary: bool,
    /// What identifies the physical monitor, where that is known; a monitor
    /// without it cannot be pinned.
    pub device_path: Option<String>,
    /// The name that the settings show for it.
    pub friendly_name: Option<String>,
}

/// The monitor's device path is `path`.
pub open spec fn has_path(m: MonitorInfo, path: Seq<char>) -> bool {
    m.device_path matches Some(p) && p@ == path
}

/// The first monitor with this handle.
pub open spec fn find_id(ms: Seq<MonitorInfo>, id: MonitorId) -> Option<MonitorInfo>
    decreases ms.len(),
{
    if ms.len() == 0 {
        None
    } else if ms[0].id == id {
        Some(ms[0])
    } else {
        find_id(ms.skip(1), id)
    }
}

/// The first monitor with this device path.
pub open spec fn find_path(ms: Seq<MonitorInfo>, path: Seq<char>) -> Option<MonitorInfo>
    decreases ms.len(),
{
    if ms.len() == 0 {
        None
    } else if has_path(ms[0], path) {
        Some(ms[0])
    } else {
        find_path(ms.skip(1), path)
    }
}

/// The first monitor that is flagged as primary.
pub open spec fn find_flagged(ms: Seq<MonitorInfo>) -> Option<MonitorInfo>
    decreases ms.len(),
{
    if ms.len() == 0 {
        None
    } else if ms[0].primary {
        Some(ms[0])
    } else {
        find_flagged(ms.skip(1))
    }
}

/// The primary monitor, or whatever is first where none is flagged.
pub open spec fn find_primary(ms: Seq<MonitorInfo>) -> Option<MonitorInfo> {
    match find_flagged(ms) {
        Some(m) => Some(m),
        None => if ms.len() > 0 {
            Some(ms[0])
        } else {
            None
        },
    }
}

/// A found monitor without the reference around it.
pub open spec fn found(r: Option<&MonitorInfo>) -> Option<MonitorInfo> {
    match r {
        Some(m) => Some(*m),
        None => None,
    }
}

/// The connected monitors, as of the last enumeration.
#[derive(Clone, PartialEq, Eq, Debug)]
pub struct Displays(Vec<MonitorInfo>);

impl View for Displays {
    type V = Seq<MonitorInfo>;

    closed spec fn view(&self) -> Seq<MonitorInfo> {
        self.0@
    }
}

impl Default for Displays {
    fn default() -> (d: Self)
        ensures
            d@ == Seq::<MonitorInfo>::empty(),
    {
        Displays(Vec::new())
    }
}

impl Displays {
    pub fn new(monitors: Vec<MonitorInfo>) -> (d: Self)
        ensures
            d@ == monitors@,
    {
        Displays(monitors)
    }

    pub fn all(&self) -> (r: &[MonitorInfo])
        ensures
            r@ == self@,
    {
        self.0.as_slice()
    }

    fn by_id(&self, id: MonitorId) -> (r: Option<&MonitorInfo>)
        ensures
            found(r) == find_id(self@, id),
    {
        let mut i: usize = 0;
        assert(self@.skip(0) =~= self@);
        while i < self.0.len()
            invariant
                i <= self@.len(),
                self@ == self.0@,
                find_id(self@, id) == find_id(self@.skip(i as int), id),
            decreases self.0.len() - i,
        {
            if self.0[i].id == id {
                return Some(&self.0[i]);
            }
            assert(self@.skip(i as int).skip(1) =~= self@.skip(i + 1));
            i += 1;
        }
        None
    }

    fn by_path(&self, path: &str) -> (r: Option<&MonitorInfo>)
        ensures
            found(r) == find_path(self@, path@),
    {
        let mut i: usize = 0;
        assert(self@.skip(0) =~= self@);
        while i < self.0.len()
            invariant
                i <= self@.len(),
                self@ == self.0@,
                find_path(self@, path@) == find_path(self@.skip(i as int), path@),
            decreases self.0.len() - i,
        {
            let hit = match &self.0[i].device_path {
                Some(p) => same(p.as_str(), path),
                None => false,
            };
            if hit {
                return Some(&self.0[i]);
            }
            assert(self@.skip(i as int).skip(1) =~= self@.skip(i + 1));
            i += 1;
        }
        None
    }

    fn primary(&self) -> (r: Option<&MonitorInfo>)
        ensures
            found(r) == find_primary(self@),
    {
        let mut i: usize = 0;
        assert(self@.skip(0) =~= self@);
        while i < self.0.len()
            invariant
                i <= self@.len(),
                self@ == self.0@,
                find_flagged(self@) == find_flagged(self@.skip(i as int)),
            decreases self.0.len() - i,
        {
            if self.0[i].primary {
                return Some(&self.0[i]);
            }
            assert(self@.skip(i as int).skip(1) =~= self@.skip(i + 1));
            i += 1;
        }
        if self.0.len() > 0 {
            Some(&self.0[0])
        } else {
            None
        }
    }
}

/// The pill's home monitor: everything that placing the pill and hiding it read.
#[derive(Clone, Copy, PartialEq, Eq, Debug, Structural)]
pub struct HomeMonitor {
    pub id: MonitorId,
    pub work: Rect,
    pub dpi: u32,
}

/// The home monitor that a connected monitor makes.
pub open spec fn home_of(m: MonitorInfo) -> HomeMonitor {
    HomeMonitor { id: m.id, work: m.work, dpi: m.dpi }
}

impl<'a> From<&'a MonitorInfo> for HomeMonitor {
    fn from(m: &'a MonitorInfo) -> (h: Self) {
        HomeMonitor { id: m.id, work: m.work, dpi: m.dpi }
    }
}

impl<'a> vstd::std_specs::convert::FromSpecImpl<&'a MonitorInfo> for HomeMonitor {
    open spec fn obeys_from_spec() -> bool {
        true
    }

    open spec fn from_spec(m: &'a MonitorInfo) -> Self {
        home_of(*m)
    }
}

/// `logical` pixels in physical ones, rounded to the nearest, halves up.
pub open spec fn scaled(logical: int, dpi: int) -> int {
    (2 * logical * dpi + 96) / 192
}

/// Half of `x`, rounded towards zero.
pub open spec fn half(x: int) -> int {
    if x >= 0 {
        x / 2
    } else {
        -((-x) / 2)
    }
}

impl HomeMonitor {
    /// The left edge of the pill's window.
    pub open spec fn place_left(&self) -> int {
        self.work.left + half(
            self.work.right - self.work.left - scaled(ENVELOPE_W as int, self.dpi as int),
        )
    }

    /// The top edge of the pill's window.
    pub open spec fn place_top(&self) -> int {
        self.work.bottom - scaled(ENVELOPE_H as int, self.dpi as int) - scaled(
            PILL_BOTTOM_MARGIN as int,
            self.dpi as int,
        )
    }

    /// The window's coordinates can be held, and the DPI is no larger than those at
    /// which scaling in single precision gives the same sizes.
    pub open spec fn placeable(&self) -> bool {
        &&& self.dpi <= 400_000
        &&& fits(self.work.right - self.work.left)
        &&& fits(self.work.right - self.work.left - scaled(ENVELOPE_W as int, self.dpi as int))
        &&& fits(self.place_left())
        &&& fits(self.place_left() + scaled(ENVELOPE_W as int, self.dpi as int))
        &&& fits(self.place_top())
        &&& fits(self.place_top() + scaled(ENVELOPE_H as int, self.dpi as int))
    }

    /// Where the pill's window sits on this monitor, in physical pixels: centred
    /// on the work area, a margin above its bottom.
    pub fn placement(&self) -> (r: Rect)
        requires
            self.placeable(),
        ensures
            r.left == self.place_left(),
            r.top == self.place_top(),
            r.right == r.left + scaled(ENVELOPE_W as int, self.dpi as int),
            r.bottom == r.top + scaled(ENVELOPE_H as int, self.dpi as int),
    {
        let dpi: i64 = self.dpi as i64;
        let w: i64 = (2 * (ENVELOPE_W as i64) * dpi + 96) / 192;
        let h: i64 = (2 * (ENVELOPE_H as i64) * dpi + 96) / 192;
        let margin: i64 = (2 * (PILL_BOTTOM_MARGIN as i64) * dpi + 96) / 192;
        let slack: i64 = self.work.right as i64 - self.work.left as i64 - w;
        let shift: i64 = if slack >= 0 {
            slack / 2
        } else {
            -((-slack) / 2)
        };
        let left: i64 = self.work.left as i64 + shift;
        let top: i64 = self.work.bottom as i64 - h - margin;
        Rect {
            left: left as i32,
            top: top as i32,
            right: (left + w) as i32,
            bottom: (top + h) as i32,
        }
    }
}

/// How the home monitor is derived.
#[derive(Clone, Copy, PartialEq, Eq, Debug, Structural)]
pub enum Policy {
    /// The monitor holding the foreground window.
    Focused,
    /// The monitor holding the cursor, once it has settled there.
    Cursor,
    /// The primary monitor.
    Primary,
    /// The monitor named by the pinned device path.
    Pinned,
}

impl Policy {
    /// Whether this policy has to know the foreground window's monitor.
    pub fn samples_foreground(self) -> (r: bool)
        ensures
            r == (self == Policy::Focused),
    {
        self == Policy::Focused
    }

    /// Whether this policy has to know the cursor's monitor.
    pub fn samples_cursor(self) -> (r: bool)
        ensures
            r == (self == Policy::Cursor),
    {
        self == Policy::Cursor
    }
}

/// The signals of one poll. `None` means that the policy does not want it, or
/// that no monitor was named.
#[derive(Clone, Copy, PartialEq, Eq, Debug)]
pub struct Signals {
    pub focused: Option<MonitorId>,
    pub cursor: Option<MonitorId>,
}

impl Default for Signals {
    fn default() -> (s: Self)
        ensures
            s == (Signals { focused: None, cursor: None }),
    {
        Signals { focused: None, cursor: None }
    }
}

/// Keeps only the signals that this policy reads.
pub fn sample(policy: Policy, focused: Option<MonitorId>, cursor: Option<MonitorId>) -> (s: Signals)
    ensures
        s.focused == (if policy == Policy::Focused {
            focused
        } else {
            None
        }),
        s.cursor == (if policy == Policy::Cursor {
            cursor
        } else {
            None
        }),
{
    Signals {
        focused: if policy.samples_foreground() {
            focused
        } else {
            None
        },
        cursor: if policy.samples_cursor() {
            cursor
        } else {
            None
        },
    }
}

/// Why the home monitor is to be derived.
#[derive(Clone, Copy, PartialEq, Eq, Debug, Structural)]
pub enum Trigger {
    /// An ordinary poll. Counts only while the pill is idle.
    Poll { idle: bool },
    /// Derive it anew in any case: the displays changed, or the policy did.
    Rederive,
}

/// What a [`Home`] holds.
pub struct HomeView {
    pub policy: Policy,
    pub pinned: Option<Seq<char>>,
    pub current: Option<HomeMonitor>,
    pub dwell: Option<(MonitorId, Instant)>,
}

/// The monitor that the policy itself names, if it names one.
pub open spec fn named(h: HomeView, ms: Seq<MonitorInfo>, signals: Signals) -> Option<MonitorInfo> {
    match h.policy {
        Policy::Focused => match signals.focused {
            Some(id) => find_id(ms, id),
            None => None,
        },
        Policy::Cursor => match signals.cursor {
            Some(id) => find_id(ms, id),
            None => None,
        },
        Policy::Primary => None,
        Policy::Pinned => match h.pinned {
            Some(path) => find_path(ms, path),
            None => None,
        },
    }
}

/// The monitor that the policy leads to: the one it names, else the primary one.
/// There is none only where no monitor is connected.
pub open spec fn candidate(h: HomeView, ms: Seq<MonitorInfo>, signals: Signals) -> Option<
    HomeMonitor,
> {
    let m = match named(h, ms, signals) {
        Some(m) => Some(m),
        None => find_primary(ms),
    };
    match m {
        Some(m) => Some(home_of(m)),
        None => None,
    }
}

/// The cursor has sat on monitor `id` for its dwell.
pub open spec fn settled_on(h: HomeView, id: MonitorId, now: Instant) -> bool {
    h.dwell matches Some(d) && d.0 == id && clock::elapsed(d.1, now) >= CURSOR_DWELL_MS * 1_000_000
}

/// The pill may go to `c` now: it is there already, or nothing asks it to wait.
pub open spec fn may_go(h: HomeView, trigger: Trigger, c: HomeMonitor, now: Instant) -> bool {
    ||| trigger == Trigger::Rederive
    ||| h.policy != Policy::Cursor
    ||| h.current matches Some(at) && at.id == c.id
    ||| settled_on(h, c.id, now)
}

/// The state after an update.
pub open spec fn updated(
    h: HomeView,
    trigger: Trigger,
    ms: Seq<MonitorInfo>,
    signals: Signals,
    now: Instant,
) -> HomeView {
    if trigger == (Trigger::Poll { idle: false }) {
        HomeView { dwell: None, ..h }
    } else {
        match candidate(h, ms, signals) {
            None => h,
            Some(c) => if may_go(h, trigger, c, now) {
                HomeView { dwell: None, current: Some(c), ..h }
            } else if h.dwell matches Some(d) && d.0 == c.id {
                h
            } else {
                HomeView { dwell: Some((c.id, now)), ..h }
            },
        }
    }
}

/// The home monitor where it is not what it was.
pub open spec fn moved(before: HomeView, after: HomeView) -> Option<HomeMonitor> {
    if before.current == after.current {
        None
    } else {
        after.current
    }
}

/// The state after the home monitor has been looked up afresh.
pub open spec fn refreshed(h: HomeView, ms: Seq<MonitorInfo>) -> HomeView {
    match h.current {
        Some(at) => match find_id(ms, at.id) {
            Some(m) => HomeView { current: Some(home_of(m)), ..h },
            None => h,
        },
        None => h,
    }
}

/// The home monitor and the policy that derives it.
pub struct Home {
    policy: Policy,
    pinned_path: Option<String>,
    current: Option<HomeMonitor>,
    /// The monitor that the cursor is settling on, and since when.
    dwell: Option<(MonitorId, Instant)>,
}

impl View for Home {
    type V = HomeView;

    closed spec fn view(&self) -> HomeView {
        HomeView {
            policy: self.policy,
            pinned: config::opt_text(self.pinned_path),
            current: self.current,
            dwell: self.dwell,
        }
    }
}

impl Home {
    pub fn new(policy: Policy, pinned_path: Option<String>) -> (h: Self)
        ensures
            h@ == (HomeView { policy, pinned: config::opt_text(pinned_path), current: None, dwell: None }),
    {
        Home { policy, pinned_path, current: None, dwell: None }
    }

    /// Adopts a policy. Does not itself derive: the caller follows with
    /// [`Trigger::Rederive`].
    pub fn configure(&mut self, policy: Policy, pinned_path: Option<String>)
        ensures
            final(self)@ == (HomeView {
                policy,
                pinned: config::opt_text(pinned_path),
                current: old(self)@.current,
                dwell: None,
            }),
    {
        self.policy = policy;
        self.pinned_path = pinned_path;
        self.dwell = None;
    }

    pub fn policy(&self) -> (p: Policy)
        ensures
            p == self@.policy,
    {
        self.policy
    }

    /// The home monitor, or `None` before it was first derived.
    pub fn current(&self) -> (r: Option<HomeMonitor>)
        ensures
            r == self@.current,
    {
        self.current
    }

    /// Derives the home monitor and returns it only where it changed: another
    /// monitor, or the same one with another work area or DPI.
    pub fn update(
        &mut self,
        trigger: Trigger,
        displays: &Displays,
        signals: Signals,
        now: Instant,
    ) -> (r: Option<HomeMonitor>)
        ensures
            final(self)@ == updated(old(self)@, trigger, displays@, signals, now),
            r == moved(old(self)@, final(self)@),
    {
        let forced = trigger == Trigger::Rederive;
        if !forced && trigger != (Trigger::Poll { idle: true }) {
            self.dwell = None;
            return None;
        }
        let c = match self.resolve(displays, signals) {
            Some(c) => c,
            None => {
                return None;
            },
        };
        let same_monitor = match self.current {
            Some(at) => at.id == c.id,
            None => false,
        };
        if !forced && !same_monitor && self.policy == Policy::Cursor {
            match self.dwell {
                Some((id, since)) if id == c.id => {
                    if now.saturating_duration_since(since).nanos < CURSOR_DWELL_MS * 1_000_000 {
                        return None;
                    }
                },
                _ => {
                    self.dwell = Some((c.id, now));
                    return None;
                },
            }
        }
        self.dwell = None;
        let unchanged = match self.current {
            Some(at) => at == c,
            None => false,
        };
        if unchanged {
            return None;
        }
        self.current = Some(c);
        Some(c)
    }

    /// Reads the current home monitor's work area and DPI afresh, without
    /// running the policy. A home monitor that is no longer there is left alone.
    pub fn refresh(&mut self, displays: &Displays) -> (r: Option<HomeMonitor>)
        ensures
            final(self)@ == refreshed(old(self)@, displays@),
            r == moved(old(self)@, final(self)@),
    {
        let at = match self.current {
            Some(at) => at,
            None => {
                return None;
            },
        };
        let fresh = match displays.by_id(at.id) {
            Some(m) => HomeMonitor::from(m),
            None => {
                return None;
            },
        };
        if fresh == at {
            return None;
        }
        self.current = Some(fresh);
        Some(fresh)
    }

    /// The monitor that the policy leads to right now.
    fn resolve(&self, displays: &Displays, signals: Signals) -> (r: Option<HomeMonitor>)
        ensures
            r == candidate(self@, displays@, signals),
    {
        let named = match self.policy {
            Policy::Focused => match signals.focused {
                Some(id) => displays.by_id(id),
                None => None,
            },
            Policy::Cursor => match signals.cursor {
                Some(id) => displays.by_id(id),
                None => None,
            },
            Policy::Primary => None,
            Policy::Pinned => match &self.pinned_path {
                Some(path) => displays.by_path(path.as_str()),
                None => None,
            },
        };
        let chosen = match named {
            Some(m) => Some(m),
            None => displays.primary(),
        };
        match chosen {
            Some(m) => Some(HomeMonitor::from(m)),
            None => None,
        }
    }
}

/// The latch: a poll while a session runs or the pill is expanded moves nothing,
/// and drops the dwell rather than banking it.
pub proof fn law_latch_holds(h: HomeView, ms: Seq<MonitorInfo>, signals: Signals, now: Instant)
    ensures
        ({
            let after = updated(h, Trigger::Poll { idle: false }, ms, signals, now);
            &&& moved(h, after) is None
            &&& after.current == h.current
            &&& after.dwell is None
        }),
{
}

/// A change of the displays breaks the latch and skips the dwell: as long as any
/// monitor is connected the pill goes where the policy leads.
pub proof fn law_rederive_settles(h: HomeView, ms: Seq<MonitorInfo>, signals: Signals, now: Instant)
    requires
        ms.len() > 0,
    ensures
        candidate(h, ms, signals) is Some,
        updated(h, Trigger::Rederive, ms, signals, now).current == candidate(h, ms, signals),
        updated(h, Trigger::Rederive, ms, signals, now).dwell is None,
{
}

/// With no monitor connected the home monitor stays what it was.
pub proof fn law_an_empty_desk_moves_nothing(
    h: HomeView,
    trigger: Trigger,
    signals: Signals,
    now: Instant,
)
    ensures
        updated(h, trigger, Seq::empty(), signals, now).current == h.current,
{
}

/// The cursor policy moves the pill to another monitor on a poll only once the
/// cursor has sat there for its dwell.
pub proof fn law_the_cursor_has_to_settle(
    h: HomeView,
    ms: Seq<MonitorInfo>,
    signals: Signals,
    now: Instant,
    at: HomeMonitor,
)
    requires
        h.policy == Policy::Cursor,
        h.current == Some(at),
    ensures
        ({
            let after = updated(h, Trigger::Poll { idle: true }, ms, signals, now);
            after.current matches Some(c) && (c.id == at.id || settled_on(h, c.id, now))
        }),
{
}

/// A cursor that comes back before its dwell is up has to start over: no dwell
/// is left once a poll finds it at home.
pub proof fn law_a_round_trip_abandons_the_dwell(
    h: HomeView,
    ms: Seq<MonitorInfo>,
    signals: Signals,
    now: Instant,
    at: HomeMonitor,
)
    requires
        h.current == Some(at),
        candidate(h, ms, signals) matches Some(c) && c.id == at.id,
    ensures
        updated(h, Trigger::Poll { idle: true }, ms, signals, now).dwell is None,
{
}

/// The focused policy moves the pill on the very next idle poll.
pub proof fn law_focus_moves_at_once(
    h: HomeView,
    ms: Seq<MonitorInfo>,
    signals: Signals,
    now: Instant,
)
    requires
        h.policy == Policy::Focused,
        ms.len() > 0,
    ensures
        updated(h, Trigger::Poll { idle: true }, ms, signals, now).current == candidate(
            h,
            ms,
            signals,
        ),
{
}

/// A policy reads only its own signal.
pub proof fn law_a_policy_reads_its_own_signal(
    h: HomeView,
    ms: Seq<MonitorInfo>,
    a: Signals,
    b: Signals,
)
    requires
        h.policy == Policy::Focused ==> a.focused == b.focused,
        h.policy == Policy::Cursor ==> a.cursor == b.cursor,
    ensures
        candidate(h, ms, a) == candidate(h, ms, b),
{
}

/// Every policy falls back to the primary monitor where it names none.
pub proof fn law_primary_is_the_fallback(h: HomeView, ms: Seq<MonitorInfo>, signals: Signals)
    requires
        named(h, ms, signals) is None,
        ms.len() > 0,
    ensures
        candidate(h, ms, signals) == Some(home_of(find_primary(ms).unwrap())),
{
}

/// Reading the home monitor afresh never takes the pill to another one, and
/// doing it twice changes nothing more.
pub proof fn law_refresh_stays_put(h: HomeView, ms: Seq<MonitorInfo>)
    ensures
        h.current matches Some(at) ==> refreshed(h, ms).current matches Some(c) && c.id == at.id,
        h.current is None ==> refreshed(h, ms).current is None,
        refreshed(refreshed(h, ms), ms) == refreshed(h, ms),
{
    if let Some(at) = h.current {
        lemma_find_id(ms, at.id);
    }
}

proof fn lemma_find_id(ms: Seq<MonitorInfo>, id: MonitorId)
    ensures
        find_id(ms, id) matches Some(m) ==> m.id == id,
    decreases ms.len(),
{
    if ms.len() > 0 && ms[0].id != id {
        lemma_find_id(ms.skip(1), id);
    }
}

/// The window is the envelope at the monitor's scale, a scaled margin above the
/// bottom of the work area, and as far from its left edge as from its right one,
/// to within a pixel.
pub proof fn law_placement(h: HomeMonitor, r: Rect)
    requires
        r.left == h.place_left(),
        r.top == h.place_top(),
        r.right == r.left + scaled(ENVELOPE_W as int, h.dpi as int),
        r.bottom == r.top + scaled(ENVELOPE_H as int, h.dpi as int),
    ensures
        r.right - r.left == scaled(ENVELOPE_W as int, h.dpi as int),
        r.bottom - r.top == scaled(ENVELOPE_H as int, h.dpi as int),
        h.work.bottom - r.bottom == scaled(PILL_BOTTOM_MARGIN as int, h.dpi as int),
        -1 <= (r.left - h.work.left) - (h.work.right - r.right) <= 1,
{
}

/// What `String::from_utf16_lossy` makes of UTF-16 code units.
pub uninterp spec fn utf16_lossy(units: Seq<u16>) -> Seq<char>;

/// Calls `String::from_utf16_lossy`, which decodes UTF-16 and puts a replacement
/// character wherever it is invalid. The result depends on the code units alone
/// and goes by the name [`utf16_lossy`].
#[verifier::external_body]
fn from_utf16_lossy(units: &Vec<u16>) -> (s: String)
    ensures
        s@ == utf16_lossy(units@),
{
    String::from_utf16_lossy(units)
}

/// The code units before the first zero.
pub open spec fn up_to_nul(units: Seq<u16>) -> Seq<u16>
    decreases units.len(),
{
    if units.len() == 0 || units[0] == 0 {
        Seq::empty()
    } else {
        seq![units[0]] + up_to_nul(units.skip(1))
    }
}

/// The code units before the first zero of a fixed-size field.
pub fn before_nul(buf: &Vec<u16>) -> (r: Vec<u16>)
    ensures
        r@ == up_to_nul(buf@),
{
    let mut out: Vec<u16> = Vec::new();
    let mut i: usize = 0;
    assert(buf@.skip(0) =~= buf@);
    assert(out@ + up_to_nul(buf@) =~= up_to_nul(buf@));
    while i < buf.len() && buf[i] != 0
        invariant
            i <= buf@.len(),
            out@ + up_to_nul(buf@.skip(i as int)) == up_to_nul(buf@),
        decreases buf.len() - i,
    {
        let ghost done = out@;
        let ghost rest = buf@.skip(i as int);
        assert(rest.skip(1) =~= buf@.skip(i + 1));
        out.push(buf[i]);
        assert(done + (seq![rest[0]] + up_to_nul(rest.skip(1))) =~= out@ + up_to_nul(
            buf@.skip(i + 1),
        ));
        i += 1;
    }
    assert(out@ + up_to_nul(buf@.skip(i as int)) =~= out@);
    out
}

/// A fixed-size UTF-16 field, up to its first zero.
pub fn wide_to_string(buf: &Vec<u16>) -> (s: String)
    ensures
        s@ == utf16_lossy(up_to_nul(buf@)),
{
    from_utf16_lossy(&before_nul(buf))
}

/// What identifies a physical monitor.
pub struct Target {
    /// The adapter slot that it hangs on, which may change at every replug.
    pub slot: String,
    /// Its own path, which does not.
    pub path: String,
    pub friendly_name: Option<String>,
}

/// Takes a display's names, unless it has no path of its own. A name that is
/// empty counts as none.
pub fn target_name(slot: String, path: String, friendly: String) -> (r: Option<Target>)
    ensures
        path@.len() == 0 <==> r is None,
        r matches Some(t) ==> t.slot == slot && t.path == path && t.friendly_name == (
        if friendly@.len() == 0 {
            None
        } else {
            Some(friendly)
        }),
{
    if path.as_str().is_empty() {
        return None;
    }
    let friendly_name = if friendly.as_str().is_empty() {
        None
    } else {
        Some(friendly)
    };
    Some(Target { slot, path, friendly_name })
}

/// The DPI of a monitor that reported `dpi`, or that could not be asked.
pub fn effective_dpi(reported: Option<u32>) -> (dpi: u32)
    ensures
        dpi == (match reported {
            Some(x) => if x > 0 {
                x
            } else {
                DEFAULT_DPI
            },
            None => DEFAULT_DPI,
        }),
{
    match reported {
        Some(x) if x > 0 => x,
        _ => DEFAULT_DPI,
    }
}

/// The last of `targets` that hangs on this slot.
pub open spec fn target_on(targets: Seq<Target>, slot: Seq<char>) -> Option<Target>
    decreases targets.len(),
{
    if targets.len() == 0 {
        None
    } else if targets.last().slot@ == slot {
        Some(targets.last())
    } else {
        target_on(targets.drop_last(), slot)
    }
}

/// Joins a monitor to what identifies it, by the adapter slot that both name.
/// A monitor that cannot be joined goes without a path and a name.
pub fn identify(
    id: MonitorId,
    work: Rect,
    dpi: u32,
    primary: bool,
    slot: &str,
    targets: &Vec<Target>,
) -> (m: MonitorInfo)
    ensures
        m.id == id,
        m.work == work,
        m.dpi == dpi,
        m.primary == primary,
        match target_on(targets@, slot@) {
            Some(t) => has_path(m, t.path@) && config::opt_text(m.friendly_name) == config::opt_text(
                t.friendly_name,
            ),
            None => m.device_path is None && m.friendly_name is None,
        },
{
    let mut i: usize = targets.len();
    assert(targets@.take(i as int) =~= targets@);
    while i > 0
        invariant
            i <= targets@.len(),
            target_on(targets@, slot@) == target_on(targets@.take(i as int), slot@),
        decreases i,
    {
        i -= 1;
        let t = &targets[i];
        assert(targets@.take(i + 1).last() == *t);
        if same(t.slot.as_str(), slot) {
            let friendly_name = match &t.friendly_name {
                Some(name) => Some(name.clone()),
                None => None,
            };
            return MonitorInfo {
                id,
                work,
                dpi,
                primary,
                device_path: Some(t.path.clone()),
                friendly_name,
            };
        }
        assert(targets@.take(i + 1).drop_last() =~= targets@.take(i as int));
    }
    MonitorInfo { id, work, dpi, primary, device_path: None, friendly_name: None }
}

/// A monitor is found by its handle: the first that has it, wherever it stands, and none
/// where none has it.
pub proof fn law_the_first_with_the_handle_is_found(ms: Seq<MonitorInfo>, id: MonitorId, i: int)
    requires
        0 <= i <= ms.len(),
        forall|k: int| 0 <= k < i ==> (#[trigger] ms[k]).id != id,
        i < ms.len() ==> ms[i].id == id,
    ensures
        find_id(ms, id) == (if i < ms.len() {
            Some(ms[i])
        } else {
            None
        }),
    decreases i,
{
    if i > 0 {
        assert(ms[0].id != id);
        let rest = ms.skip(1);
        assert forall|k: int| 0 <= k < i - 1 implies (#[trigger] rest[k]).id != id by {
            assert(ms[k + 1].id != id);
        }
        law_the_first_with_the_handle_is_found(rest, id, i - 1);
    }
}

/// A monitor is found by its path in the same way; one without a path never is.
pub proof fn law_the_first_with_the_path_is_found(ms: Seq<MonitorInfo>, path: Seq<char>, i: int)
    requires
        0 <= i <= ms.len(),
        forall|k: int|
            0 <= k < i ==> config::opt_text((#[trigger] ms[k]).device_path) != Some(path),
        i < ms.len() ==> config::opt_text(ms[i].device_path) == Some(path),
    ensures
        find_path(ms, path) == (if i < ms.len() {
            Some(ms[i])
        } else {
            None
        }),
    decreases i,
{
    if i > 0 {
        assert(config::opt_text(ms[0].device_path) != Some(path));
        let rest = ms.skip(1);
        assert forall|k: int| 0 <= k < i - 1 implies config::opt_text(
            (#[trigger] rest[k]).device_path,
        ) != Some(path) by {
            assert(config::opt_text(ms[k + 1].device_path) != Some(path));
        }
        law_the_first_with_the_path_is_found(rest, path, i - 1);
    }
}

/// The primary monitor is the first that is flagged, and the first of all where none is.
pub proof fn law_which_monitor_is_primary(ms: Seq<MonitorInfo>, i: int)
    requires
        0 <= i <= ms.len(),
        ms.len() > 0,
        forall|k: int| 0 <= k < i ==> !(#[trigger] ms[k]).primary,
        i < ms.len() ==> ms[i].primary,
    ensures
        find_primary(ms) == (if i < ms.len() {
            Some(ms[i])
        } else {
            Some(ms[0])
        }),
{
    lemma_first_flagged(ms, i);
}

proof fn lemma_first_flagged(ms: Seq<MonitorInfo>, i: int)
    requires
        0 <= i <= ms.len(),
        forall|k: int| 0 <= k < i ==> !(#[trigger] ms[k]).primary,
        i < ms.len() ==> ms[i].primary,
    ensures
        find_flagged(ms) == (if i < ms.len() {
            Some(ms[i])
        } else {
            None
        }),
    decreases i,
{
    if i > 0 {
        assert(!ms[0].primary);
        let rest = ms.skip(1);
        assert forall|k: int| 0 <= k < i - 1 implies !(#[trigger] rest[k]).primary by {
            assert(!ms[k + 1].primary);
        }
        lemma_first_flagged(rest, i - 1);
    }
}

/// Where each policy leads: to the monitor with the focus, the one under the cursor, the
/// pinned one, or the primary one, with its own work area and scale. A monitor that the
/// policy names but that is not connected leads to the primary one too.
pub proof fn law_where_each_policy_leads(
    h: HomeView,
    ms: Seq<MonitorInfo>,
    signals: Signals,
)
    requires
        ms.len() > 0,
    ensures
        ({
            let c = candidate(h, ms, signals);
            let at = |m: MonitorInfo| HomeMonitor { id: m.id, work: m.work, dpi: m.dpi };
            let fallback = Some(at(find_primary(ms)->0));
            match (h.policy, signals.focused, signals.cursor, h.pinned) {
                (Policy::Focused, Some(id), _, _) => c == (match find_id(ms, id) {
                    Some(m) => Some(at(m)),
                    None => fallback,
                }),
                (Policy::Cursor, _, Some(id), _) => c == (match find_id(ms, id) {
                    Some(m) => Some(at(m)),
                    None => fallback,
                }),
                (Policy::Pinned, _, _, Some(path)) => c == (match find_path(ms, path) {
                    Some(m) => Some(at(m)),
                    None => fallback,
                }),
                _ => c == fallback,
            }
        }),
{
}

/// The cursor's dwell is three tenths of a second. Until it is up the pill stays; once it
/// is up the pill goes; and a cursor on yet another monitor starts anew.
pub proof fn law_how_long_the_cursor_has_to_settle(
    h: HomeView,
    ms: Seq<MonitorInfo>,
    signals: Signals,
    now: Instant,
    at: HomeMonitor,
    to: HomeMonitor,
    since: Instant,
)
    requires
        h.policy == Policy::Cursor,
        h.current == Some(at),
        candidate(h, ms, signals) == Some(to),
        to.id != at.id,
    ensures
        ({
            let after = updated(h, Trigger::Poll { idle: true }, ms, signals, now);
            &&& h.dwell == Some((to.id, since)) && clock::elapsed(since, now) < 300_000_000
                ==> after == h
            &&& h.dwell == Some((to.id, since)) && clock::elapsed(since, now) >= 300_000_000
                ==> after == (HomeView { current: Some(to), dwell: None, ..h })
            &&& !(h.dwell matches Some(d) && d.0 == to.id) ==> after == (HomeView {
                dwell: Some((to.id, now)),
                ..h
            })
        }),
{
}

/// Every policy but the cursor's moves the pill on the very next idle poll, and so does the
/// cursor's on the monitor that the pill is on already.
pub proof fn law_an_idle_poll_follows_the_policy(
    h: HomeView,
    ms: Seq<MonitorInfo>,
    signals: Signals,
    now: Instant,
    to: HomeMonitor,
)
    requires
        candidate(h, ms, signals) == Some(to),
        h.policy != Policy::Cursor || (h.current matches Some(at) && at.id == to.id),
    ensures
        updated(h, Trigger::Poll { idle: true }, ms, signals, now) == (HomeView {
            current: Some(to),
            dwell: None,
            ..h
        }),
{
}

/// A refresh takes over the work area and the scale that the home monitor has now, and
/// changes nothing else.
pub proof fn law_a_refresh_reads_the_monitor_afresh(
    h: HomeView,
    ms: Seq<MonitorInfo>,
    at: HomeMonitor,
    m: MonitorInfo,
)
    requires
        h.current == Some(at),
    ensures
        find_id(ms, at.id) == Some(m) ==> refreshed(h, ms) == (HomeView {
            current: Some(HomeMonitor { id: m.id, work: m.work, dpi: m.dpi }),
            ..h
        }),
        find_id(ms, at.id) is None ==> refreshed(h, ms) == h,
{
}

/// Only a change of the home monitor is told, and then the new one.
pub proof fn law_only_a_move_is_told(before: HomeView, after: HomeView)
    ensures
        before.current == after.current ==> moved(before, after) is None,
        before.current != after.current ==> moved(before, after) == after.current,
{
}

/// Scaling is to the nearest pixel, halves up, and at 96 dots per inch a logical pixel is a
/// physical one.
pub proof fn law_scaling_rounds_to_the_nearest(logical: int, dpi: int)
    ensures
        2 * logical * dpi - 96 < 192 * scaled(logical, dpi) <= 2 * logical * dpi + 96,
        scaled(logical, 96) == logical,
{
    let n = 2 * logical * dpi;
    assert((n + 96) / 192 * 192 <= n + 96 < (n + 96) / 192 * 192 + 192);
    assert(2 * logical * 96 == 192 * logical);
    assert((192 * logical + 96) / 192 == logical);
}

/// Half of a number is within one of half of it, on the side of zero.
pub proof fn law_halves_round_towards_zero(x: int)
    ensures
        x >= 0 ==> 0 <= x - 2 * half(x) <= 1,
        half(-x) == -half(x),
{
}

/// The pill's window is 124 logical pixels wide and 64 high, and stands 20 above the
/// bottom of the work area, at any scale. What room is left beside it is shared evenly,
/// with an odd pixel on the right where it has room and on the left where it has none.
pub proof fn law_where_the_window_stands(h: HomeMonitor)
    ensures
        ({
            let dpi = h.dpi as int;
            let slack = h.work.right - h.work.left - scaled(124, dpi);
            &&& h.work.bottom - (h.place_top() + scaled(64, dpi)) == scaled(20, dpi)
            &&& slack >= 0 ==> h.place_left() - h.work.left == slack / 2
            &&& slack < 0 ==> h.work.left - h.place_left() == (-slack) / 2
        }),
{
}

/// A fixed-size field ends at its first zero, and is whole where it holds none.
pub proof fn law_a_field_ends_at_its_first_zero(text: Seq<u16>, rest: Seq<u16>)
    requires
        forall|i: int| 0 <= i < text.len() ==> #[trigger] text[i] != 0,
    ensures
        up_to_nul(text.push(0) + rest) == text,
        up_to_nul(text) == text,
    decreases text.len(),
{
    let field = text.push(0) + rest;
    if text.len() > 0 {
        let short = text.skip(1);
        assert forall|i: int| 0 <= i < short.len() implies #[trigger] short[i] != 0 by {
            assert(text[i + 1] != 0);
        }
        law_a_field_ends_at_its_first_zero(short, rest);
        assert(text[0] != 0);
        assert(field[0] == text[0]);
        assert(field.skip(1) =~= short.push(0) + rest);
        assert(seq![text[0]] + short =~= text);
    } else {
        assert(field[0] == 0);
        assert(text =~= Seq::empty());
    }
}

/// A monitor is joined to the last display on its slot, and to none where none is there.
pub proof fn law_the_last_on_the_slot_is_joined(targets: Seq<Target>, slot: Seq<char>, i: int)
    requires
        -1 <= i < targets.len(),
        i >= 0 ==> targets[i].slot@ == slot,
        forall|k: int| i < k < targets.len() ==> (#[trigger] targets[k]).slot@ != slot,
    ensures
        target_on(targets, slot) == (if i >= 0 {
            Some(targets[i])
        } else {
            None
        }),
    decreases targets.len(),
{
    if i < targets.len() - 1 {
        assert(targets[targets.len() - 1].slot@ != slot);
        let rest = targets.drop_last();
        assert forall|k: int| i < k < rest.len() implies (#[trigger] rest[k]).slot@ != slot by {
            assert(targets[k].slot@ != slot);
        }
        law_the_last_on_the_slot_is_joined(rest, slot, i);
    }
}

/// Every coordinate fits, and nothing fits that is none.
pub proof fn law_what_fits_is_a_coordinate(x: int, c: i32)
    ensures
        fits(c as int),
        x > 0x7fff_ffff || x < -0x8000_0000 ==> !fits(x),
{
}

/// The pill can be placed on any monitor whose edges are within a thousand million pixels
/// and whose scale is within four thousand times the ordinary one.
pub proof fn law_the_pill_can_be_placed(h: HomeMonitor)
    requires
        h.dpi <= 400_000,
        -1_000_000_000 <= h.work.left <= h.work.right <= 1_000_000_000,
        -1_000_000_000 <= h.work.bottom <= 1_000_000_000,
    ensures
        h.placeable(),
{
    let dpi = h.dpi as int;
    assert(ENVELOPE_W == 124 && ENVELOPE_H == 64 && PILL_BOTTOM_MARGIN == 20);
    assert(0 <= scaled(124, dpi) <= 600_000);
    assert(0 <= scaled(64, dpi) <= 600_000);
    assert(0 <= scaled(20, dpi) <= 600_000);
    let slack = h.work.right - h.work.left - scaled(124, dpi);
    assert(-600_000 <= half(slack) <= 1_000_000_000);
}

} // verus!
