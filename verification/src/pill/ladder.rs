//! How long the event loop may sleep. The loop rests with no timer armed; only
//! the cursor, which nobody can announce, has to be looked for, so the ladder is
//! stated in terms of the cursor.
use crate::clock::Duration;
use crate::pill::fullscreen::POLL_INTERVAL_MS;
use crate::pill::monitor::Rect;
use vstd::prelude::*;

verus! {

/// How far outside the pill's window a cursor still counts as near, in logical
/// pixels.
pub const NEAR_BAND: i32 = 180;

/// What the loop is waiting for.
#[derive(Clone, Copy, PartialEq, Eq, Debug, Structural)]
pub enum Rung {
    /// Nothing to look for. No timer is armed.
    Wait,
    /// The pill has a frame to draw.
    Animating,
    /// The cursor is near the pill.
    Near,
    /// The cursor is elsewhere.
    Far,
    /// The pill is off screen behind a fullscreen app, and only a look will
    /// notice that app leaving.
    Watching,
}

/// How long the loop sleeps on a rung, in milliseconds.
pub open spec fn period_ms(rung: Rung) -> Option<int> {
    match rung {
        Rung::Wait => None,
        Rung::Animating => Some(33),
        Rung::Near => Some(50),
        Rung::Far => Some(250),
        Rung::Watching => Some(POLL_INTERVAL_MS as int),
    }
}

impl Rung {
    /// How long the loop may sleep on this rung, and `None` for no timer at all.
    pub fn period(self) -> (r: Option<Duration>)
        ensures
            match period_ms(self) {
                Some(ms) => r matches Some(d) && d.nanos == ms * 1_000_000,
                None => r is None,
            },
    {
        match self {
            Rung::Wait => None,
            Rung::Animating => Some(Duration::from_millis(33)),
            Rung::Near => Some(Duration::from_millis(50)),
            Rung::Far => Some(Duration::from_millis(250)),
            Rung::Watching => Some(Duration::from_millis(POLL_INTERVAL_MS)),
        }
    }
}

/// What the ladder is decided from.
#[derive(Clone, Copy, PartialEq, Eq, Debug, Structural)]
pub struct Signals {
    /// The display is on and the session unlocked.
    pub awake: bool,
    /// The pill has frames to draw, or a flash that has to end on time.
    pub animating: bool,
    /// The pill is on screen at all.
    pub reachable: bool,
    /// The cursor is near the pill.
    pub near: bool,
    /// The pill is suppressed, and nothing will announce the end of that.
    pub watching: bool,
}

impl Default for Signals {
    fn default() -> (s: Self)
        ensures
            s == (Signals {
                awake: false,
                animating: false,
                reachable: false,
                near: false,
                watching: false,
            }),
    {
        Signals { awake: false, animating: false, reachable: false, near: false, watching: false }
    }
}

/// The rung that these signals put the loop on.
pub open spec fn rung_of(s: Signals) -> Rung {
    if !s.awake {
        Rung::Wait
    } else if s.animating {
        Rung::Animating
    } else if s.reachable {
        if s.near {
            Rung::Near
        } else {
            Rung::Far
        }
    } else if s.watching {
        Rung::Watching
    } else {
        Rung::Wait
    }
}

/// The rung that these signals put the loop on. Nobody looking outranks
/// everything, frames outrank the cursor, and the cursor outranks the watcher.
pub fn rung(s: Signals) -> (r: Rung)
    ensures
        r == rung_of(s),
{
    if !s.awake {
        return Rung::Wait;
    }
    if s.animating {
        return Rung::Animating;
    }
    if !s.reachable {
        return if s.watching {
            Rung::Watching
        } else {
            Rung::Wait
        };
    }
    if s.near {
        Rung::Near
    } else {
        Rung::Far
    }
}

/// The point lies in `rect` grown by `band` on every side.
pub open spec fn in_band(rect: Rect, cursor: (i32, i32), band: i32) -> bool {
    &&& rect.left - band <= cursor.0 < rect.right + band
    &&& rect.top - band <= cursor.1 < rect.bottom + band
}

/// Whether `cursor` is inside `rect` grown by `band` on every side.
pub fn near(rect: Rect, cursor: (i32, i32), band: i32) -> (r: bool)
    ensures
        r == in_band(rect, cursor, band),
{
    let b: i64 = band as i64;
    let x: i64 = cursor.0 as i64;
    let y: i64 = cursor.1 as i64;
    x >= rect.left as i64 - b && x < rect.right as i64 + b && y >= rect.top as i64 - b && y
        < rect.bottom as i64 + b
}

/// A dark or locked session outranks everything: no timer is armed.
pub proof fn law_nobody_looking_arms_nothing(s: Signals)
    requires
        !s.awake,
    ensures
        period_ms(rung_of(s)) is None,
{
}

/// A pill with frames to draw gets them, wherever the cursor is and even on its
/// way off screen.
pub proof fn law_frames_outrank_the_cursor(s: Signals)
    requires
        s.awake,
        s.animating,
    ensures
        rung_of(s) == Rung::Animating,
{
}

/// Doing nothing costs no timer, and nothing else does without one.
pub proof fn law_no_timer_only_with_nothing_to_do(s: Signals)
    ensures
        period_ms(rung_of(s)) is None <==> !s.awake || (!s.animating && !s.reachable
            && !s.watching),
{
}

/// The cursor coming near never slows the loop down.
pub proof fn law_near_never_slows_down(s: Signals)
    requires
        s.awake,
        s.reachable,
    ensures
        ({
            let near = period_ms(rung_of(Signals { near: true, ..s }));
            let far = period_ms(rung_of(Signals { near: false, ..s }));
            near matches Some(n) && far matches Some(f) && n <= f
        }),
{
}

/// A wider band takes in everything that a narrower one does.
pub proof fn law_bands_nest(rect: Rect, cursor: (i32, i32), narrow: i32, wide: i32)
    requires
        narrow <= wide,
        in_band(rect, cursor, narrow),
    ensures
        in_band(rect, cursor, wide),
{
}

/// Which rung the loop is on, and when. Each rung is taken for its one reason, and in this
/// order: nobody looking, frames to draw, the cursor, an app to watch.
pub proof fn law_what_each_rung_is_for(s: Signals)
    ensures
        rung_of(s) == Rung::Animating <==> s.awake && s.animating,
        rung_of(s) == Rung::Near <==> s.awake && !s.animating && s.reachable && s.near,
        rung_of(s) == Rung::Far <==> s.awake && !s.animating && s.reachable && !s.near,
        rung_of(s) == Rung::Watching <==> s.awake && !s.animating && !s.reachable && s.watching,
{
}

/// The loop draws thirty frames a second, follows a near cursor twenty times a second and
/// a far one four times, and looks for an app that leaves once a second.
pub proof fn law_how_long_each_rung_sleeps()
    ensures
        period_ms(Rung::Wait) is None,
        period_ms(Rung::Animating) == Some(1000int / 30),
        period_ms(Rung::Near) == Some(1000int / 20),
        period_ms(Rung::Far) == Some(1000int / 4),
        period_ms(Rung::Watching) == Some(1000int),
{
}

/// The band has the same width on every side, and its far edges do not belong to it.
pub proof fn law_the_band_is_even(rect: Rect, x: i32, y: i32, band: i32)
    requires
        0 <= band,
        rect.left <= x < rect.right,
        rect.top <= y < rect.bottom,
    ensures
        in_band(rect, (x, y), band),
        forall|c: i32|
            #![trigger in_band(rect, (c, y), band)]
            in_band(rect, (c, y), band) <==> c + band >= rect.left && c - band < rect.right,
        forall|c: i32|
            #![trigger in_band(rect, (x, c), band)]
            in_band(rect, (x, c), band) <==> c + band >= rect.top && c - band < rect.bottom,
{
}

/// The cursor counts as near from 180 pixels on.
pub proof fn law_how_far_near_is(rect: Rect, x: i32, y: i32)
    requires
        rect.left <= x < rect.right,
        rect.top <= y < rect.bottom,
    ensures
        forall|c: i32|
            #![trigger in_band(rect, (c, y), NEAR_BAND)]
            in_band(rect, (c, y), NEAR_BAND) <==> rect.left - 180 <= c < rect.right + 180,
{
}

} // verus!
