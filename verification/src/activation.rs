//! From key presses and releases to "start" and "stop".
use crate::clock;
use crate::clock::Instant;
use vstd::prelude::*;

verus! {

/// How close together two taps of the hotkey have to be, in milliseconds, to
/// lock a recording.
pub const DOUBLE_PRESS_MS: u64 = 400;

/// What a hotkey does.
#[derive(Clone, Copy, Debug, PartialEq, Eq, Structural)]
pub enum Mode {
    /// Records for as long as the key is held. With `double_press_lock`, a
    /// second press right behind the first keeps recording hands-free until the
    /// key is pressed once more.
    Hold { double_press_lock: bool },
    /// One press starts, the next one stops.
    Toggle,
}

/// The key went down or came up.
#[derive(Clone, Copy, Debug, PartialEq, Eq, Structural)]
pub enum InEvent {
    Pressed(Instant),
    Released(Instant),
}

/// What to do about it.
#[derive(Clone, Copy, Debug, PartialEq, Eq, Structural)]
pub enum OutEvent {
    Start,
    Stop,
    Ignore,
}

/// Where one hotkey stands.
#[derive(Clone, Copy, Debug, PartialEq, Eq, Structural)]
pub enum State {
    /// Not recording. `tapped` is when the press that was just let go began.
    Idle { tapped: Option<Instant> },
    /// Recording for as long as the key stays down.
    Held { since: Instant },
    /// Recording until the next press.
    Latched,
}

/// When the event happened.
pub open spec fn event_time(ev: InEvent) -> Instant {
    match ev {
        InEvent::Pressed(t) => t,
        InEvent::Released(t) => t,
    }
}

/// A press at `t` comes right behind the tap that began at `tapped`.
pub open spec fn right_behind(tapped: Option<Instant>, t: Instant) -> bool {
    match tapped {
        Some(earlier) => clock::elapsed(earlier, t) <= DOUBLE_PRESS_MS * 1_000_000,
        None => false,
    }
}

/// Where the hotkey stands after `ev`, and what to do.
pub open spec fn stepped(mode: Mode, state: State, ev: InEvent) -> (State, OutEvent) {
    match (state, ev) {
        (State::Idle { tapped }, InEvent::Pressed(t)) => match mode {
            Mode::Toggle => (State::Latched, OutEvent::Start),
            Mode::Hold { double_press_lock } => if double_press_lock && right_behind(tapped, t) {
                (State::Latched, OutEvent::Start)
            } else {
                (State::Held { since: t }, OutEvent::Start)
            },
        },
        (State::Held { since }, InEvent::Released(_)) => (
            State::Idle { tapped: Some(since) },
            OutEvent::Stop,
        ),
        (State::Latched, InEvent::Pressed(_)) => (State::Idle { tapped: None }, OutEvent::Stop),
        _ => (state, OutEvent::Ignore),
    }
}

/// Whether a hotkey that stands here believes that it is recording.
pub open spec fn recording(state: State) -> bool {
    !(state is Idle)
}

/// The state machine of one hotkey.
#[derive(Clone, Copy, Debug, PartialEq, Eq, Structural)]
pub struct Fsm {
    pub mode: Mode,
    pub state: State,
}

/// A hotkey that nobody has touched.
pub open spec fn fresh(mode: Mode) -> Fsm {
    Fsm { mode, state: State::Idle { tapped: None } }
}

/// The hotkey after `ev`.
pub open spec fn next(fsm: Fsm, ev: InEvent) -> Fsm {
    Fsm { mode: fsm.mode, state: stepped(fsm.mode, fsm.state, ev).0 }
}

/// What the hotkey asks for on `ev`.
pub open spec fn verdict(fsm: Fsm, ev: InEvent) -> OutEvent {
    stepped(fsm.mode, fsm.state, ev).1
}

impl Fsm {
    /// A hotkey that nobody has touched.
    pub fn new(mode: Mode) -> (f: Fsm)
        ensures
            f == fresh(mode),
    {
        Fsm { mode, state: State::Idle { tapped: None } }
    }

    /// Takes one event and says what to do about it.
    pub fn step(&mut self, ev: InEvent) -> (out: OutEvent)
        ensures
            *final(self) == next(*old(self), ev),
            out == verdict(*old(self), ev),
    {
        match (self.state, ev) {
            (State::Idle { tapped }, InEvent::Pressed(t)) => {
                let latch = match self.mode {
                    Mode::Toggle => true,
                    Mode::Hold { double_press_lock } => match tapped {
                        Some(earlier) => double_press_lock && t.saturating_duration_since(
                            earlier,
                        ).nanos <= DOUBLE_PRESS_MS * 1_000_000,
                        None => false,
                    },
                };
                self.state = if latch {
                    State::Latched
                } else {
                    State::Held { since: t }
                };
                OutEvent::Start
            },
            (State::Held { since }, InEvent::Released(_)) => {
                self.state = State::Idle { tapped: Some(since) };
                OutEvent::Stop
            },
            (State::Latched, InEvent::Pressed(_)) => {
                self.state = State::Idle { tapped: None };
                OutEvent::Stop
            },
            _ => OutEvent::Ignore,
        }
    }
}

/// Starts and stops alternate: a start leaves a hotkey recording that was not,
/// a stop ends a recording, and nothing else changes which of the two it is.
pub proof fn law_starts_and_stops_alternate(fsm: Fsm, ev: InEvent)
    ensures
        verdict(fsm, ev) == OutEvent::Start ==> !recording(fsm.state) && recording(
            next(fsm, ev).state,
        ),
        verdict(fsm, ev) == OutEvent::Stop ==> recording(fsm.state) && !recording(
            next(fsm, ev).state,
        ),
        verdict(fsm, ev) == OutEvent::Ignore ==> next(fsm, ev) == fsm,
{
}

/// Without the lock, holding records exactly while the key is down: a press
/// starts, its release stops, and a stray release does nothing.
pub proof fn law_hold_follows_the_key(t: Instant, u: Instant)
    ensures
        ({
            let idle = fresh(Mode::Hold { double_press_lock: false });
            let held = next(idle, InEvent::Pressed(t));
            &&& verdict(idle, InEvent::Pressed(t)) == OutEvent::Start
            &&& verdict(held, InEvent::Released(u)) == OutEvent::Stop
            &&& verdict(idle, InEvent::Released(u)) == OutEvent::Ignore
        }),
{
}

/// A toggled hotkey starts with one press and stops with the next, however far apart the
/// two are; letting the key go means nothing.
pub proof fn law_toggle_takes_turns(tapped: Option<Instant>, t: Instant, u: Instant)
    ensures
        ({
            let idle = Fsm { mode: Mode::Toggle, state: State::Idle { tapped } };
            let on = next(idle, InEvent::Pressed(t));
            let off = next(on, InEvent::Pressed(u));
            &&& verdict(idle, InEvent::Pressed(t)) == OutEvent::Start
            &&& verdict(on, InEvent::Released(u)) == OutEvent::Ignore
            &&& next(on, InEvent::Released(u)) == on
            &&& verdict(on, InEvent::Pressed(u)) == OutEvent::Stop
            &&& off == Fsm { mode: Mode::Toggle, state: State::Idle { tapped: None } }
            &&& verdict(idle, InEvent::Released(u)) == OutEvent::Ignore
        }),
{
}

/// The lock needs two presses that began at most 400 milliseconds apart, with the key let
/// go in between: the second recording then outlives the release of its key and ends with
/// the next press. A slower second press is held like the first, and so is every press
/// where the lock is switched off.
pub proof fn law_a_double_press_locks(
    lock: bool,
    first: Instant,
    up: Instant,
    second: Instant,
    later: Instant,
)
    ensures
        ({
            let idle = fresh(Mode::Hold { double_press_lock: lock });
            let tapped = next(next(idle, InEvent::Pressed(first)), InEvent::Released(up));
            let again = next(tapped, InEvent::Pressed(second));
            let quick = clock::elapsed(first, second) <= 400_000_000;
            &&& verdict(tapped, InEvent::Pressed(second)) == OutEvent::Start
            &&& lock && quick ==> {
                &&& verdict(again, InEvent::Released(later)) == OutEvent::Ignore
                &&& next(again, InEvent::Released(later)) == again
                &&& verdict(again, InEvent::Pressed(later)) == OutEvent::Stop
                &&& next(again, InEvent::Pressed(later)) == idle
            }
            &&& !(lock && quick) ==> {
                &&& verdict(again, InEvent::Pressed(later)) == OutEvent::Ignore
                &&& verdict(again, InEvent::Released(later)) == OutEvent::Stop
            }
        }),
{
}

/// A hotkey never changes its mode.
pub proof fn law_the_mode_stays(fsm: Fsm, ev: InEvent)
    ensures
        next(fsm, ev).mode == fsm.mode,
{
}

} // verus!
