//! The pill's whole life as a pure state machine, a peer of the session.
//!
//! Its state has two axes: presence, what the pill does with no session
//! running, and activity, what a session is asking it to show. Activity
//! outranks presence. So a session stays visible even behind a fullscreen app,
//! hover cannot expand a recording pill, and the state that a session returns
//! to is derived from presence, never remembered.
use crate::clock;
use crate::clock::{share_of, Duration, Instant, WHOLE};
use vstd::prelude::*;

verus! {

/// How long the pill lingers on a successful delivery, in milliseconds.
pub const SUCCESS_LINGER_MS: u64 = 500;

/// How long the pill lingers on a failure, in milliseconds: a red flash that the
/// user might miss deserves an extra beat.
pub const ERROR_LINGER_MS: u64 = 1200;

/// How long the handoff from recording to processing runs, in milliseconds.
pub const HANDOFF_MS: u64 = 320;

/// How long a flash holds, in nanoseconds.
pub open spec fn linger_nanos(ok: bool) -> int {
    if ok {
        SUCCESS_LINGER_MS * 1_000_000
    } else {
        ERROR_LINGER_MS * 1_000_000
    }
}

/// How long the terminal flash holds before the pill leaves.
pub fn linger(ok: bool) -> (d: Duration)
    ensures
        d.nanos == linger_nanos(ok),
{
    if ok {
        Duration::from_millis(SUCCESS_LINGER_MS)
    } else {
        Duration::from_millis(ERROR_LINGER_MS)
    }
}

/// The live waveform's remaining share, `elapsed` into the handoff: the whole at
/// the change of modes, nothing once it is over, draining at a steady rate.
pub fn handoff_damping(elapsed: Duration) -> (s: u64)
    ensures
        s == WHOLE - clock::share(elapsed.nanos as int, HANDOFF_MS * 1_000_000),
{
    WHOLE - share_of(elapsed, Duration::from_millis(HANDOFF_MS))
}

/// What the pill does when no session is running.
#[derive(Clone, Copy, PartialEq, Eq, Debug, Structural)]
pub enum Presence {
    /// The pill exists only for the length of a session.
    Off,
    /// A fullscreen app has focus. Suppresses the resident pill only, never
    /// session feedback.
    Suppressed,
    /// On screen with nothing happening; `expanded` is set by hover.
    Resident { expanded: bool },
}

/// How a session began. Decides presentation only, never control.
#[derive(Clone, Copy, PartialEq, Eq, Debug, Structural)]
pub enum Origin {
    Hotkey,
    /// The pill's own Dictate button.
    Click,
}

/// What a session is currently asking the pill to show. Outranks [`Presence`].
#[derive(Clone, Copy, PartialEq, Eq, Debug, Structural)]
pub enum Activity {
    /// No session: the pill is whatever presence says it is.
    NoSession,
    Recording { origin: Origin },
    Processing { since: Instant },
    /// The terminal flash, retired by [`Pill::tick`] once its linger elapses.
    Done { ok: bool, since: Instant },
}

/// The pill's logical mode, one per transition.
#[derive(Clone, Copy, PartialEq, Eq, Debug, Structural)]
pub enum PillMode {
    /// Off screen. The window may still exist.
    Hidden,
    /// Resident and idle: the nub.
    Idle,
    /// Resident and hovered.
    Expanded,
    /// Live capture.
    Recording { origin: Origin },
    /// A worker is running.
    Processing { since: Instant },
    /// Terminal green or red flash.
    Done { ok: bool, since: Instant },
}

/// What a session tells the pill that it is doing. A session knows nothing about
/// residency, and it does not stamp the flash's clock, which outlives it.
#[derive(Clone, Copy, PartialEq, Eq, Debug, Structural)]
pub enum SessionActivity {
    /// No session is asking for anything.
    NoSession,
    Recording { origin: Origin },
    Processing { since: Instant },
    /// The last thing a session says.
    Finished { ok: bool },
}

/// An effect for the pill's window.
#[derive(Clone, Copy, PartialEq, Eq, Debug, Structural)]
pub enum Command {
    /// Create the window, hidden and unpainted.
    Create,
    /// Hand over a new mode. Always precedes the `Show` that reveals it.
    SetMode(PillMode),
    Show,
    Hide,
    /// Tear the window down.
    Destroy,
}

/// The two axes.
pub struct Axes {
    pub presence: Presence,
    pub activity: Activity,
}

/// The mode of a pill with these axes. Whenever a session is saying anything at
/// all, presence has no say.
pub open spec fn mode_of(a: Axes) -> PillMode {
    match a.activity {
        Activity::Recording { origin } => PillMode::Recording { origin },
        Activity::Processing { since } => PillMode::Processing { since },
        Activity::Done { ok, since } => PillMode::Done { ok, since },
        Activity::NoSession => match a.presence {
            Presence::Off => PillMode::Hidden,
            Presence::Suppressed => PillMode::Hidden,
            Presence::Resident { expanded } => if expanded {
                PillMode::Expanded
            } else {
                PillMode::Idle
            },
        },
    }
}

/// A window is worth holding while the pill is resident, even suppressed, or
/// while a session is using it.
pub open spec fn holds_window(a: Axes) -> bool {
    a.presence != Presence::Off || a.activity != Activity::NoSession
}

/// Whether the window is on screen.
pub open spec fn on_screen(a: Axes) -> bool {
    mode_of(a) != PillMode::Hidden
}

/// `seq![c]` where it is called for, and nothing otherwise.
pub open spec fn when(called_for: bool, c: Command) -> Seq<Command> {
    if called_for {
        seq![c]
    } else {
        Seq::empty()
    }
}

/// The effects that take the window from one pair of axes to another: only what
/// changed, in the order create, set the mode, show or hide, destroy.
pub open spec fn effects(from: Axes, to: Axes) -> Seq<Command> {
    let creates = holds_window(to) && !holds_window(from);
    let held = holds_window(to) || holds_window(from);
    when(creates, Command::Create) + when(
        held && (creates || mode_of(from) != mode_of(to)),
        Command::SetMode(mode_of(to)),
    ) + when(on_screen(to) && !on_screen(from), Command::Show) + when(
        on_screen(from) && !on_screen(to),
        Command::Hide,
    ) + when(holds_window(from) && !holds_window(to), Command::Destroy)
}

/// The activity that a session's report amounts to at `now`.
pub open spec fn reported(report: SessionActivity, now: Instant) -> Activity {
    match report {
        SessionActivity::NoSession => Activity::NoSession,
        SessionActivity::Recording { origin } => Activity::Recording { origin },
        SessionActivity::Processing { since } => Activity::Processing { since },
        SessionActivity::Finished { ok } => Activity::Done { ok, since: now },
    }
}

/// The activity once the clock stands at `now`: a flash that has held for its
/// linger is over.
pub open spec fn ticked(activity: Activity, now: Instant) -> Activity {
    match activity {
        Activity::Done { ok, since } => if clock::elapsed(since, now) >= linger_nanos(ok) {
            Activity::NoSession
        } else {
            activity
        },
        _ => activity,
    }
}

/// One call of the pill's owner.
pub enum Call {
    Session { activity: SessionActivity, now: Instant },
    Presence { presence: Presence },
    Tick { now: Instant },
}

/// The axes once a call has returned.
pub open spec fn called(a: Axes, call: Call) -> Axes {
    match call {
        Call::Session { activity, now } => Axes { activity: reported(activity, now), ..a },
        Call::Presence { presence } => Axes { presence, ..a },
        Call::Tick { now } => Axes { activity: ticked(a.activity, now), ..a },
    }
}

/// The axes of a new pill once all of `calls` have returned, in order.
pub open spec fn axes_after(calls: Seq<Call>) -> Axes
    decreases calls.len(),
{
    if calls.len() == 0 {
        Axes { presence: Presence::Off, activity: Activity::NoSession }
    } else {
        called(axes_after(calls.drop_last()), calls.last())
    }
}

/// All the commands that a new pill has returned over `calls`, in order.
pub open spec fn commands_over(calls: Seq<Call>) -> Seq<Command>
    decreases calls.len(),
{
    if calls.len() == 0 {
        Seq::empty()
    } else {
        commands_over(calls.drop_last()) + effects(axes_after(calls.drop_last()), axes_after(calls))
    }
}

/// The pill's owner: presence and activity in, commands out.
pub struct Pill {
    presence: Presence,
    activity: Activity,
    /// Whether there is a window (mirrors Create and Destroy).
    window: bool,
    /// Whether that window is on screen (mirrors Show and Hide).
    shown: bool,
    /// The last mode handed over, so that unchanged modes emit nothing.
    mode: Option<PillMode>,
}

impl View for Pill {
    type V = Axes;

    closed spec fn view(&self) -> Axes {
        Axes { presence: self.presence, activity: self.activity }
    }
}

impl Pill {
    /// The window is in step with the axes.
    pub closed spec fn wf(&self) -> bool {
        &&& self.window == holds_window(self@)
        &&& self.shown == on_screen(self@)
        &&& self.mode == (if self.window {
            Some(mode_of(self@))
        } else {
            None
        })
    }

    /// A pill that is off, with no session running.
    pub fn new() -> (p: Self)
        ensures
            p.wf(),
            p@ == (Axes { presence: Presence::Off, activity: Activity::NoSession }),
    {
        Pill {
            presence: Presence::Off,
            activity: Activity::NoSession,
            window: false,
            shown: false,
            mode: None,
        }
    }

    /// Applies a session's report. The flash is stamped here, not by the
    /// session: the session ends the moment its outcome is known.
    pub fn on_session(&mut self, activity: SessionActivity, now: Instant) -> (cmds: Vec<Command>)
        requires
            old(self).wf(),
        ensures
            final(self).wf(),
            final(self)@ == called(old(self)@, Call::Session { activity, now }),
            cmds@ == effects(old(self)@, final(self)@),
    {
        let activity = match activity {
            SessionActivity::NoSession => Activity::NoSession,
            SessionActivity::Recording { origin } => Activity::Recording { origin },
            SessionActivity::Processing { since } => Activity::Processing { since },
            SessionActivity::Finished { ok } => Activity::Done { ok, since: now },
        };
        self.settle(self.presence, activity)
    }

    /// Sets the presence axis.
    pub fn set_presence(&mut self, presence: Presence) -> (cmds: Vec<Command>)
        requires
            old(self).wf(),
        ensures
            final(self).wf(),
            final(self)@ == called(old(self)@, Call::Presence { presence }),
            cmds@ == effects(old(self)@, final(self)@),
    {
        self.settle(presence, self.activity)
    }

    /// Retires the terminal flash once its linger has elapsed.
    pub fn tick(&mut self, now: Instant) -> (cmds: Vec<Command>)
        requires
            old(self).wf(),
        ensures
            final(self).wf(),
            final(self)@ == called(old(self)@, Call::Tick { now }),
            cmds@ == effects(old(self)@, final(self)@),
    {
        if let Activity::Done { ok, since } = self.activity {
            if now.saturating_duration_since(since).nanos >= linger(ok).nanos {
                return self.settle(self.presence, Activity::NoSession);
            }
        }
        let cmds: Vec<Command> = Vec::new();
        assert(cmds@ =~= effects(self@, self@));
        cmds
    }

    /// The mode for the current axes.
    fn derive_mode(&self) -> (m: PillMode)
        ensures
            m == mode_of(self@),
    {
        match self.activity {
            Activity::Recording { origin } => PillMode::Recording { origin },
            Activity::Processing { since } => PillMode::Processing { since },
            Activity::Done { ok, since } => PillMode::Done { ok, since },
            Activity::NoSession => match self.presence {
                Presence::Off | Presence::Suppressed => PillMode::Hidden,
                Presence::Resident { expanded: false } => PillMode::Idle,
                Presence::Resident { expanded: true } => PillMode::Expanded,
            },
        }
    }

    /// Moves to new axes, reconciles the window with them and emits only what
    /// changed.
    fn settle(&mut self, presence: Presence, activity: Activity) -> (cmds: Vec<Command>)
        requires
            old(self).wf(),
        ensures
            final(self).wf(),
            final(self)@ == (Axes { presence, activity }),
            cmds@ == effects(old(self)@, final(self)@),
    {
        let ghost from = self@;
        self.presence = presence;
        self.activity = activity;
        let ghost to = self@;
        let mode = self.derive_mode();
        let want_window = self.presence != Presence::Off || self.activity != Activity::NoSession;
        let want_shown = want_window && mode != PillMode::Hidden;
        let mut cmds: Vec<Command> = Vec::new();
        if want_window && !self.window {
            cmds.push(Command::Create);
            self.window = true;
            self.mode = None;
        }
        let fresh = match self.mode {
            Some(last) => last != mode,
            None => true,
        };
        if self.window && fresh {
            cmds.push(Command::SetMode(mode));
            self.mode = Some(mode);
        }
        if want_shown != self.shown {
            if want_shown {
                cmds.push(Command::Show);
            } else {
                cmds.push(Command::Hide);
            }
            self.shown = want_shown;
        }
        if !want_window && self.window {
            cmds.push(Command::Destroy);
            self.window = false;
            self.mode = None;
        }
        assert(cmds@ =~= effects(from, to));
        cmds
    }
}

/// Activity outranks presence: while a session is saying anything at all, a
/// change of presence changes neither the mode nor the window.
pub proof fn law_activity_outranks_presence(activity: Activity, before: Presence, after: Presence)
    requires
        activity != Activity::NoSession,
    ensures
        mode_of(Axes { presence: before, activity }) == mode_of(
            Axes { presence: after, activity },
        ),
        effects(Axes { presence: before, activity }, Axes { presence: after, activity })
            == Seq::<Command>::empty(),
        on_screen(Axes { presence: before, activity }),
{
    assert(effects(Axes { presence: before, activity }, Axes { presence: after, activity })
        =~= Seq::<Command>::empty());
}

/// Where nothing changed nothing is emitted.
pub proof fn law_no_change_no_commands(a: Axes)
    ensures
        effects(a, a) == Seq::<Command>::empty(),
{
    assert(effects(a, a) =~= Seq::<Command>::empty());
}

/// A window as the commands drive it.
pub struct Window {
    pub exists: bool,
    pub shown: bool,
    pub mode: Option<PillMode>,
}

/// The window that a pill with these axes keeps.
pub open spec fn window_of(a: Axes) -> Window {
    Window {
        exists: holds_window(a),
        shown: on_screen(a),
        mode: if holds_window(a) {
            Some(mode_of(a))
        } else {
            None
        },
    }
}

/// The window once a command has been carried out.
pub open spec fn obeyed(w: Window, c: Command) -> Window {
    match c {
        Command::Create => Window { exists: true, shown: false, mode: None },
        Command::SetMode(m) => Window { mode: Some(m), ..w },
        Command::Show => Window { shown: true, ..w },
        Command::Hide => Window { shown: false, ..w },
        Command::Destroy => Window { exists: false, shown: false, mode: None },
    }
}

/// The window once all of `cmds` have been carried out, in order.
pub open spec fn replayed(w: Window, cmds: Seq<Command>) -> Window
    decreases cmds.len(),
{
    if cmds.len() == 0 {
        w
    } else {
        replayed(obeyed(w, cmds[0]), cmds.skip(1))
    }
}

/// Carrying out the commands keeps the window in step: from the window of the
/// old axes they lead to the window of the new ones.
pub proof fn law_commands_keep_the_window_in_step(from: Axes, to: Axes)
    ensures
        replayed(window_of(from), effects(from, to)) == window_of(to),
{
    let cmds = effects(from, to);
    assert(cmds.len() <= 4);
    reveal_with_fuel(replayed, 5);
    let a = cmds.skip(1);
    let b = a.skip(1);
    let c = b.skip(1);
    let d = c.skip(1);
}

proof fn lemma_replayed_in_parts(w: Window, a: Seq<Command>, b: Seq<Command>)
    ensures
        replayed(w, a + b) == replayed(replayed(w, a), b),
    decreases a.len(),
{
    if a.len() == 0 {
        assert(a + b =~= b);
    } else {
        lemma_replayed_in_parts(obeyed(w, a[0]), a.skip(1), b);
        assert((a + b).skip(1) =~= a.skip(1) + b);
    }
}

/// Whatever calls a new pill has had, carrying out every command it has returned so
/// far, starting without a window, leaves the window that its axes ask for: there is
/// one exactly while the pill is resident or suppressed or a session is saying
/// something, it is on screen exactly while the mode is not `Hidden`, and the mode
/// handed over last is the mode of the axes.
pub proof fn law_replaying_everything_gives_the_window(calls: Seq<Call>)
    ensures
        ({
            let a = axes_after(calls);
            let none = Window { exists: false, shown: false, mode: None };
            let w = replayed(none, commands_over(calls));
            &&& w == window_of(a)
            &&& w.exists == (a.presence != Presence::Off || a.activity != Activity::NoSession)
            &&& w.shown == (mode_of(a) != PillMode::Hidden)
            &&& w.exists ==> w.mode == Some(mode_of(a))
            &&& w.shown ==> w.exists
        }),
    decreases calls.len(),
{
    let none = Window { exists: false, shown: false, mode: None };
    if calls.len() > 0 {
        let before = calls.drop_last();
        law_replaying_everything_gives_the_window(before);
        lemma_replayed_in_parts(
            none,
            commands_over(before),
            effects(axes_after(before), axes_after(calls)),
        );
        law_commands_keep_the_window_in_step(axes_after(before), axes_after(calls));
    }
}

/// The first visible frame is already the right one: wherever a `Show` is
/// emitted, the new mode was handed over before it.
pub proof fn law_mode_precedes_show(from: Axes, to: Axes, i: int)
    requires
        0 <= i < effects(from, to).len(),
        effects(from, to)[i] == Command::Show,
    ensures
        i > 0,
        effects(from, to)[i - 1] == Command::SetMode(mode_of(to)),
{
}

/// A window is created only where there was none and destroyed only where there
/// is no more use for it, and never both at once.
pub proof fn law_window_is_created_once(from: Axes, to: Axes)
    ensures
        effects(from, to).contains(Command::Create) <==> !holds_window(from) && holds_window(to),
        effects(from, to).contains(Command::Destroy) <==> holds_window(from) && !holds_window(to),
{
    let cmds = effects(from, to);
    if !holds_window(from) && holds_window(to) {
        assert(cmds[0] == Command::Create);
    }
    if holds_window(from) && !holds_window(to) {
        assert(cmds[cmds.len() - 1] == Command::Destroy);
    }
}

/// A flash holds for its whole linger and then retires, exactly once: from then
/// on no later tick changes anything.
pub proof fn law_flash_retires_once(ok: bool, since: Instant, now: Instant, later: Instant)
    ensures
        ({
            let flash = Activity::Done { ok, since };
            &&& ticked(flash, now) == (if clock::elapsed(since, now) >= linger_nanos(ok) {
                Activity::NoSession
            } else {
                flash
            })
            &&& ticked(flash, now) == Activity::NoSession ==> ticked(ticked(flash, now), later)
                == Activity::NoSession
        }),
{
}

/// Where a flash retires to is derived from the presence at that moment,
/// whatever presences the session passed through.
pub proof fn law_flash_retires_to_presence(presence: Presence, ok: bool, since: Instant, now: Instant)
    requires
        clock::elapsed(since, now) >= linger_nanos(ok),
    ensures
        mode_of(Axes { presence, activity: ticked(Activity::Done { ok, since }, now) }) == (
        match presence {
            Presence::Resident { expanded } => if expanded {
                PillMode::Expanded
            } else {
                PillMode::Idle
            },
            _ => PillMode::Hidden,
        }),
{
}

/// Only a flash has a clock: nothing retires anything else.
pub proof fn law_only_a_flash_ticks(activity: Activity, now: Instant)
    requires
        !(activity is Done),
    ensures
        ticked(activity, now) == activity,
{
}

/// The pill shows what the session says: a recording with its origin, a worker with its
/// start, and the end as a flash of its colour that begins at that moment. With no session
/// it is what its presence makes it: nothing where it is off or suppressed, and else the
/// nub, unfolded under the cursor.
pub proof fn law_the_pill_shows_what_the_session_says(
    presence: Presence,
    report: SessionActivity,
    now: Instant,
)
    ensures
        ({
            let mode = mode_of(Axes { presence, activity: reported(report, now) });
            match report {
                SessionActivity::Recording { origin } => mode == (PillMode::Recording { origin }),
                SessionActivity::Processing { since } => mode == (PillMode::Processing { since }),
                SessionActivity::Finished { ok } => mode == (PillMode::Done { ok, since: now }),
                SessionActivity::NoSession => {
                    &&& mode == PillMode::Hidden <==> presence == Presence::Off || presence
                        == Presence::Suppressed
                    &&& mode == PillMode::Idle <==> presence == (Presence::Resident {
                        expanded: false,
                    })
                    &&& mode == PillMode::Expanded <==> presence == (Presence::Resident {
                        expanded: true,
                    })
                },
            }
        }),
{
}

/// A success flashes for half a second and a failure for one and two tenths.
pub proof fn law_how_long_a_flash_holds(since: Instant, now: Instant)
    ensures
        ticked(Activity::Done { ok: true, since }, now) == Activity::NoSession <==> clock::elapsed(
            since,
            now,
        ) >= 500_000_000,
        ticked(Activity::Done { ok: false, since }, now) == Activity::NoSession
            <==> clock::elapsed(since, now) >= 1_200_000_000,
{
}

/// Every command is called for. A window is made, shown, hidden and torn down only where
/// that changes something, and a mode is handed over only where it is another one or the
/// window is new. None of them comes twice.
pub proof fn law_every_command_is_called_for(from: Axes, to: Axes, mode: PillMode)
    ensures
        ({
            let cmds = effects(from, to);
            let had = from.presence != Presence::Off || from.activity != Activity::NoSession;
            let keeps = to.presence != Presence::Off || to.activity != Activity::NoSession;
            let was_seen = mode_of(from) != PillMode::Hidden;
            let is_seen = mode_of(to) != PillMode::Hidden;
            &&& cmds.contains(Command::Create) <==> keeps && !had
            &&& cmds.contains(Command::SetMode(mode)) <==> mode == mode_of(to) && (keeps && !had || (
            had && mode_of(from) != mode_of(to)))
            &&& cmds.contains(Command::Show) <==> is_seen && !was_seen
            &&& cmds.contains(Command::Hide) <==> was_seen && !is_seen
            &&& cmds.contains(Command::Destroy) <==> had && !keeps
            &&& forall|i: int, j: int|
                0 <= i < j < cmds.len() ==> #[trigger] cmds[i] != #[trigger] cmds[j]
        }),
{
    let cmds = effects(from, to);
    let creates = holds_window(to) && !holds_window(from);
    let held = holds_window(to) || holds_window(from);
    let sets = held && (creates || mode_of(from) != mode_of(to));
    let a = when(creates, Command::Create);
    let b = a + when(sets, Command::SetMode(mode_of(to)));
    let c = b + when(on_screen(to) && !on_screen(from), Command::Show);
    let d = c + when(on_screen(from) && !on_screen(to), Command::Hide);
    assert(cmds == d + when(holds_window(from) && !holds_window(to), Command::Destroy));
    if creates {
        assert(cmds[0] == Command::Create);
    }
    if sets {
        assert(cmds[a.len() as int] == Command::SetMode(mode_of(to)));
    }
    if on_screen(to) && !on_screen(from) {
        assert(cmds[b.len() as int] == Command::Show);
    }
    if on_screen(from) && !on_screen(to) {
        assert(cmds[c.len() as int] == Command::Hide);
    }
    if holds_window(from) && !holds_window(to) {
        assert(cmds[d.len() as int] == Command::Destroy);
    }
}

/// The waveform drains over a bit less than a third of a second, steadily, into the
/// worker's turn.
pub proof fn law_how_long_the_handoff_takes(elapsed: int)
    requires
        0 <= elapsed,
    ensures
        clock::share(elapsed, HANDOFF_MS * 1_000_000) == WHOLE <==> elapsed >= 320_000_000,
{
    clock::law_shares_run_forward(0, elapsed, 320_000_000);
}

} // verus!
