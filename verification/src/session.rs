//! The dictation lifecycle as a pure state machine.
//!
//! Every method takes an input and the current moment and returns commands for
//! the caller to perform; the machine touches no I/O and no clock. It owns both
//! hotkeys (dictate and push-to-command), the capture handle, the session id
//! and the session kind. A session ends the moment its outcome is known: the
//! flash that follows belongs to the pill.
use crate::activation;
use crate::activation::{Fsm, InEvent, Mode, OutEvent};
use crate::clock::Instant;
use crate::pill::state::{Origin, SessionActivity};
use vstd::prelude::*;

verus! {

/// Shortest capture worth transcribing, in milliseconds; anything briefer is a
/// fumbled tap.
pub const MIN_CAPTURE_MS: u64 = 150;

/// Samples per second of a capture.
pub const TARGET_SR: u64 = 16_000;

/// The number of samples that the shortest capture worth transcribing has.
pub open spec fn min_samples() -> int {
    TARGET_SR * MIN_CAPTURE_MS / 1000
}

/// Which pipeline a capture feeds: dictation pastes the transcript; command
/// sends it to a language model and pastes the answer.
#[derive(Clone, Copy, PartialEq, Eq, Debug, Structural)]
pub enum SessionKind {
    Dictate,
    Command,
}

/// What a worker reports back once it finishes.
#[derive(Clone, Copy, PartialEq, Eq, Debug, Structural)]
pub enum Outcome {
    /// Text was produced and the paste call succeeded.
    Delivered,
    /// Transcription returned nothing usable.
    Empty,
    /// Transcription or paste failed.
    Failed,
}

/// An effect for the caller to perform.
#[derive(Clone, PartialEq, Debug)]
pub enum Command<S> {
    /// Open the capture stream and report back by [`Session::capture_started`].
    StartCapture,
    /// Tell the pill what this session is doing.
    ReportActivity(SessionActivity),
    /// Hand the captured samples to a worker under `session_id`; the worker
    /// reports its [`Outcome`] back by [`Session::on_outcome`].
    SpawnTranscription { samples: Vec<S>, session_id: u64, session_kind: SessionKind },
}

/// A capture stream that can be drained when the recording stops.
pub trait CaptureHandle {
    /// What the stream is made of.
    type Sample;

    /// Drains the stream and returns what was captured. Called once; the handle
    /// is dropped right after, which stops the stream.
    fn take_samples(&self) -> Vec<Self::Sample>;
}

/// Where the lifecycle is right now. At most one variant holds a capture handle,
/// so captures cannot overlap.
pub enum Phase<C> {
    /// Nothing happening.
    Idle,
    /// `StartCapture` emitted, the handle not there yet.
    Starting { kind: SessionKind, origin: Origin },
    /// Capturing.
    Recording { kind: SessionKind, origin: Origin, capture: C },
    /// A worker is running under `session_id`; only its outcome counts.
    Processing { session_id: u64 },
}

/// What a session holds.
pub struct SessionView<C> {
    pub dictate: Fsm,
    pub command: Fsm,
    pub mode: Mode,
    pub phase: Phase<C>,
    pub seq: u64,
    pub transcriber: bool,
}

/// A session that has just been made.
pub open spec fn fresh<C>(mode: Mode) -> SessionView<C> {
    SessionView {
        dictate: activation::fresh(mode),
        command: activation::fresh(mode),
        mode,
        phase: Phase::Idle,
        seq: 0,
        transcriber: false,
    }
}

/// A capture of this kind is asked for. Whatever went on before is superseded.
pub open spec fn begun<C>(s: SessionView<C>, kind: SessionKind, origin: Origin) -> SessionView<C> {
    SessionView { phase: Phase::Starting { kind, origin }, ..s }
}

/// The capture that is starting or running was begun with the mouse.
pub open spec fn by_click<C>(s: SessionView<C>) -> bool {
    match s.phase {
        Phase::Starting { origin, .. } => origin == Origin::Click,
        Phase::Recording { origin, .. } => origin == Origin::Click,
        _ => false,
    }
}

/// Stopping now is worth a worker: something was recorded, it is long enough,
/// and somebody can transcribe it.
pub open spec fn commits<C, S>(s: SessionView<C>, samples: Vec<S>) -> bool {
    &&& s.phase is Recording
    &&& samples@.len() >= min_samples()
    &&& s.transcriber
}

/// The session once the capture has stopped, having held `samples`.
pub open spec fn stopped<C, S>(s: SessionView<C>, samples: Vec<S>) -> SessionView<C> {
    if commits(s, samples) {
        SessionView {
            seq: (s.seq + 1) as u64,
            phase: Phase::Processing { session_id: (s.seq + 1) as u64 },
            ..s
        }
    } else {
        SessionView { phase: Phase::Idle, ..s }
    }
}

/// What stopping at `now` asks for. Where the capture had not even started there
/// is nothing to take back; in every other case that comes to nothing the pill
/// hears that there is no session.
pub open spec fn stop_commands<C, S>(
    s: SessionView<C>,
    samples: Vec<S>,
    now: Instant,
) -> Seq<Command<S>> {
    match s.phase {
        Phase::Starting { .. } => Seq::empty(),
        Phase::Recording { kind, .. } => if commits(s, samples) {
            seq![
                Command::ReportActivity(SessionActivity::Processing { since: now }),
                Command::SpawnTranscription {
                    samples,
                    session_id: (s.seq + 1) as u64,
                    session_kind: kind,
                },
            ]
        } else {
            seq![Command::ReportActivity(SessionActivity::NoSession)]
        },
        _ => seq![Command::ReportActivity(SessionActivity::NoSession)],
    }
}

/// `samples` is what draining the session's capture can have given; a session
/// that is not recording drains nothing.
pub open spec fn drained<C: CaptureHandle>(s: SessionView<C>, samples: Vec<C::Sample>) -> bool {
    match s.phase {
        Phase::Recording { capture, .. } => call_ensures(
            C::take_samples,
            (&capture,),
            samples,
        ),
        _ => true,
    }
}

/// The session stopped at `now` on what its capture held.
pub open spec fn ended<C: CaptureHandle>(
    before: SessionView<C>,
    now: Instant,
    after: SessionView<C>,
    cmds: Seq<Command<C::Sample>>,
) -> bool {
    exists|samples: Vec<C::Sample>| #[trigger]
        drained(before, samples) && after == stopped(before, samples) && cmds == stop_commands(
            before,
            samples,
            now,
        )
}

/// The session with one hotkey moved on by `ev`. A click-started session keeps
/// the hotkeys out of it: they never saw it start.
pub open spec fn keyed<C>(s: SessionView<C>, kind: SessionKind, ev: InEvent) -> SessionView<C> {
    if by_click(s) {
        s
    } else {
        match kind {
            SessionKind::Dictate => SessionView { dictate: activation::next(s.dictate, ev), ..s },
            SessionKind::Command => SessionView { command: activation::next(s.command, ev), ..s },
        }
    }
}

/// What the event of one hotkey means. Over a click-started session a press of
/// the dictation hotkey stops it, as confirming does, and nothing else counts.
pub open spec fn meaning<C>(s: SessionView<C>, kind: SessionKind, ev: InEvent) -> OutEvent {
    if by_click(s) {
        if kind == SessionKind::Dictate && ev is Pressed {
            OutEvent::Stop
        } else {
            OutEvent::Ignore
        }
    } else {
        match kind {
            SessionKind::Dictate => activation::verdict(s.dictate, ev),
            SessionKind::Command => activation::verdict(s.command, ev),
        }
    }
}

/// The session after an event of one hotkey.
pub open spec fn driven<C: CaptureHandle>(
    before: SessionView<C>,
    kind: SessionKind,
    ev: InEvent,
    after: SessionView<C>,
    cmds: Seq<Command<C::Sample>>,
) -> bool {
    match meaning(before, kind, ev) {
        OutEvent::Start => after == begun(keyed(before, kind, ev), kind, Origin::Hotkey) && cmds
            == seq![Command::<C::Sample>::StartCapture],
        OutEvent::Stop => ended(keyed(before, kind, ev), activation::event_time(ev), after, cmds),
        OutEvent::Ignore => after == keyed(before, kind, ev) && cmds.len() == 0,
    }
}

/// The session once the capture it asked for has started (`Some`) or failed to
/// (`None`). A failure leaves the hotkey that asked as if nobody had touched it,
/// so that it does not believe that it is recording. A stray report is ignored.
pub open spec fn answered<C>(s: SessionView<C>, capture: Option<C>) -> SessionView<C> {
    match (s.phase, capture) {
        (Phase::Starting { kind, origin }, Some(capture)) => SessionView {
            phase: Phase::Recording { kind, origin, capture },
            ..s
        },
        (Phase::Starting { kind, .. }, None) => match kind {
            SessionKind::Dictate => SessionView {
                phase: Phase::Idle,
                dictate: activation::fresh(s.mode),
                ..s
            },
            SessionKind::Command => SessionView {
                phase: Phase::Idle,
                command: activation::fresh(s.mode),
                ..s
            },
        },
        _ => s,
    }
}

/// What the pill hears of it: a recording, with the origin it was begun with.
pub open spec fn answer_commands<C, S>(s: SessionView<C>, capture: Option<C>) -> Seq<Command<S>> {
    match (s.phase, capture) {
        (Phase::Starting { origin, .. }, Some(_)) => seq![
            Command::ReportActivity(SessionActivity::Recording { origin }),
        ],
        _ => Seq::empty(),
    }
}

/// The worker `session_id` is the one that the session waits for.
pub open spec fn awaits<C>(s: SessionView<C>, session_id: u64) -> bool {
    s.phase matches Phase::Processing { session_id: id } && id == session_id
}

/// The session once the worker `session_id` has reported.
pub open spec fn resolved<C>(s: SessionView<C>, session_id: u64) -> SessionView<C> {
    if awaits(s, session_id) {
        SessionView { phase: Phase::Idle, ..s }
    } else {
        s
    }
}

/// What an outcome tells the pill.
pub open spec fn finish(outcome: Outcome) -> SessionActivity {
    match outcome {
        Outcome::Delivered => SessionActivity::Finished { ok: true },
        Outcome::Failed => SessionActivity::Finished { ok: false },
        Outcome::Empty => SessionActivity::NoSession,
    }
}

/// What the pill hears of a worker's report: nothing, where it is not the one
/// that the session waits for.
pub open spec fn outcome_commands<C, S>(
    s: SessionView<C>,
    session_id: u64,
    outcome: Outcome,
) -> Seq<Command<S>> {
    if awaits(s, session_id) {
        seq![Command::ReportActivity(finish(outcome))]
    } else {
        Seq::empty()
    }
}

/// The dictation lifecycle.
pub struct Session<C> {
    /// The dictation hotkey.
    dictate_fsm: Fsm,
    /// The push-to-command hotkey. A separate one, so that the two keep
    /// independent press and release states.
    command_fsm: Fsm,
    /// Kept so that a failed capture can reset the hotkey that asked for it.
    mode: Mode,
    phase: Phase<C>,
    /// The id of the latest worker.
    session_seq: u64,
    /// Whether anybody can transcribe.
    transcriber_available: bool,
}

impl<C> View for Session<C> {
    type V = SessionView<C>;

    closed spec fn view(&self) -> SessionView<C> {
        SessionView {
            dictate: self.dictate_fsm,
            command: self.command_fsm,
            mode: self.mode,
            phase: self.phase,
            seq: self.session_seq,
            transcriber: self.transcriber_available,
        }
    }
}

impl<C: CaptureHandle> Session<C> {
    pub fn new(mode: Mode) -> (s: Self)
        ensures
            s@ == fresh::<C>(mode),
    {
        Session {
            dictate_fsm: Fsm::new(mode),
            command_fsm: Fsm::new(mode),
            mode,
            phase: Phase::Idle,
            session_seq: 0,
            transcriber_available: false,
        }
    }

    pub fn set_transcriber_available(&mut self, available: bool)
        ensures
            final(self)@ == (SessionView { transcriber: available, ..old(self)@ }),
    {
        self.transcriber_available = available;
    }

    /// Rebuilds both hotkeys for a new mode.
    pub fn reset_activation(&mut self, mode: Mode)
        ensures
            final(self)@ == (SessionView {
                mode,
                dictate: activation::fresh(mode),
                command: activation::fresh(mode),
                ..old(self)@
            }),
    {
        self.mode = mode;
        self.dictate_fsm = Fsm::new(mode);
        self.command_fsm = Fsm::new(mode);
    }

    /// The kind of the capture that is starting or running, if any.
    pub fn capturing_kind(&self) -> (r: Option<SessionKind>)
        ensures
            r == (match self@.phase {
                Phase::Starting { kind, .. } => Some(kind),
                Phase::Recording { kind, .. } => Some(kind),
                _ => None,
            }),
    {
        match &self.phase {
            Phase::Starting { kind, .. } => Some(*kind),
            Phase::Recording { kind, .. } => Some(*kind),
            _ => None,
        }
    }

    fn click_started(&self) -> (r: bool)
        ensures
            r == by_click(self@),
    {
        match &self.phase {
            Phase::Starting { origin, .. } => *origin == Origin::Click,
            Phase::Recording { origin, .. } => *origin == Origin::Click,
            _ => false,
        }
    }

    /// Starts a session from the pill's own Dictate button: the same lifecycle
    /// that a hotkey takes, but for the origin it carries.
    pub fn start_from_click(&mut self) -> (cmds: Vec<Command<C::Sample>>)
        ensures
            final(self)@ == begun(old(self)@, SessionKind::Dictate, Origin::Click),
            cmds@ == seq![Command::<C::Sample>::StartCapture],
    {
        self.begin(SessionKind::Dictate, Origin::Click)
    }

    /// Finishes a click-started session, as releasing the hotkey would.
    pub fn confirm(&mut self, now: Instant) -> (cmds: Vec<Command<C::Sample>>)
        requires
            old(self)@.seq < u64::MAX,
        ensures
            ended(old(self)@, now, final(self)@, cmds@),
    {
        self.end(now)
    }

    /// Throws the audio of a recording away: nothing is spawned and nothing
    /// flashes. Does nothing unless a recording is running.
    pub fn cancel(&mut self) -> (cmds: Vec<Command<C::Sample>>)
        ensures
            old(self)@.phase is Recording ==> final(self)@ == (SessionView {
                phase: Phase::Idle,
                ..old(self)@
            }) && cmds@ == seq![
                Command::<C::Sample>::ReportActivity(SessionActivity::NoSession),
            ],
            !(old(self)@.phase is Recording) ==> final(self)@ == old(self)@ && cmds@.len() == 0,
    {
        if !self.is_recording() {
            return Vec::new();
        }
        self.phase = Phase::Idle;
        report(SessionActivity::NoSession)
    }

    /// Takes an event of the dictation hotkey.
    pub fn on_dictate_input(&mut self, ev: InEvent) -> (cmds: Vec<Command<C::Sample>>)
        requires
            old(self)@.seq < u64::MAX,
        ensures
            driven(old(self)@, SessionKind::Dictate, ev, final(self)@, cmds@),
    {
        self.drive_fsm(SessionKind::Dictate, ev)
    }

    /// Takes an event of the push-to-command hotkey.
    pub fn on_command_input(&mut self, ev: InEvent) -> (cmds: Vec<Command<C::Sample>>)
        requires
            old(self)@.seq < u64::MAX,
        ensures
            driven(old(self)@, SessionKind::Command, ev, final(self)@, cmds@),
    {
        self.drive_fsm(SessionKind::Command, ev)
    }

    fn drive_fsm(&mut self, kind: SessionKind, ev: InEvent) -> (cmds: Vec<Command<C::Sample>>)
        requires
            old(self)@.seq < u64::MAX,
        ensures
            driven(old(self)@, kind, ev, final(self)@, cmds@),
    {
        let now = match ev {
            InEvent::Pressed(t) => t,
            InEvent::Released(t) => t,
        };
        if self.click_started() {
            return match (kind, ev) {
                (SessionKind::Dictate, InEvent::Pressed(_)) => self.end(now),
                _ => Vec::new(),
            };
        }
        let out = match kind {
            SessionKind::Dictate => self.dictate_fsm.step(ev),
            SessionKind::Command => self.command_fsm.step(ev),
        };
        match out {
            OutEvent::Start => self.begin(kind, Origin::Hotkey),
            OutEvent::Stop => self.end(now),
            OutEvent::Ignore => Vec::new(),
        }
    }

    /// Asks for a capture. Whatever went on before is superseded: a live capture
    /// is dropped, and a worker still running is no longer waited for.
    pub fn begin(&mut self, kind: SessionKind, origin: Origin) -> (cmds: Vec<Command<C::Sample>>)
        ensures
            final(self)@ == begun(old(self)@, kind, origin),
            cmds@ == seq![Command::<C::Sample>::StartCapture],
    {
        self.phase = Phase::Starting { kind, origin };
        let mut cmds: Vec<Command<C::Sample>> = Vec::new();
        cmds.push(Command::StartCapture);
        assert(cmds@ =~= seq![Command::<C::Sample>::StartCapture]);
        cmds
    }

    /// Takes the answer to `StartCapture`.
    pub fn capture_started(&mut self, capture: Option<C>) -> (cmds: Vec<Command<C::Sample>>)
        ensures
            final(self)@ == answered(old(self)@, capture),
            cmds@ == answer_commands::<C, C::Sample>(old(self)@, capture),
    {
        if let Phase::Starting { kind, origin } = &self.phase {
            let kind = *kind;
            let origin = *origin;
            match capture {
                Some(capture) => {
                    self.phase = Phase::Recording { kind, origin, capture };
                    return report(SessionActivity::Recording { origin });
                },
                None => {
                    self.phase = Phase::Idle;
                    match kind {
                        SessionKind::Dictate => {
                            self.dictate_fsm = Fsm::new(self.mode);
                        },
                        SessionKind::Command => {
                            self.command_fsm = Fsm::new(self.mode);
                        },
                    }
                },
            }
        }
        let cmds: Vec<Command<C::Sample>> = Vec::new();
        assert(cmds@ =~= Seq::empty());
        cmds
    }

    /// Stops the current capture and drains it.
    pub fn end(&mut self, now: Instant) -> (cmds: Vec<Command<C::Sample>>)
        requires
            old(self)@.seq < u64::MAX,
        ensures
            ended(old(self)@, now, final(self)@, cmds@),
    {
        let samples: Vec<C::Sample> = match &self.phase {
            Phase::Recording { capture, .. } => capture.take_samples(),
            _ => Vec::new(),
        };
        assert(drained(old(self)@, samples));
        self.end_with(samples, now)
    }

    /// Stops the current capture, which held `samples`. With enough audio and
    /// somebody to transcribe it they go to a worker.
    pub fn end_with(&mut self, samples: Vec<C::Sample>, now: Instant) -> (cmds: Vec<
        Command<C::Sample>,
    >)
        requires
            old(self)@.seq < u64::MAX,
        ensures
            final(self)@ == stopped(old(self)@, samples),
            cmds@ == stop_commands(old(self)@, samples, now),
    {
        let recorded: Option<SessionKind> = match &self.phase {
            Phase::Recording { kind, .. } => Some(*kind),
            Phase::Starting { .. } => {
                self.phase = Phase::Idle;
                let cmds: Vec<Command<C::Sample>> = Vec::new();
                assert(cmds@ =~= Seq::empty());
                return cmds;
            },
            _ => None,
        };
        self.phase = Phase::Idle;
        match recorded {
            Some(kind) => {
                let min: u64 = TARGET_SR * MIN_CAPTURE_MS / 1000;
                if (samples.len() as u64) < min || !self.transcriber_available {
                    return report(SessionActivity::NoSession);
                }
                self.session_seq = self.session_seq + 1;
                let session_id: u64 = self.session_seq;
                self.phase = Phase::Processing { session_id };
                let mut cmds: Vec<Command<C::Sample>> = Vec::new();
                cmds.push(Command::ReportActivity(SessionActivity::Processing { since: now }));
                cmds.push(
                    Command::SpawnTranscription { samples, session_id, session_kind: kind },
                );
                assert(cmds@ =~= stop_commands(old(self)@, samples, now));
                cmds
            },
            None => report(SessionActivity::NoSession),
        }
    }

    /// Takes a worker's report. Only the worker that the session waits for
    /// counts, so that a slow earlier one cannot repaint a later capture's pill.
    pub fn on_outcome(&mut self, session_id: u64, outcome: Outcome) -> (cmds: Vec<
        Command<C::Sample>,
    >)
        ensures
            final(self)@ == resolved(old(self)@, session_id),
            cmds@ == outcome_commands::<C, C::Sample>(old(self)@, session_id, outcome),
    {
        let owns = match &self.phase {
            Phase::Processing { session_id: id } => *id == session_id,
            _ => false,
        };
        if !owns {
            let cmds: Vec<Command<C::Sample>> = Vec::new();
            assert(cmds@ =~= Seq::empty());
            return cmds;
        }
        self.phase = Phase::Idle;
        match outcome {
            Outcome::Delivered => report(SessionActivity::Finished { ok: true }),
            Outcome::Failed => report(SessionActivity::Finished { ok: false }),
            Outcome::Empty => report(SessionActivity::NoSession),
        }
    }

    pub fn is_recording(&self) -> (r: bool)
        ensures
            r == self@.phase is Recording,
    {
        match &self.phase {
            Phase::Recording { .. } => true,
            _ => false,
        }
    }

    pub fn is_processing(&self) -> (r: bool)
        ensures
            r == self@.phase is Processing,
    {
        match &self.phase {
            Phase::Processing { .. } => true,
            _ => false,
        }
    }

    pub fn is_idle(&self) -> (r: bool)
        ensures
            r == self@.phase is Idle,
    {
        match &self.phase {
            Phase::Idle => true,
            _ => false,
        }
    }
}

/// An outcome that is not the one that the session waits for touches nothing.
pub proof fn law_stale_outcomes_are_ignored<C, S>(
    s: SessionView<C>,
    session_id: u64,
    outcome: Outcome,
)
    requires
        !awaits(s, session_id),
    ensures
        resolved(s, session_id) == s,
        outcome_commands::<C, S>(s, session_id, outcome) == Seq::<Command<S>>::empty(),
{
}

/// Ids strictly increase, so that none is used twice: a worker that was spawned
/// earlier is never the one that a later recording waits for.
pub proof fn law_ids_are_never_reused<C, S>(s: SessionView<C>, samples: Vec<S>, earlier: u64)
    requires
        s.seq < u64::MAX,
        earlier <= s.seq,
        commits(s, samples),
    ensures
        stopped(s, samples).seq > s.seq,
        !awaits(stopped(s, samples), earlier),
        awaits(stopped(s, samples), stopped(s, samples).seq),
{
}

/// A worker that has been superseded by a new capture is no longer waited for.
pub proof fn law_a_new_capture_supersedes_the_worker<C>(
    s: SessionView<C>,
    kind: SessionKind,
    origin: Origin,
    session_id: u64,
)
    ensures
        !awaits(begun(s, kind, origin), session_id),
        begun(s, kind, origin).seq == s.seq,
{
}

/// The pill is parked in processing only where a worker comes to resolve it: a
/// recording was running, it is long enough, and somebody can transcribe it.
pub proof fn law_processing_has_a_worker<C, S>(s: SessionView<C>, samples: Vec<S>, now: Instant)
    requires
        s.seq < u64::MAX,
    ensures
        stopped(s, samples).phase is Processing <==> commits(s, samples),
        stopped(s, samples).phase is Processing ==> match stop_commands(s, samples, now).last() {
            Command::SpawnTranscription { samples: sent, session_id, .. } => sent == samples
                && awaits(stopped(s, samples), session_id),
            _ => false,
        },
{
}

/// Origin decides presentation, never control: how a recording was begun changes
/// nothing about how it ends.
pub proof fn law_origin_does_not_change_the_end<C, S>(
    s: SessionView<C>,
    kind: SessionKind,
    capture: C,
    one: Origin,
    other: Origin,
    samples: Vec<S>,
    now: Instant,
)
    ensures
        ({
            let a = SessionView { phase: Phase::Recording { kind, origin: one, capture }, ..s };
            let b = SessionView { phase: Phase::Recording { kind, origin: other, capture }, ..s };
            &&& stopped(a, samples) == stopped(b, samples)
            &&& stop_commands(a, samples, now) == stop_commands(b, samples, now)
        }),
{
}

/// Over a click-started session a press of the dictation hotkey does what
/// confirming does, and leaves the hotkeys as they were.
pub proof fn law_a_press_confirms_a_click_session<C: CaptureHandle>(
    s: SessionView<C>,
    now: Instant,
    after: SessionView<C>,
    cmds: Seq<Command<C::Sample>>,
)
    requires
        by_click(s),
    ensures
        driven(s, SessionKind::Dictate, InEvent::Pressed(now), after, cmds) <==> ended(
            s,
            now,
            after,
            cmds,
        ),
        ended(s, now, after, cmds) ==> after.dictate == s.dictate && after.command == s.command,
{
}

/// Over a click-started session the command hotkey and every release are
/// ignored.
pub proof fn law_only_a_dictate_press_ends_a_click_session<C: CaptureHandle>(
    s: SessionView<C>,
    kind: SessionKind,
    ev: InEvent,
    after: SessionView<C>,
    cmds: Seq<Command<C::Sample>>,
)
    requires
        by_click(s),
        kind == SessionKind::Command || ev is Released,
        driven(s, kind, ev, after, cmds),
    ensures
        after == s,
        cmds.len() == 0,
{
}

/// One hotkey's events never touch the other's state.
pub proof fn law_hotkeys_are_independent<C: CaptureHandle>(
    s: SessionView<C>,
    ev: InEvent,
    after: SessionView<C>,
    cmds: Seq<Command<C::Sample>>,
)
    ensures
        driven(s, SessionKind::Dictate, ev, after, cmds) ==> after.command == s.command,
        driven(s, SessionKind::Command, ev, after, cmds) ==> after.dictate == s.dictate,
{
}

/// A capture that fails to start leaves its hotkey ready: the next press starts
/// a new capture rather than reading as a stop.
pub proof fn law_a_failed_start_leaves_the_hotkey_ready<C>(
    s: SessionView<C>,
    kind: SessionKind,
    origin: Origin,
    t: Instant,
)
    requires
        s.phase == (Phase::<C>::Starting { kind, origin }),
    ensures
        answered(s, None).phase is Idle,
        meaning(answered(s, None), kind, InEvent::Pressed(t)) == OutEvent::Start,
{
}

/// A worker's report says how the session went: a delivered text is a success, a failure
/// is a failure, and a transcript with nothing in it is no session at all.
pub proof fn law_an_outcome_is_reported_for_what_it_is<C, S>(
    s: SessionView<C>,
    session_id: u64,
    outcome: Outcome,
)
    requires
        s.phase == (Phase::<C>::Processing { session_id }),
    ensures
        ({
            let cmds = outcome_commands::<C, S>(s, session_id, outcome);
            &&& cmds.len() == 1
            &&& cmds[0] == Command::<S>::ReportActivity(SessionActivity::Finished { ok: true })
                <==> outcome == Outcome::Delivered
            &&& cmds[0] == Command::<S>::ReportActivity(SessionActivity::Finished { ok: false })
                <==> outcome == Outcome::Failed
            &&& cmds[0] == Command::<S>::ReportActivity(SessionActivity::NoSession) <==> outcome
                == Outcome::Empty
        }),
        resolved(s, session_id) == (SessionView { phase: Phase::<C>::Idle, ..s }),
{
}

/// A worker counts only while the session is processing under its id: in every other
/// phase, and under every other id, its report changes nothing and says nothing.
pub proof fn law_only_the_awaited_worker_counts<C, S>(
    s: SessionView<C>,
    session_id: u64,
    outcome: Outcome,
)
    requires
        s.phase != (Phase::<C>::Processing { session_id }),
    ensures
        resolved(s, session_id) == s,
        outcome_commands::<C, S>(s, session_id, outcome).len() == 0,
{
}

/// A recording of at least 150 milliseconds at 16 kHz that somebody can transcribe goes to
/// a worker, whole, under the next id and for the pipeline it was begun for, and the pill
/// hears since when. A recording that is shorter, or that nobody can transcribe, comes to
/// nothing, and the pill hears so.
pub proof fn law_what_stopping_a_recording_comes_to<C, S>(
    s: SessionView<C>,
    kind: SessionKind,
    origin: Origin,
    capture: C,
    samples: Vec<S>,
    now: Instant,
)
    requires
        s.phase == (Phase::<C>::Recording { kind, origin, capture }),
        s.seq < u64::MAX,
    ensures
        ({
            let cmds = stop_commands(s, samples, now);
            let after = stopped(s, samples);
            let next = (s.seq + 1) as u64;
            let enough = samples@.len() * 1000 >= 16_000 * 150;
            &&& enough && s.transcriber ==> {
                &&& cmds.len() == 2
                &&& cmds[0] == Command::<S>::ReportActivity(
                    SessionActivity::Processing { since: now },
                )
                &&& cmds[1] == (Command::<S>::SpawnTranscription {
                    samples,
                    session_id: next,
                    session_kind: kind,
                })
                &&& after == (SessionView {
                    seq: next,
                    phase: Phase::<C>::Processing { session_id: next },
                    ..s
                })
            }
            &&& !(enough && s.transcriber) ==> {
                &&& cmds.len() == 1
                &&& cmds[0] == Command::<S>::ReportActivity(SessionActivity::NoSession)
                &&& after == (SessionView { phase: Phase::<C>::Idle, ..s })
            }
        }),
{
    let n: nat = samples@.len();
    assert(n * 1000 >= 2_400_000 <==> n >= 2400);
    assert(min_samples() == 2400);
}

/// Stopping what is not recording spawns nothing and leaves the session idle. The pill
/// hears of it unless the capture had only been asked for: then there is nothing on the
/// pill to take back.
pub proof fn law_stopping_without_a_recording_spawns_nothing<C, S>(
    s: SessionView<C>,
    samples: Vec<S>,
    now: Instant,
)
    requires
        !(s.phase is Recording),
    ensures
        stopped(s, samples) == (SessionView { phase: Phase::<C>::Idle, ..s }),
        s.phase is Starting ==> stop_commands(s, samples, now).len() == 0,
        !(s.phase is Starting) ==> stop_commands(s, samples, now).len() == 1 && stop_commands(
            s,
            samples,
            now,
        )[0] == Command::<S>::ReportActivity(SessionActivity::NoSession),
{
}

/// A capture that was asked for and has started is recorded for the pipeline and from the
/// origin it was asked for, and the pill hears of that origin. One that failed to start
/// tells the pill nothing, and resets the hotkey of its own pipeline alone. A report that
/// nobody asked for changes nothing.
pub proof fn law_what_an_answer_comes_to<C, S>(
    s: SessionView<C>,
    kind: SessionKind,
    origin: Origin,
    capture: C,
)
    ensures
        s.phase == (Phase::<C>::Starting { kind, origin }) ==> {
            &&& answered(s, Some(capture)) == (SessionView {
                phase: Phase::<C>::Recording { kind, origin, capture },
                ..s
            })
            &&& answer_commands::<C, S>(s, Some(capture)).len() == 1
            &&& answer_commands::<C, S>(s, Some(capture))[0] == Command::<S>::ReportActivity(
                SessionActivity::Recording { origin },
            )
            &&& answer_commands::<C, S>(s, None).len() == 0
            &&& answered(s, None).phase == Phase::<C>::Idle
            &&& kind == SessionKind::Dictate ==> answered(s, None).command == s.command
            &&& kind == SessionKind::Command ==> answered(s, None).dictate == s.dictate
        },
        !(s.phase is Starting) ==> {
            &&& answered(s, Some(capture)) == s
            &&& answered(s, None) == s
            &&& answer_commands::<C, S>(s, Some(capture)).len() == 0
            &&& answer_commands::<C, S>(s, None).len() == 0
        },
{
}

/// A hotkey that says "start" asks for a capture of its own pipeline, from the keyboard,
/// whatever went on before; one that says "ignore" asks for nothing and leaves the phase.
pub proof fn law_a_hotkey_starts_its_own_pipeline<C: CaptureHandle>(
    s: SessionView<C>,
    kind: SessionKind,
    ev: InEvent,
    after: SessionView<C>,
    cmds: Seq<Command<C::Sample>>,
)
    requires
        !by_click(s),
        driven(s, kind, ev, after, cmds),
    ensures
        ({
            let out = match kind {
                SessionKind::Dictate => activation::verdict(s.dictate, ev),
                SessionKind::Command => activation::verdict(s.command, ev),
            };
            &&& out == OutEvent::Start ==> after.phase == (Phase::<C>::Starting {
                kind,
                origin: Origin::Hotkey,
            }) && cmds == seq![Command::<C::Sample>::StartCapture]
            &&& out == OutEvent::Ignore ==> after.phase == s.phase && cmds.len() == 0
            &&& out == OutEvent::Stop && s.phase is Starting ==> after.phase == Phase::<C>::Idle
                && cmds.len() == 0
        }),
{
}

/// Only a capture that starts or runs, and that the mouse began, counts as begun with
/// the mouse.
pub proof fn law_what_counts_as_begun_with_the_mouse<C>(s: SessionView<C>)
    ensures
        s.phase matches Phase::Starting { origin, .. } ==> (by_click(s) <==> origin
            == Origin::Click),
        s.phase matches Phase::Recording { origin, .. } ==> (by_click(s) <==> origin
            == Origin::Click),
        s.phase is Idle || s.phase is Processing ==> !by_click(s),
{
}

/// A session that has just been made is idle, has spawned nobody, and has hotkeys that
/// nobody has touched; it knows of no transcriber yet.
pub proof fn law_a_new_session_is_idle<C>(mode: Mode)
    ensures
        ({
            let s = fresh::<C>(mode);
            let untouched = activation::Fsm {
                mode,
                state: activation::State::Idle { tapped: None },
            };
            &&& s.phase == Phase::<C>::Idle
            &&& s.seq == 0
            &&& !s.transcriber
            &&& s.mode == mode
            &&& s.dictate == untouched
            &&& s.command == untouched
        }),
{
}

/// Asking for a capture changes the phase and nothing else: it is for the pipeline and
/// from the origin that were asked for.
pub proof fn law_asking_for_a_capture<C>(s: SessionView<C>, kind: SessionKind, origin: Origin)
    ensures
        begun(s, kind, origin) == (SessionView {
            phase: Phase::<C>::Starting { kind, origin },
            ..s
        }),
{
}

/// A hotkey moves on with every event, unless the mouse began the session: then it never
/// saw it start and stays as it was. What the session ends with is what the hotkey came to.
pub proof fn law_a_hotkey_moves_on<C: CaptureHandle>(
    s: SessionView<C>,
    ev: InEvent,
    after: SessionView<C>,
    cmds: Seq<Command<C::Sample>>,
)
    ensures
        driven(s, SessionKind::Dictate, ev, after, cmds) && !by_click(s) ==> after.dictate
            == activation::next(s.dictate, ev),
        driven(s, SessionKind::Command, ev, after, cmds) && !by_click(s) ==> after.command
            == activation::next(s.command, ev),
        driven(s, SessionKind::Dictate, ev, after, cmds) && by_click(s) ==> after.dictate
            == s.dictate,
        driven(s, SessionKind::Dictate, ev, after, cmds) ==> after.mode == s.mode
            && after.transcriber == s.transcriber,
        driven(s, SessionKind::Command, ev, after, cmds) ==> after.mode == s.mode
            && after.transcriber == s.transcriber,
{
}

/// A recording ends on what its own capture held: that is what is weighed and what is sent.
pub proof fn law_a_recording_ends_on_its_own_capture<C: CaptureHandle>(
    s: SessionView<C>,
    kind: SessionKind,
    origin: Origin,
    capture: C,
    now: Instant,
    after: SessionView<C>,
    cmds: Seq<Command<C::Sample>>,
)
    requires
        s.phase == (Phase::<C>::Recording { kind, origin, capture }),
        ended(s, now, after, cmds),
    ensures
        exists|samples: Vec<C::Sample>| #[trigger]
            call_ensures(C::take_samples, (&capture,), samples) && after == stopped(s, samples)
                && cmds == stop_commands(s, samples, now),
{
    let samples = choose|samples: Vec<C::Sample>| #[trigger]
        drained(s, samples) && after == stopped(s, samples) && cmds == stop_commands(
            s,
            samples,
            now,
        );
    assert(call_ensures(C::take_samples, (&capture,), samples));
}

/// One report to the pill.
fn report<S>(activity: SessionActivity) -> (cmds: Vec<Command<S>>)
    ensures
        cmds@ == seq![Command::<S>::ReportActivity(activity)],
{
    let mut cmds: Vec<Command<S>> = Vec::new();
    cmds.push(Command::ReportActivity(activity));
    assert(cmds@ =~= seq![Command::<S>::ReportActivity(activity)]);
    cmds
}

} // verus!
