//! The label above the pill: it names the button under the cursor, and says
//! "Copied" when a copy lands. It does these two jobs and no others.
use crate::clock;
use crate::clock::{share_of, Duration, Instant, WHOLE};
use crate::pill::bar;
use crate::pill::geom;
use crate::pill::bar::{button, BUTTON_COUNT};
use crate::text::same;
use vstd::prelude::*;

verus! {

/// What a landed copy says.
pub const COPIED: &'static str = "Copied";

/// How long an acknowledgement holds, in milliseconds.
pub const COPIED_LINGER_MS: u64 = 1000;

/// How long the crossfade from one text to the next runs, in milliseconds.
pub const LABEL_FADE_MS: u64 = 110;

/// The text of an optional label.
pub open spec fn shown_text(s: Option<&'static str>) -> Option<Seq<char>> {
    match s {
        Some(s) => Some(s@),
        None => None,
    }
}

/// The label's whole appearance this frame: what it is fading from, what to, and
/// how far along, in billionths and already eased. Either side may be missing.
#[derive(Clone, Copy, PartialEq, Eq, Debug)]
pub struct Fade {
    pub from: Option<&'static str>,
    pub to: Option<&'static str>,
    pub t: u64,
}

/// The shares of light of the outgoing and the incoming text. A missing side has
/// none, and a share past the whole is the whole.
pub open spec fn lights(from: bool, to: bool, t: int) -> (int, int) {
    (
        if from {
            WHOLE - geom::clamped(t)
        } else {
            0
        },
        if to {
            geom::clamped(t)
        } else {
            0
        },
    )
}

impl Fade {
    /// Whether this frame draws nothing at all.
    pub fn is_blank(&self) -> (r: bool)
        ensures
            r == (lights(self.from is Some, self.to is Some, self.t as int) == (0int, 0int)),
    {
        let (a, b) = self.opacities();
        a == 0 && b == 0
    }

    /// The outgoing and the incoming text's shares of light, in billionths.
    pub fn opacities(&self) -> (r: (u64, u64))
        ensures
            (r.0 as int, r.1 as int) == lights(self.from is Some, self.to is Some, self.t as int),
    {
        let t: u64 = if self.t < WHOLE {
            self.t
        } else {
            WHOLE
        };
        (
            if self.from.is_some() {
                WHOLE - t
            } else {
                0
            },
            if self.to.is_some() {
                t
            } else {
                0
            },
        )
    }
}

/// What a [`Label`] holds.
pub struct LabelView {
    /// The name of the button under the cursor.
    pub hovered: Option<Seq<char>>,
    /// An acknowledgement, and the moment it stops being shown.
    pub flash: Option<(Seq<char>, Instant)>,
    /// What the crossfade is heading for.
    pub shown: Option<Seq<char>>,
    /// What it is coming from.
    pub previous: Option<Seq<char>>,
    pub started: Instant,
}

/// A label with nothing to say.
pub open spec fn silent(now: Instant) -> LabelView {
    LabelView { hovered: None, flash: None, shown: None, previous: None, started: now }
}

/// What the label should say: the acknowledgement while it holds, else the name
/// under the cursor.
pub open spec fn wanted(l: LabelView, now: Instant) -> Option<Seq<char>> {
    match l.flash {
        Some((text, until)) => if now.nanos < until.nanos {
            Some(text)
        } else {
            l.hovered
        },
        None => l.hovered,
    }
}

/// The label once it heads for what it should say. Where that is what it shows
/// already, nothing restarts.
pub open spec fn pointed(l: LabelView, now: Instant) -> LabelView {
    if wanted(l, now) == l.shown {
        l
    } else {
        LabelView { previous: l.shown, shown: wanted(l, now), started: now, ..l }
    }
}

/// The name of a button, or nothing.
pub open spec fn name_at(index: Option<usize>) -> Option<Seq<char>> {
    match index {
        Some(i) => Some(bar::name_of(i as int)),
        None => None,
    }
}

/// How far the crossfade has come at `now`.
pub open spec fn crossfade(l: LabelView, now: Instant) -> int {
    clock::share(clock::elapsed(l.started, now), LABEL_FADE_MS * 1_000_000)
}

/// What the label is showing, what it was showing, and when it started changing.
#[derive(Clone, Copy, Debug)]
pub struct Label {
    hovered: Option<&'static str>,
    flash: Option<(&'static str, Instant)>,
    shown: Option<&'static str>,
    previous: Option<&'static str>,
    started: Instant,
}

impl View for Label {
    type V = LabelView;

    closed spec fn view(&self) -> LabelView {
        LabelView {
            hovered: shown_text(self.hovered),
            flash: match self.flash {
                Some((text, until)) => Some((text@, until)),
                None => None,
            },
            shown: shown_text(self.shown),
            previous: shown_text(self.previous),
            started: self.started,
        }
    }
}

fn same_text(a: Option<&'static str>, b: Option<&'static str>) -> (r: bool)
    ensures
        r == (shown_text(a) == shown_text(b)),
{
    match (a, b) {
        (Some(x), Some(y)) => same(x, y),
        (None, None) => true,
        _ => false,
    }
}

impl Label {
    pub fn new(now: Instant) -> (l: Self)
        ensures
            l@ == silent(now),
    {
        Label { hovered: None, flash: None, shown: None, previous: None, started: now }
    }

    /// Names the button at `index`, or nothing at all, and says whether that
    /// moved the label.
    pub fn set_hover(&mut self, index: Option<usize>, now: Instant) -> (changed: bool)
        requires
            index matches Some(i) ==> i < BUTTON_COUNT,
        ensures
            ({
                let l = LabelView { hovered: name_at(index), ..old(self)@ };
                &&& final(self)@ == pointed(l, now)
                &&& changed == (wanted(l, now) != l.shown)
            }),
    {
        self.hovered = match index {
            Some(i) => Some(button(i).name),
            None => None,
        };
        self.resolve(now)
    }

    /// Acknowledges something that just happened. It outranks the hover for as
    /// long as it holds.
    pub fn flash(&mut self, text: &'static str, now: Instant) -> (changed: bool)
        requires
            now.nanos + COPIED_LINGER_MS * 1_000_000 <= u64::MAX,
        ensures
            ({
                let until = Instant { nanos: (now.nanos + COPIED_LINGER_MS * 1_000_000) as u64 };
                let l = LabelView { flash: Some((text@, until)), ..old(self)@ };
                &&& final(self)@ == pointed(l, now)
                &&& changed == (wanted(l, now) != l.shown)
            }),
    {
        self.flash = Some((text, now.plus(Duration::from_millis(COPIED_LINGER_MS))));
        self.resolve(now)
    }

    /// Retires an expired acknowledgement.
    pub fn tick(&mut self, now: Instant) -> (changed: bool)
        ensures
            final(self)@ == pointed(old(self)@, now),
            changed == (wanted(old(self)@, now) != old(self)@.shown),
    {
        self.resolve(now)
    }

    /// Takes the label away: no hover, no acknowledgement, fading out from
    /// whatever it was showing.
    pub fn dismiss(&mut self, now: Instant) -> (changed: bool)
        ensures
            ({
                let l = LabelView { hovered: None, flash: None, ..old(self)@ };
                &&& final(self)@ == pointed(l, now)
                &&& changed == (l.shown is Some)
            }),
    {
        self.hovered = None;
        self.flash = None;
        self.resolve(now)
    }

    /// Wipes it, crossfade and all.
    pub fn reset(&mut self, now: Instant)
        ensures
            final(self)@ == silent(now),
    {
        *self = Label::new(now);
    }

    /// Points the label at what it should say, and says whether that changed it.
    fn resolve(&mut self, now: Instant) -> (changed: bool)
        ensures
            final(self)@ == pointed(old(self)@, now),
            changed == (wanted(old(self)@, now) != old(self)@.shown),
    {
        let want = match self.flash {
            Some((text, until)) if now.nanos < until.nanos => Some(text),
            _ => self.hovered,
        };
        assert(shown_text(want) == wanted(self@, now));
        if same_text(want, self.shown) {
            return false;
        }
        self.previous = self.shown;
        self.shown = want;
        self.started = now;
        true
    }

    /// This frame's crossfade.
    pub fn at(&self, now: Instant) -> (f: Fade)
        ensures
            shown_text(f.from) == self@.previous,
            shown_text(f.to) == self@.shown,
            f.t == crossfade(self@, now),
            f.t <= WHOLE,
    {
        Fade {
            from: self.previous,
            to: self.shown,
            t: share_of(
                now.saturating_duration_since(self.started),
                Duration::from_millis(LABEL_FADE_MS),
            ),
        }
    }

    /// Whether the crossfade still has frames to draw. A held acknowledgement is
    /// a still image and has none.
    pub fn is_running(&self, now: Instant) -> (r: bool)
        ensures
            r == (self@.previous != self@.shown && clock::elapsed(self@.started, now)
                < LABEL_FADE_MS * 1_000_000),
    {
        !same_text(self.previous, self.shown) && now.saturating_duration_since(
            self.started,
        ).nanos < LABEL_FADE_MS * 1_000_000
    }
}

/// An acknowledgement outranks the hover while it holds, wherever the cursor
/// goes, and the hover underneath surfaces when it expires.
pub proof fn law_a_flash_outranks_the_hover(
    l: LabelView,
    text: Seq<char>,
    until: Instant,
    index: Option<usize>,
    now: Instant,
)
    requires
        l.flash == Some((text, until)),
    ensures
        ({
            let moved = LabelView { hovered: name_at(index), ..l };
            &&& now.nanos < until.nanos ==> pointed(moved, now).shown == Some(text)
            &&& now.nanos >= until.nanos ==> pointed(moved, now).shown == name_at(index)
        }),
{
}

/// The label always ends up heading for what it should say, and doing it again
/// changes nothing: a fade that is running is not restarted.
pub proof fn law_pointing_is_idempotent(l: LabelView, now: Instant)
    ensures
        pointed(l, now).shown == wanted(l, now),
        pointed(pointed(l, now), now) == pointed(l, now),
{
}

/// While one text changes into another their lights add up to one.
pub proof fn law_crossfades_add_up(t: int)
    ensures
        lights(true, true, t).0 + lights(true, true, t).1 == WHOLE,
{
}

/// The text that goes has the light that the one that comes has not got yet; a text that is
/// not there has none. Nothing at the start and the whole at the end, also past it.
pub proof fn law_how_light_is_shared(from: bool, to: bool, t: int)
    requires
        0 <= t,
    ensures
        t <= 1_000_000_000 ==> lights(from, true, t).1 == t,
        t <= 1_000_000_000 ==> lights(true, to, t).0 == 1_000_000_000 - t,
        t > 1_000_000_000 ==> lights(from, true, t).1 == 1_000_000_000,
        t > 1_000_000_000 ==> lights(true, to, t).0 == 0,
        lights(false, to, t).0 == 0,
        lights(from, false, t).1 == 0,
{
}

/// A label that has something else to say starts a fade at that moment, from what it was
/// heading for. One that has not is left as it is.
pub proof fn law_a_new_text_starts_a_fade(l: LabelView, now: Instant)
    ensures
        wanted(l, now) != l.shown ==> {
            &&& pointed(l, now).previous == l.shown
            &&& pointed(l, now).shown == wanted(l, now)
            &&& pointed(l, now).started == now
            &&& pointed(l, now).hovered == l.hovered
            &&& pointed(l, now).flash == l.flash
        },
        wanted(l, now) == l.shown ==> pointed(l, now) == l,
{
}

/// With nothing to acknowledge the label says what is under the cursor, and nothing where
/// nothing is.
pub proof fn law_without_a_flash_the_hover_counts(l: LabelView, now: Instant)
    requires
        l.flash is None,
    ensures
        wanted(l, now) == l.hovered,
        silent(now).hovered is None && silent(now).flash is None && silent(now).shown is None,
{
}

/// A crossfade takes a hundred and ten milliseconds.
pub proof fn law_how_long_a_crossfade_takes(l: LabelView, now: Instant)
    ensures
        crossfade(l, now) == WHOLE <==> clock::elapsed(l.started, now) >= 110_000_000,
        now == l.started ==> crossfade(l, now) == 0,
{
    clock::law_shares_run_forward(0, clock::elapsed(l.started, now), 110_000_000);
}

/// An acknowledgement holds for a second, and says that something was copied.
pub proof fn law_how_long_an_acknowledgement_holds()
    ensures
        COPIED_LINGER_MS * 1_000_000 == 1_000_000_000,
        COPIED@ == "Copied"@,
{
}

} // verus!
