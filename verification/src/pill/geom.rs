//! The pill's motion: every mode is one interpolable [`Geom`], and every
//! transition mixes two of them, off a start time and an [`Ease`].
//!
//! Sizes are thousandths of a logical pixel, colour alphas thousandths of their
//! 0 to 255, and the opacities of the bar row and the buttons thousandths of one. Shares of a transition are counted in billionths.
use crate::clock;
use crate::clock::{share_of, Duration, Instant, WHOLE};
use crate::pill::bar;
use crate::pill::bar::{button, BAR_H, BUTTON_COUNT, CENTRE};
use crate::pill::state::{Origin, PillMode, HANDOFF_MS};
use vstd::prelude::*;

verus! {

/// One logical pixel, one step of alpha, or a full opacity.
pub const UNIT: i32 = 1000;

/// The resting silhouette, in whole pixels.
pub const NUB_W: i32 = 36;

pub const NUB_H: i32 = 10;

pub const NUB_RADIUS: i32 = 5;

/// The session pill, in whole pixels.
pub const SESSION_W: i32 = 62;

pub const SESSION_H: i32 = 28;

/// How wide the pill of a session is that was begun with the mouse: it has room for
/// cancel and confirm.
pub const CLICK_W: i32 = 112;

/// The session pill's corner radius: eighteen forty-seconds of its shorter side.
pub const SESSION_RADIUS: i32 = 12;

/// The nub's fill: a marker rather than a surface.
pub const NUB_FILL_A: i32 = 140;

/// The session pill's fill.
pub const PILL_FILL_A: i32 = 245;

/// The hairline that the pill is found by.
pub const HAIRLINE_A: i32 = 120;

/// The edge of a flash.
pub const FLASH_BORDER_A: i32 = 235;

/// The edge while a worker runs, at the top of its breath.
pub const PROCESSING_BORDER_A: i32 = 220;

/// The bar row's opacity once it is only being held, in thousandths.
pub const PROCESSING_BARS: i32 = 450;

/// How long the transitions run, in milliseconds.
pub const REVEAL_MS: u64 = 140;

pub const CONCEAL_MS: u64 = 120;

pub const TO_RECORDING_MS: u64 = 90;

pub const TO_IDLE_MS: u64 = 160;

pub const HOVER_IN_MS: u64 = 110;

pub const HOVER_OUT_MS: u64 = 90;

pub const HOVER_FADE_MS: u64 = 90;

/// `x` divided by `d`, rounded to the nearest, halves up.
pub open spec fn nearest(x: int, d: int) -> int {
    (2 * x + d) / (2 * d)
}

/// `a` moved by the share `s` of the way to `b`, rounded to the nearest.
pub open spec fn mixed(a: int, b: int, s: int) -> int {
    a + nearest((b - a) * s, WHOLE as int)
}

proof fn lemma_mixed(a: int, b: int, s: int)
    requires
        0 <= s <= WHOLE,
    ensures
        a <= b ==> a <= mixed(a, b, s) <= b,
        b <= a ==> b <= mixed(a, b, s) <= a,
        mixed(a, b, 0) == a,
        mixed(a, b, WHOLE as int) == b,
{
    let d = b - a;
    let x = d * s;
    assert(d * 0 == 0) by (nonlinear_arith);
    assert(a <= b ==> 0 <= x && x <= d * WHOLE) by (nonlinear_arith)
        requires
            0 <= s <= WHOLE,
            d == b - a,
            x == d * s,
    ;
    assert(b <= a ==> d * WHOLE <= x && x <= 0) by (nonlinear_arith)
        requires
            0 <= s <= WHOLE,
            d == b - a,
            x == d * s,
    ;
    let q = nearest(x, WHOLE as int);
    assert(q == (2 * x + 1_000_000_000) / 2_000_000_000);
    assert(a <= b ==> x <= 1_000_000_000 * d);
    assert(b <= a ==> 1_000_000_000 * d <= x);
}

/// Mixing starts at one end, arrives at the other, never leaves the two and
/// never doubles back.
pub proof fn law_mixing_stays_between(a: int, b: int, s: int, later: int)
    requires
        0 <= s <= later <= WHOLE,
    ensures
        mixed(a, b, 0) == a,
        mixed(a, b, WHOLE as int) == b,
        a <= b ==> a <= mixed(a, b, s) <= mixed(a, b, later) <= b,
        b <= a ==> b <= mixed(a, b, later) <= mixed(a, b, s) <= a,
{
    lemma_mixed(a, b, s);
    lemma_mixed(a, b, later);
    let d = b - a;
    assert(a <= b ==> d * s <= d * later) by (nonlinear_arith)
        requires
            s <= later,
            d == b - a,
    ;
    assert(b <= a ==> d * later <= d * s) by (nonlinear_arith)
        requires
            s <= later,
            d == b - a,
    ;
}

fn mix(a: i32, b: i32, s: u64) -> (r: i32)
    requires
        s <= WHOLE,
    ensures
        r == mixed(a as int, b as int, s as int),
{
    let d: i128 = b as i128 - a as i128;
    proof {
        assert(-0x1_0000_0000 * 1_000_000_000 <= d * s <= 0x1_0000_0000 * 1_000_000_000)
            by (nonlinear_arith)
            requires
                -0x1_0000_0000 <= d <= 0x1_0000_0000,
                0 <= s <= 1_000_000_000,
        ;
        lemma_mixed(a as int, b as int, s as int);
    }
    let part: i128 = d * s as i128;
    let doubled: i128 = 2 * part + WHOLE as i128;
    let whole: i128 = 2 * WHOLE as i128;
    let step: i128 = if doubled >= 0 {
        doubled / whole
    } else {
        -((whole - 1 - doubled) / whole)
    };
    assert(step == nearest((b - a) * s, WHOLE as int));
    (a as i128 + step) as i32
}

/// A colour.
#[derive(Clone, Copy, PartialEq, Eq, Debug, Structural)]
pub struct Rgb(pub u8, pub u8, pub u8);

impl Rgb {
    /// This colour moved by the share `s` of the way to `to`, channel by channel.
    pub open spec fn toward(self, to: Rgb, s: int) -> Rgb {
        Rgb(
            mixed(self.0 as int, to.0 as int, s) as u8,
            mixed(self.1 as int, to.1 as int, s) as u8,
            mixed(self.2 as int, to.2 as int, s) as u8,
        )
    }

    fn lerp(self, to: Rgb, s: u64) -> (r: Rgb)
        requires
            s <= WHOLE,
        ensures
            r == self.toward(to, s as int),
    {
        proof {
            lemma_mixed(self.0 as int, to.0 as int, s as int);
            lemma_mixed(self.1 as int, to.1 as int, s as int);
            lemma_mixed(self.2 as int, to.2 as int, s as int);
        }
        Rgb(
            mix(self.0 as i32, to.0 as i32, s) as u8,
            mix(self.1 as i32, to.1 as i32, s) as u8,
            mix(self.2 as i32, to.2 as i32, s) as u8,
        )
    }
}

/// Everything about how the pill looks, as numbers that can be mixed.
#[derive(Clone, Copy, PartialEq, Eq, Debug, Structural)]
pub struct Geom {
    pub w: i32,
    pub h: i32,
    pub radius: i32,
    pub fill: Rgb,
    pub fill_a: i32,
    pub border: Rgb,
    pub border_a: i32,
    pub border_w: i32,
    /// The bar row's opacity; the nub has no row.
    pub bars: i32,
    /// The buttons' opacity, and how far they have unfolded.
    pub buttons: i32,
    /// The opacity of cancel and confirm, which a session begun with the mouse has.
    pub check: i32,
}

/// The nub.
pub open spec fn nub() -> Geom {
    Geom {
        w: (NUB_W * UNIT) as i32,
        h: (NUB_H * UNIT) as i32,
        radius: (NUB_RADIUS * UNIT) as i32,
        fill: Rgb(13, 13, 13),
        fill_a: (NUB_FILL_A * UNIT) as i32,
        border: Rgb(220, 224, 232),
        border_a: (HAIRLINE_A * UNIT) as i32,
        border_w: UNIT,
        bars: 0,
        buttons: 0,
        check: 0,
    }
}

/// The shape that every mode of a session shares.
pub open spec fn session_shape() -> Geom {
    Geom {
        w: (SESSION_W * UNIT) as i32,
        h: (SESSION_H * UNIT) as i32,
        radius: (SESSION_RADIUS * UNIT) as i32,
        fill_a: (PILL_FILL_A * UNIT) as i32,
        bars: UNIT,
        ..nub()
    }
}

/// This shape with nothing of it drawn.
pub open spec fn blank(g: Geom) -> Geom {
    Geom { fill_a: 0, border_a: 0, bars: 0, buttons: 0, check: 0, ..g }
}

/// How a mode looks at rest.
pub open spec fn resting(mode: PillMode) -> Geom {
    match mode {
        PillMode::Hidden => Geom { fill_a: 0, border_a: 0, ..nub() },
        PillMode::Idle => nub(),
        PillMode::Expanded => Geom {
            w: (bar::width_of(CENTRE as int) * UNIT) as i32,
            h: (BAR_H * UNIT) as i32,
            radius: (BAR_H * UNIT / 2) as i32,
            fill_a: (PILL_FILL_A * UNIT) as i32,
            buttons: UNIT,
            ..nub()
        },
        PillMode::Recording { origin } => if origin == Origin::Click {
            Geom { w: (CLICK_W * UNIT) as i32, check: UNIT, ..session_shape() }
        } else {
            session_shape()
        },
        PillMode::Processing { .. } => Geom {
            border: Rgb(190, 192, 200),
            border_a: (PROCESSING_BORDER_A * UNIT) as i32,
            bars: PROCESSING_BARS,
            ..session_shape()
        },
        PillMode::Done { ok, .. } => Geom {
            border: if ok {
                Rgb(74, 188, 120)
            } else {
                Rgb(214, 96, 96)
            },
            border_a: (FLASH_BORDER_A * UNIT) as i32,
            bars: PROCESSING_BARS,
            ..session_shape()
        },
    }
}

impl Geom {
    /// How `mode` looks at rest.
    pub fn of(mode: PillMode) -> (g: Self)
        ensures
            g == resting(mode),
    {
        let nub = Geom {
            w: NUB_W * UNIT,
            h: NUB_H * UNIT,
            radius: NUB_RADIUS * UNIT,
            fill: Rgb(13, 13, 13),
            fill_a: NUB_FILL_A * UNIT,
            border: Rgb(220, 224, 232),
            border_a: HAIRLINE_A * UNIT,
            border_w: UNIT,
            bars: 0,
            buttons: 0,
            check: 0,
        };
        match mode {
            PillMode::Hidden => Geom { fill_a: 0, border_a: 0, ..nub },
            PillMode::Idle => nub,
            PillMode::Expanded => {
                let dictate = button(CENTRE);
                Geom {
                    w: dictate.w * UNIT,
                    h: BAR_H * UNIT,
                    radius: BAR_H * UNIT / 2,
                    fill_a: PILL_FILL_A * UNIT,
                    buttons: UNIT,
                    ..nub
                }
            },
            PillMode::Recording { origin } => match origin {
                Origin::Click => Geom { w: CLICK_W * UNIT, check: UNIT, ..Geom::session() },
                Origin::Hotkey => Geom::session(),
            },
            PillMode::Processing { .. } => Geom {
                border: Rgb(190, 192, 200),
                border_a: PROCESSING_BORDER_A * UNIT,
                bars: PROCESSING_BARS,
                ..Geom::session()
            },
            PillMode::Done { ok, .. } => Geom {
                border: if ok {
                    Rgb(74, 188, 120)
                } else {
                    Rgb(214, 96, 96)
                },
                border_a: FLASH_BORDER_A * UNIT,
                bars: PROCESSING_BARS,
                ..Geom::session()
            },
        }
    }

    /// The full-size pill with a bar row, wearing the bare hairline.
    fn session() -> (g: Self)
        ensures
            g == session_shape(),
    {
        Geom {
            w: SESSION_W * UNIT,
            h: SESSION_H * UNIT,
            radius: SESSION_RADIUS * UNIT,
            fill: Rgb(13, 13, 13),
            fill_a: PILL_FILL_A * UNIT,
            border: Rgb(220, 224, 232),
            border_a: HAIRLINE_A * UNIT,
            border_w: UNIT,
            bars: UNIT,
            buttons: 0,
            check: 0,
        }
    }

    /// This shape with nothing of it drawn: what a conceal aims at.
    fn blanked(self) -> (g: Self)
        ensures
            g == blank(self),
    {
        Geom { fill_a: 0, border_a: 0, bars: 0, buttons: 0, check: 0, ..self }
    }

    /// This look moved by the share `s` of the way to `to`.
    pub open spec fn toward(self, to: Geom, s: int) -> Geom {
        Geom {
            w: mixed(self.w as int, to.w as int, s) as i32,
            h: mixed(self.h as int, to.h as int, s) as i32,
            radius: mixed(self.radius as int, to.radius as int, s) as i32,
            fill: self.fill.toward(to.fill, s),
            fill_a: mixed(self.fill_a as int, to.fill_a as int, s) as i32,
            border: self.border.toward(to.border, s),
            border_a: mixed(self.border_a as int, to.border_a as int, s) as i32,
            border_w: mixed(self.border_w as int, to.border_w as int, s) as i32,
            bars: mixed(self.bars as int, to.bars as int, s) as i32,
            buttons: mixed(self.buttons as int, to.buttons as int, s) as i32,
            check: mixed(self.check as int, to.check as int, s) as i32,
        }
    }

    /// This look moved by the share `s` of the way to `to`.
    pub fn lerp(self, to: Geom, s: u64) -> (g: Geom)
        requires
            s <= WHOLE,
        ensures
            g == self.toward(to, s as int),
    {
        Geom {
            w: mix(self.w, to.w, s),
            h: mix(self.h, to.h, s),
            radius: mix(self.radius, to.radius, s),
            fill: self.fill.lerp(to.fill, s),
            fill_a: mix(self.fill_a, to.fill_a, s),
            border: self.border.lerp(to.border, s),
            border_a: mix(self.border_a, to.border_a, s),
            border_w: mix(self.border_w, to.border_w, s),
            bars: mix(self.bars, to.bars, s),
            buttons: mix(self.buttons, to.buttons, s),
            check: mix(self.check, to.check, s),
        }
    }
}

/// How a transition's progress is shaped over its duration. Nothing overshoots.
#[derive(Clone, Copy, PartialEq, Eq, Debug, Structural)]
pub enum Ease {
    Linear,
    OutCubic,
}

/// `t` brought into the range from nothing to the whole.
pub open spec fn clamped(t: int) -> int {
    if t < 0 {
        0
    } else if t > WHOLE {
        WHOLE as int
    } else {
        t
    }
}

/// The share of the way that is covered at the share `t` of the time. Out-cubic
/// leaves the third power of what is left of the time.
pub open spec fn eased(ease: Ease, t: int) -> int {
    let c = clamped(t);
    match ease {
        Ease::Linear => c,
        Ease::OutCubic => WHOLE - (WHOLE - c) * (WHOLE - c) * (WHOLE - c) / (WHOLE * WHOLE),
    }
}

proof fn lemma_cube(u: int)
    requires
        0 <= u <= WHOLE,
    ensures
        0 <= u * u * u <= WHOLE * WHOLE * WHOLE,
        0 <= u * u * u / (WHOLE * WHOLE) <= u,
        WHOLE * WHOLE == 1_000_000_000_000_000_000,
{
    assert(u * u <= WHOLE * WHOLE) by (nonlinear_arith)
        requires
            0 <= u <= WHOLE,
    ;
    assert(0 <= u * u * u <= WHOLE * WHOLE * u) by (nonlinear_arith)
        requires
            0 <= u,
            u * u <= WHOLE * WHOLE,
    ;
    assert(WHOLE * WHOLE * u <= WHOLE * WHOLE * WHOLE) by (nonlinear_arith)
        requires
            0 <= u <= WHOLE,
    ;
    let d = WHOLE * WHOLE;
    assert(d == 1_000_000_000_000_000_000) by (nonlinear_arith)
        requires
            d == WHOLE * WHOLE,
            WHOLE == 1_000_000_000,
    ;
    vstd::arithmetic::div_mod::lemma_div_pos_is_pos(u * u * u, d);
    vstd::arithmetic::div_mod::lemma_div_is_ordered(u * u * u, d * u, d);
    assert(d * u == u * d) by (nonlinear_arith);
    vstd::arithmetic::div_mod::lemma_div_multiples_vanish(u, d);
}

impl Ease {
    /// The share of the way that is covered at the share `t` of the time, which
    /// may lie outside of it.
    pub fn apply(self, t: i64) -> (s: u64)
        ensures
            s == eased(self, t as int),
            s <= WHOLE,
    {
        let c: u64 = if t < 0 {
            0
        } else if t as u64 > WHOLE {
            WHOLE
        } else {
            t as u64
        };
        match self {
            Ease::Linear => c,
            Ease::OutCubic => {
                let u: u128 = (WHOLE - c) as u128;
                proof {
                    lemma_cube(u as int);
                    assert(u * u <= u * u * u || u == 0) by (nonlinear_arith)
                        requires
                            0 <= u,
                    ;
                    assert(0 <= u * u) by (nonlinear_arith)
                        requires
                            0 <= u,
                    ;
                    assert(WHOLE * WHOLE * WHOLE <= u128::MAX) by (nonlinear_arith)
                        requires
                            WHOLE == 1_000_000_000,
                    ;
                }
                let left: u128 = u * u * u / 1_000_000_000_000_000_000;
                WHOLE - left as u64
            },
        }
    }
}

/// No easing overshoots or doubles back, and each one starts at nothing and
/// arrives at the whole.
pub proof fn law_no_easing_overshoots(ease: Ease, t: int, later: int)
    requires
        t <= later,
    ensures
        0 <= eased(ease, t) <= eased(ease, later) <= WHOLE,
        eased(ease, 0) == 0,
        eased(ease, WHOLE as int) == WHOLE,
{
    let u = WHOLE - clamped(t);
    let v = WHOLE - clamped(later);
    lemma_cube(u);
    lemma_cube(v);
    lemma_cube(WHOLE as int);
    lemma_cube(0);
    assert(v * v * v <= u * u * u) by (nonlinear_arith)
        requires
            0 <= v <= u,
    ;
    vstd::arithmetic::div_mod::lemma_div_is_ordered(v * v * v, u * u * u, WHOLE * WHOLE);
    let w = WHOLE as int;
    assert(w * w * w == w * (w * w)) by (nonlinear_arith);
    vstd::arithmetic::div_mod::lemma_div_multiples_vanish(w, w * w);
    assert(0int * 0 * 0 == 0) by (nonlinear_arith);
    vstd::arithmetic::div_mod::lemma_div_basics(w * w);
}

/// Out-cubic covers the way early: it is never behind linear.
pub proof fn law_out_cubic_front_loads(t: int)
    ensures
        eased(Ease::OutCubic, t) >= eased(Ease::Linear, t),
{
    lemma_cube(WHOLE - clamped(t));
}

/// One transition: how long it runs and how it is shaped. A span of no length
/// is a snap.
#[derive(Clone, Copy, PartialEq, Eq, Debug, Structural)]
pub struct Tween {
    pub dur: Duration,
    pub ease: Ease,
}

/// A transition that is over at once.
pub open spec fn snap() -> Tween {
    Tween { dur: Duration { nanos: 0 }, ease: Ease::Linear }
}

/// A transition of `ms` milliseconds that covers most of the way early.
pub open spec fn out_cubic(ms: u64) -> Tween {
    Tween { dur: Duration { nanos: (ms * 1_000_000) as u64 }, ease: Ease::OutCubic }
}

/// The handoff: linear, over the time in which the waveform drains.
pub open spec fn handoff() -> Tween {
    Tween { dur: Duration { nanos: (HANDOFF_MS * 1_000_000) as u64 }, ease: Ease::Linear }
}

impl Tween {
    /// A transition that is over at once.
    pub fn snap() -> (t: Tween)
        ensures
            t == snap(),
    {
        Tween { dur: Duration { nanos: 0 }, ease: Ease::Linear }
    }

    /// A transition of `ms` milliseconds that covers most of the way early.
    pub fn out_cubic(ms: u64) -> (t: Tween)
        requires
            ms * 1_000_000 <= u64::MAX,
        ensures
            t == out_cubic(ms),
    {
        Tween { dur: Duration::from_millis(ms), ease: Ease::OutCubic }
    }

    /// The handoff from recording to processing.
    pub fn handoff() -> (t: Tween)
        ensures
            t == handoff(),
    {
        Tween { dur: Duration::from_millis(HANDOFF_MS), ease: Ease::Linear }
    }
}

/// The transition from `from` to `to`.
pub open spec fn transition_of(from: PillMode, to: PillMode) -> Tween {
    match (from, to) {
        (PillMode::Hidden, PillMode::Recording { .. }) => snap(),
        (PillMode::Hidden, _) => out_cubic(REVEAL_MS),
        (_, PillMode::Hidden) => out_cubic(CONCEAL_MS),
        (_, PillMode::Recording { .. }) => out_cubic(TO_RECORDING_MS),
        (PillMode::Recording { .. }, PillMode::Processing { .. }) => handoff(),
        (PillMode::Idle, PillMode::Expanded) => out_cubic(HOVER_IN_MS),
        (PillMode::Expanded, PillMode::Idle) => out_cubic(HOVER_OUT_MS),
        (_, PillMode::Idle) => out_cubic(TO_IDLE_MS),
        _ => snap(),
    }
}

/// The transition from `from` to `to`. A recording that begins out of nothing
/// appears at once, and an outcome is never delayed.
pub fn transition(from: PillMode, to: PillMode) -> (t: Tween)
    ensures
        t == transition_of(from, to),
{
    match (from, to) {
        (PillMode::Hidden, PillMode::Recording { .. }) => Tween::snap(),
        (PillMode::Hidden, _) => Tween::out_cubic(REVEAL_MS),
        (_, PillMode::Hidden) => Tween::out_cubic(CONCEAL_MS),
        (_, PillMode::Recording { .. }) => Tween::out_cubic(TO_RECORDING_MS),
        (PillMode::Recording { .. }, PillMode::Processing { .. }) => Tween::handoff(),
        (PillMode::Processing { .. }, PillMode::Done { .. }) => Tween::snap(),
        (PillMode::Idle, PillMode::Expanded) => Tween::out_cubic(HOVER_IN_MS),
        (PillMode::Expanded, PillMode::Idle) => Tween::out_cubic(HOVER_OUT_MS),
        (_, PillMode::Idle) => Tween::out_cubic(TO_IDLE_MS),
        _ => Tween::snap(),
    }
}

/// The edge of a look at the share `pulse` of a breath: between half of it and all
/// of it, and never below the hairline.
pub open spec fn breath(border_a: int, pulse: int) -> int {
    let edge = nearest(border_a * (WHOLE + pulse), 2 * WHOLE);
    if edge < HAIRLINE_A * UNIT {
        HAIRLINE_A * UNIT
    } else {
        edge
    }
}

/// A look with its edge at the share `pulse` of a breath, on top of whatever
/// transition it is in.
pub fn breathe(geom: Geom, pulse: u64) -> (g: Geom)
    requires
        pulse <= WHOLE,
    ensures
        g == (Geom { border_a: breath(geom.border_a as int, pulse as int) as i32, ..geom }),
        g.border_a == breath(geom.border_a as int, pulse as int),
{
    let a: i128 = geom.border_a as i128;
    let share: i128 = WHOLE as i128 + pulse as i128;
    proof {
        assert(-0x8000_0000 * 2_000_000_000 <= a * share <= 0x8000_0000 * 2_000_000_000)
            by (nonlinear_arith)
            requires
                -0x8000_0000 <= a < 0x8000_0000,
                0 <= share <= 2_000_000_000,
        ;
        assert(a >= 0 ==> 0 <= a * share <= 2_000_000_000 * a) by (nonlinear_arith)
            requires
                0 <= share <= 2_000_000_000,
        ;
    }
    let part: i128 = a * share;
    let edge: i128 = if part >= 0 {
        (2 * part + 2 * WHOLE as i128) / (4 * WHOLE as i128)
    } else {
        0
    };
    let hairline: i128 = (HAIRLINE_A * UNIT) as i128;
    proof {
        assert(a < 0 ==> part <= 0) by (nonlinear_arith)
            requires
                part == a * share,
                0 <= share,
        ;
        assert(part >= 0 ==> edge == nearest(part as int, 2 * WHOLE));
        assert(part < 0 ==> nearest(part as int, 2 * WHOLE) <= 0);
    }
    Geom {
        border_a: if edge < hairline {
            hairline as i32
        } else {
            edge as i32
        },
        ..geom
    }
}

/// A breath never dims the edge below the hairline, nor brightens it past where it
/// was.
pub proof fn law_a_breath_keeps_the_hairline(border_a: int, pulse: int)
    requires
        0 <= pulse <= WHOLE,
        border_a >= HAIRLINE_A * UNIT,
    ensures
        HAIRLINE_A * UNIT <= breath(border_a, pulse) <= border_a,
        breath(border_a, WHOLE as int) == border_a,
{
    assert(border_a * (WHOLE + pulse) <= 2_000_000_000 * border_a) by (nonlinear_arith)
        requires
            0 <= pulse <= WHOLE,
            WHOLE == 1_000_000_000,
            border_a >= 0,
    ;
    assert(border_a * (WHOLE + WHOLE) == 2_000_000_000 * border_a) by (nonlinear_arith)
        requires
            WHOLE == 1_000_000_000,
    ;
}

/// A transition in flight.
#[derive(Clone, Copy, Debug, PartialEq, Eq, Structural)]
pub struct Motion {
    pub from: Geom,
    pub to: Geom,
    pub tween: Tween,
    pub started: Instant,
}

/// A transition from a look to a mode. A conceal fades what is on screen without
/// reshaping it.
pub open spec fn motion_to(from: Geom, to: PillMode, tween: Tween, now: Instant) -> Motion {
    Motion {
        from,
        to: if to == PillMode::Hidden {
            blank(from)
        } else {
            resting(to)
        },
        tween,
        started: now,
    }
}

/// The look of a transition at `now`.
pub open spec fn frame(m: Motion, now: Instant) -> Geom {
    m.from.toward(
        m.to,
        eased(
            m.tween.ease,
            clock::share(clock::elapsed(m.started, now), m.tween.dur.nanos as int),
        ),
    )
}

impl Motion {
    /// Starts a transition from wherever the pill currently looks.
    pub fn start(from: Geom, to: PillMode, tween: Tween, now: Instant) -> (m: Self)
        ensures
            m == motion_to(from, to, tween, now),
    {
        let to = match to {
            PillMode::Hidden => from.blanked(),
            visible => Geom::of(visible),
        };
        Motion { from, to, tween, started: now }
    }

    /// A pill resting at `mode`, with nothing running.
    pub fn settled(mode: PillMode, now: Instant) -> (m: Self)
        ensures
            m == (Motion { from: resting(mode), to: resting(mode), tween: snap(), started: now }),
    {
        Motion { from: Geom::of(mode), to: Geom::of(mode), tween: Tween::snap(), started: now }
    }

    /// This frame's look.
    pub fn at(&self, now: Instant) -> (g: Geom)
        ensures
            g == frame(*self, now),
    {
        let t: u64 = share_of(now.saturating_duration_since(self.started), self.tween.dur);
        self.from.lerp(self.to, self.tween.ease.apply(t as i64))
    }

    /// Whether the transition still has frames left to draw.
    pub fn is_running(&self, now: Instant) -> (r: bool)
        ensures
            r == (clock::elapsed(self.started, now) < self.tween.dur.nanos),
    {
        now.saturating_duration_since(self.started).nanos < self.tween.dur.nanos
    }
}

proof fn lemma_arrived(from: Geom, to: Geom)
    ensures
        from.toward(to, WHOLE as int) == to,
        from.toward(to, 0) == from,
{
    lemma_mixed(from.w as int, to.w as int, 0);
    lemma_mixed(from.h as int, to.h as int, 0);
    lemma_mixed(from.radius as int, to.radius as int, 0);
    lemma_mixed(from.fill_a as int, to.fill_a as int, 0);
    lemma_mixed(from.border_a as int, to.border_a as int, 0);
    lemma_mixed(from.border_w as int, to.border_w as int, 0);
    lemma_mixed(from.bars as int, to.bars as int, 0);
    lemma_mixed(from.buttons as int, to.buttons as int, 0);
    lemma_mixed(from.check as int, to.check as int, 0);
    lemma_mixed(from.fill.0 as int, to.fill.0 as int, 0);
    lemma_mixed(from.fill.1 as int, to.fill.1 as int, 0);
    lemma_mixed(from.fill.2 as int, to.fill.2 as int, 0);
    lemma_mixed(from.border.0 as int, to.border.0 as int, 0);
    lemma_mixed(from.border.1 as int, to.border.1 as int, 0);
    lemma_mixed(from.border.2 as int, to.border.2 as int, 0);
}

/// A transition that is over holds its target, for good.
pub proof fn law_a_motion_holds_its_target(m: Motion, now: Instant)
    requires
        clock::elapsed(m.started, now) >= m.tween.dur.nanos,
    ensures
        frame(m, now) == m.to,
{
    law_no_easing_overshoots(m.tween.ease, 0, 0);
    lemma_arrived(m.from, m.to);
}

/// A transition that takes any time at all begins with the look it set out from:
/// one that interrupts another continues from what is on screen.
pub proof fn law_a_motion_continues_from_what_is_on_screen(
    m: Motion,
    to: PillMode,
    tween: Tween,
    now: Instant,
)
    requires
        tween.dur.nanos > 0,
    ensures
        frame(motion_to(frame(m, now), to, tween, now), now) == frame(m, now),
{
    let from = frame(m, now);
    let n = motion_to(from, to, tween, now);
    clock::law_shares_run_forward(0, 0, tween.dur.nanos as int);
    law_no_easing_overshoots(tween.ease, 0, 0);
    lemma_arrived(n.from, n.to);
}

/// `x` lies between `a` and `b`, whichever of the two is larger.
pub open spec fn between(a: int, b: int, x: int) -> bool {
    (a <= x <= b) || (b <= x <= a)
}

/// No frame of a transition leaves the two looks it is between: the pill is never
/// smaller than the smaller one, never larger than the larger one, and no light
/// overshoots.
pub proof fn law_a_motion_stays_between_its_ends(m: Motion, now: Instant)
    ensures
        ({
            let (a, b, g) = (m.from, m.to, frame(m, now));
            &&& between(a.w as int, b.w as int, g.w as int)
            &&& between(a.h as int, b.h as int, g.h as int)
            &&& between(a.radius as int, b.radius as int, g.radius as int)
            &&& between(a.fill_a as int, b.fill_a as int, g.fill_a as int)
            &&& between(a.border_a as int, b.border_a as int, g.border_a as int)
            &&& between(a.border_w as int, b.border_w as int, g.border_w as int)
            &&& between(a.bars as int, b.bars as int, g.bars as int)
            &&& between(a.buttons as int, b.buttons as int, g.buttons as int)
            &&& between(a.check as int, b.check as int, g.check as int)
        }),
{
    let t = clock::share(clock::elapsed(m.started, now), m.tween.dur.nanos as int);
    law_no_easing_overshoots(m.tween.ease, t, t);
    let s = eased(m.tween.ease, t);
    let (a, b) = (m.from, m.to);
    lemma_mixed(a.w as int, b.w as int, s);
    lemma_mixed(a.h as int, b.h as int, s);
    lemma_mixed(a.radius as int, b.radius as int, s);
    lemma_mixed(a.fill_a as int, b.fill_a as int, s);
    lemma_mixed(a.border_a as int, b.border_a as int, s);
    lemma_mixed(a.border_w as int, b.border_w as int, s);
    lemma_mixed(a.bars as int, b.bars as int, s);
    lemma_mixed(a.buttons as int, b.buttons as int, s);
    lemma_mixed(a.check as int, b.check as int, s);
}

/// A conceal fades without reshaping what is leaving, and ends with nothing
/// drawn.
pub proof fn law_a_conceal_only_fades(from: Geom, tween: Tween, started: Instant, now: Instant)
    ensures
        ({
            let g = frame(motion_to(from, PillMode::Hidden, tween, started), now);
            &&& (g.w, g.h, g.radius) == (from.w, from.h, from.radius)
            &&& clock::elapsed(started, now) >= tween.dur.nanos ==> g == blank(from)
        }),
{
    let m = motion_to(from, PillMode::Hidden, tween, started);
    let t = clock::share(clock::elapsed(started, now), tween.dur.nanos as int);
    law_no_easing_overshoots(tween.ease, t, t);
    let s = eased(tween.ease, t);
    lemma_mixed(from.w as int, from.w as int, s);
    lemma_mixed(from.h as int, from.h as int, s);
    lemma_mixed(from.radius as int, from.radius as int, s);
    if clock::elapsed(started, now) >= tween.dur.nanos {
        law_a_motion_holds_its_target(m, now);
    }
}

/// No mode is larger than the window it is drawn in, nor higher than the pill's band
/// of it.
pub proof fn law_no_mode_exceeds_the_envelope(mode: PillMode)
    ensures
        resting(mode).w <= crate::pill::ENVELOPE_W * UNIT,
        resting(mode).h <= crate::pill::PILL_BAND_H * UNIT,
        crate::pill::PILL_BAND_H <= crate::pill::ENVELOPE_H,
{
}

/// How lit a button is this frame, and whether it can be pressed.
#[derive(Clone, Copy, PartialEq, Eq, Debug, Structural)]
pub struct Slot {
    /// The indicator's share of full light behind this button, in billionths.
    pub hover: u64,
    pub enabled: bool,
}

impl Default for Slot {
    fn default() -> (s: Self)
        ensures
            s == (Slot { hover: 0, enabled: true }),
    {
        Slot { hover: 0, enabled: true }
    }
}

/// Which button the cursor is on, and the fade between it and the last one.
#[derive(Clone, Copy, Debug)]
pub struct Hover {
    current: Option<usize>,
    previous: Option<usize>,
    started: Instant,
}

/// What a [`Hover`] holds.
pub struct HoverView {
    pub current: Option<usize>,
    pub previous: Option<usize>,
    pub started: Instant,
}

impl View for Hover {
    type V = HoverView;

    closed spec fn view(&self) -> HoverView {
        HoverView { current: self.current, previous: self.previous, started: self.started }
    }
}

/// How far the fade has come at `now`.
pub open spec fn fade(h: HoverView, now: Instant) -> int {
    eased(
        Ease::OutCubic,
        clock::share(clock::elapsed(h.started, now), HOVER_FADE_MS * 1_000_000),
    )
}

/// How lit the button at `i` is: the arriving one comes up over the time in
/// which the leaving one goes down.
pub open spec fn light(h: HoverView, i: usize, now: Instant) -> int {
    if h.current == Some(i) {
        fade(h, now)
    } else if h.previous == Some(i) {
        WHOLE - fade(h, now)
    } else {
        0
    }
}

fn is_index(slot: Option<usize>, i: usize) -> (r: bool)
    ensures
        r == (slot == Some(i)),
{
    match slot {
        Some(k) => k == i,
        None => false,
    }
}

fn same_index(a: Option<usize>, b: Option<usize>) -> (r: bool)
    ensures
        r == (a == b),
{
    match (a, b) {
        (Some(x), Some(y)) => x == y,
        (None, None) => true,
        _ => false,
    }
}

impl Hover {
    pub fn new(now: Instant) -> (h: Self)
        ensures
            h@ == (HoverView { current: None, previous: None, started: now }),
    {
        Hover { current: None, previous: None, started: now }
    }

    /// Points the hover at `index`, and says whether that moved it.
    pub fn set(&mut self, index: Option<usize>, now: Instant) -> (changed: bool)
        ensures
            changed == (index != old(self)@.current),
            final(self)@ == (if index == old(self)@.current {
                old(self)@
            } else {
                HoverView { current: index, previous: old(self)@.current, started: now }
            }),
    {
        if same_index(index, self.current) {
            return false;
        }
        self.previous = self.current;
        self.current = index;
        self.started = now;
        true
    }

    /// This frame's state of every button. `enabled` says which can be pressed.
    pub fn slots(&self, now: Instant, enabled: &Vec<bool>) -> (r: Vec<Slot>)
        requires
            enabled@.len() == BUTTON_COUNT,
        ensures
            r@.len() == BUTTON_COUNT,
            forall|i: usize|
                i < BUTTON_COUNT ==> (#[trigger] r@[i as int]).hover == light(self@, i, now)
                    && r@[i as int].enabled == enabled@[i as int],
    {
        let dur = Duration::from_millis(HOVER_FADE_MS);
        let t: u64 = Ease::OutCubic.apply(
            share_of(now.saturating_duration_since(self.started), dur) as i64,
        );
        let mut out: Vec<Slot> = Vec::new();
        let mut i: usize = 0;
        while i < BUTTON_COUNT
            invariant
                i <= BUTTON_COUNT,
                enabled@.len() == BUTTON_COUNT,
                t == fade(self@, now),
                t <= WHOLE,
                out@.len() == i,
                forall|k: usize|
                    k < i ==> (#[trigger] out@[k as int]).hover == light(self@, k, now)
                        && out@[k as int].enabled == enabled@[k as int],
            decreases BUTTON_COUNT - i,
        {
            let hover: u64 = if is_index(self.current, i) {
                t
            } else if is_index(self.previous, i) {
                WHOLE - t
            } else {
                0
            };
            out.push(Slot { hover, enabled: enabled[i] });
            i += 1;
        }
        out
    }

    /// Whether the fade still has frames to draw.
    pub fn is_running(&self, now: Instant) -> (r: bool)
        ensures
            r == (self@.current != self@.previous && clock::elapsed(self@.started, now)
                < HOVER_FADE_MS * 1_000_000),
    {
        !same_index(self.current, self.previous) && now.saturating_duration_since(
            self.started,
        ).nanos < HOVER_FADE_MS * 1_000_000
    }
}

/// Sliding from one button to another is one crossfade: their lights add up to
/// one throughout, and no other button is lit.
pub proof fn law_hover_crossfades(h: HoverView, from: usize, to: usize, other: usize, now: Instant)
    requires
        h.previous == Some(from),
        h.current == Some(to),
        from != to,
        other != from,
        other != to,
    ensures
        light(h, from, now) + light(h, to, now) == WHOLE,
        light(h, other, now) == 0,
{
}

/// Rounding is to the nearest, halves up.
pub proof fn law_rounding_is_to_the_nearest(x: int, d: int)
    requires
        d > 0,
    ensures
        2 * x - d < 2 * (d * nearest(x, d)) <= 2 * x + d,
{
    let n = 2 * x + d;
    let q = n / (2 * d);
    vstd::arithmetic::div_mod::lemma_fundamental_div_mod(n, 2 * d);
    vstd::arithmetic::div_mod::lemma_mod_bound(n, 2 * d);
    assert(2 * d * q == 2 * (d * q)) by (nonlinear_arith);
}

/// Mixing covers the share of the way that it is asked for, to the nearest step.
pub proof fn law_mixing_covers_its_share(a: int, b: int, s: int)
    ensures
        -1_000_000_000 <= 2 * (1_000_000_000 * (mixed(a, b, s) - a)) - 2 * ((b - a) * s)
            <= 1_000_000_000,
{
    law_rounding_is_to_the_nearest((b - a) * s, 1_000_000_000);
}

/// A colour is mixed channel by channel, and a look field by field, all by the same share.
pub proof fn law_everything_is_mixed_alike(from: Geom, to: Geom, s: int)
    requires
        0 <= s <= WHOLE,
    ensures
        ({
            let g = from.toward(to, s);
            &&& g.w == mixed(from.w as int, to.w as int, s)
            &&& g.h == mixed(from.h as int, to.h as int, s)
            &&& g.radius == mixed(from.radius as int, to.radius as int, s)
            &&& g.fill_a == mixed(from.fill_a as int, to.fill_a as int, s)
            &&& g.border_a == mixed(from.border_a as int, to.border_a as int, s)
            &&& g.border_w == mixed(from.border_w as int, to.border_w as int, s)
            &&& g.bars == mixed(from.bars as int, to.bars as int, s)
            &&& g.buttons == mixed(from.buttons as int, to.buttons as int, s)
            &&& g.check == mixed(from.check as int, to.check as int, s)
            &&& g.fill.0 == mixed(from.fill.0 as int, to.fill.0 as int, s)
            &&& g.fill.1 == mixed(from.fill.1 as int, to.fill.1 as int, s)
            &&& g.fill.2 == mixed(from.fill.2 as int, to.fill.2 as int, s)
            &&& g.border.0 == mixed(from.border.0 as int, to.border.0 as int, s)
            &&& g.border.1 == mixed(from.border.1 as int, to.border.1 as int, s)
            &&& g.border.2 == mixed(from.border.2 as int, to.border.2 as int, s)
        }),
{
    lemma_mixed(from.w as int, to.w as int, s);
    lemma_mixed(from.h as int, to.h as int, s);
    lemma_mixed(from.radius as int, to.radius as int, s);
    lemma_mixed(from.fill_a as int, to.fill_a as int, s);
    lemma_mixed(from.border_a as int, to.border_a as int, s);
    lemma_mixed(from.border_w as int, to.border_w as int, s);
    lemma_mixed(from.bars as int, to.bars as int, s);
    lemma_mixed(from.buttons as int, to.buttons as int, s);
    lemma_mixed(from.check as int, to.check as int, s);
    lemma_mixed(from.fill.0 as int, to.fill.0 as int, s);
    lemma_mixed(from.fill.1 as int, to.fill.1 as int, s);
    lemma_mixed(from.fill.2 as int, to.fill.2 as int, s);
    lemma_mixed(from.border.0 as int, to.border.0 as int, s);
    lemma_mixed(from.border.1 as int, to.border.1 as int, s);
    lemma_mixed(from.border.2 as int, to.border.2 as int, s);
}

/// Linear covers what time covers. Out-cubic leaves the third power of the time that is
/// left, rounded down. Before the start nothing is covered, and past the end everything.
pub proof fn law_what_each_easing_covers(t: int)
    requires
        0 <= t <= 1_000_000_000,
    ensures
        eased(Ease::Linear, t) == t,
        ({
            let left = 1_000_000_000 - t;
            let rest = 1_000_000_000 - eased(Ease::OutCubic, t);
            rest * 1_000_000_000_000_000_000 <= left * left * left < (rest + 1)
                * 1_000_000_000_000_000_000
        }),
        forall|ease: Ease, early: int| early < 0 ==> #[trigger] eased(ease, early) == 0,
        forall|ease: Ease, late: int|
            late > 1_000_000_000 ==> #[trigger] eased(ease, late) == 1_000_000_000,
{
    let u = 1_000_000_000 - t;
    lemma_cube(u);
    let n = u * u * u;
    assert(n / 1_000_000_000_000_000_000 * 1_000_000_000_000_000_000 <= n < (n
        / 1_000_000_000_000_000_000 + 1) * 1_000_000_000_000_000_000);
    assert forall|ease: Ease, early: int| early < 0 implies #[trigger] eased(ease, early) == 0 by {
        law_no_easing_overshoots(ease, 0, 0);
        assert(clamped(early) == clamped(0));
        assert(eased(ease, early) == eased(ease, 0));
    }
    assert forall|ease: Ease, late: int| late > 1_000_000_000 implies #[trigger] eased(ease, late)
        == 1_000_000_000 by {
        law_no_easing_overshoots(ease, 0, 0);
        assert(clamped(late) == clamped(1_000_000_000));
        assert(eased(ease, late) == eased(ease, 1_000_000_000));
    }
}

/// How the pill looks with no session: the nub is 36 by 10 pixels, half as round as it is
/// high, dark, see-through, with a light hairline around it. Hidden it has the same shape
/// and neither fill nor edge. Unfolded it is the middle button of the bar, solid and fully
/// round.
pub proof fn law_how_the_resident_pill_looks()
    ensures
        resting(PillMode::Idle) == (Geom {
            w: 36_000,
            h: 10_000,
            radius: 5_000,
            fill: Rgb(13, 13, 13),
            fill_a: 140_000,
            border: Rgb(220, 224, 232),
            border_a: 120_000,
            border_w: 1_000,
            bars: 0,
            buttons: 0,
            check: 0,
        }),
        resting(PillMode::Hidden) == (Geom { fill_a: 0, border_a: 0, ..resting(PillMode::Idle) }),
        resting(PillMode::Expanded) == (Geom {
            w: 48_000,
            h: 32_000,
            radius: 16_000,
            fill_a: 245_000,
            buttons: 1_000,
            ..resting(PillMode::Idle)
        }),
{
}

/// How a session looks: 62 by 28 pixels with its bars lit, wider by the room for cancel and
/// confirm where the mouse began it. While a worker runs and at the end the bars are dimmed,
/// and the edge is grey, then green or red.
pub proof fn law_how_a_session_looks(since: Instant)
    ensures
        ({
            let hotkey = resting(PillMode::Recording { origin: Origin::Hotkey });
            &&& hotkey == (Geom {
                w: 62_000,
                h: 28_000,
                radius: 12_000,
                fill_a: 245_000,
                bars: 1_000,
                ..resting(PillMode::Idle)
            })
            &&& resting(PillMode::Recording { origin: Origin::Click }) == (Geom {
                w: 112_000,
                check: 1_000,
                ..hotkey
            })
            &&& resting(PillMode::Processing { since }) == (Geom {
                border: Rgb(190, 192, 200),
                border_a: 220_000,
                bars: 450,
                ..hotkey
            })
            &&& resting(PillMode::Done { ok: true, since }) == (Geom {
                border: Rgb(74, 188, 120),
                border_a: 235_000,
                bars: 450,
                ..hotkey
            })
            &&& resting(PillMode::Done { ok: false, since }) == (Geom {
                border: Rgb(214, 96, 96),
                border_a: 235_000,
                bars: 450,
                ..hotkey
            })
        }),
{
}

/// What is blank has its shape and colours and nothing to be seen of them.
pub proof fn law_what_is_blank_keeps_its_shape(g: Geom)
    ensures
        blank(g).w == g.w && blank(g).h == g.h && blank(g).radius == g.radius,
        blank(g).fill == g.fill && blank(g).border == g.border && blank(g).border_w == g.border_w,
        blank(g).fill_a == 0 && blank(g).border_a == 0 && blank(g).bars == 0,
        blank(g).buttons == 0 && blank(g).check == 0,
{
}

/// How long each change of modes takes. A recording out of nothing, an outcome, and
/// whatever has no transition of its own come at once; the waveform drains steadily into
/// the worker's turn; everything else moves early.
pub proof fn law_how_long_each_change_takes(a: PillMode, b: PillMode)
    ensures
        ({
            let t = transition_of(a, b);
            let ms = |n: int| t.dur.nanos == n * 1_000_000 && t.ease == Ease::OutCubic;
            &&& a is Hidden && b is Recording ==> t.dur.nanos == 0
            &&& a is Hidden && !(b is Recording) ==> ms(140)
            &&& !(a is Hidden) && b is Hidden ==> ms(120)
            &&& !(a is Hidden) && b is Recording ==> ms(90)
            &&& a is Recording && b is Processing ==> t.dur.nanos == 320_000_000 && t.ease
                == Ease::Linear
            &&& a is Idle && b is Expanded ==> ms(110)
            &&& a is Expanded && b is Idle ==> ms(90)
            &&& !(a is Hidden) && !(a is Expanded) && b is Idle ==> ms(160)
            &&& !(a is Hidden) && b is Done ==> t.dur.nanos == 0
            &&& !(a is Hidden) && !(a is Recording) && b is Processing ==> t.dur.nanos == 0
            &&& !(a is Hidden) && !(a is Idle) && b is Expanded ==> t.dur.nanos == 0
        }),
{
}

/// At the bottom of a breath the edge has half of its light, or the hairline's where that
/// is more, and it only brightens from there.
pub proof fn law_a_breath_goes_down_to_half(border_a: int, pulse: int, later: int)
    requires
        0 <= pulse <= later,
        0 <= border_a,
    ensures
        breath(border_a, 0) == (if (border_a + 1) / 2 < 120_000 {
            120_000
        } else {
            (border_a + 1) / 2
        }),
        breath(border_a, pulse) <= breath(border_a, later),
{
    let w = 1_000_000_000int;
    assert((2 * (border_a * (w + 0)) + 2 * w) / (4 * w) == (border_a + 1) / 2) by {
        assert(border_a * (w + 0) == w * border_a) by (nonlinear_arith);
        assert(2 * (w * border_a) + 2 * w == 2_000_000_000 * (border_a + 1));
        assert(2_000_000_000 * (border_a + 1) / 4_000_000_000 == (border_a + 1) / 2);
    }
    assert(border_a * (w + pulse) <= border_a * (w + later)) by (nonlinear_arith)
        requires
            0 <= pulse <= later,
            0 <= border_a,
            w == 1_000_000_000,
    ;
    vstd::arithmetic::div_mod::lemma_div_is_ordered(
        2 * (border_a * (w + pulse)) + 2 * w,
        2 * (border_a * (w + later)) + 2 * w,
        4 * w,
    );
}

/// A transition runs from the look it was given to the mode's own, over its own time from
/// now; only a conceal keeps the look it was given.
pub proof fn law_where_a_motion_leads(from: Geom, to: PillMode, tween: Tween, now: Instant)
    ensures
        motion_to(from, to, tween, now).from == from,
        motion_to(from, to, tween, now).tween == tween,
        motion_to(from, to, tween, now).started == now,
        !(to is Hidden) ==> motion_to(from, to, tween, now).to == resting(to),
        to is Hidden ==> motion_to(from, to, tween, now).to == blank(from),
{
}

/// A button lights up over 90 milliseconds and the one that was left goes dark over the
/// same time.
pub proof fn law_how_a_button_lights_up(h: HoverView, i: usize, now: Instant)
    ensures
        clock::elapsed(h.started, now) >= 90_000_000 ==> {
            &&& h.current == Some(i) ==> light(h, i, now) == 1_000_000_000
            &&& h.current != Some(i) ==> light(h, i, now) == 0
        },
        now == h.started ==> {
            &&& h.current == Some(i) ==> light(h, i, now) == 0
            &&& h.current != Some(i) && h.previous == Some(i) ==> light(h, i, now) == 1_000_000_000
        },
        h.current != Some(i) && h.previous != Some(i) ==> light(h, i, now) == 0,
{
    clock::law_shares_run_forward(0, clock::elapsed(h.started, now), 90_000_000);
    law_no_easing_overshoots(Ease::OutCubic, 0, 0);
}

} // verus!
