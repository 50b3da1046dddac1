//! What a frame of the pill is made of: which shapes, where, and how strong, from
//! the back to the front.
//!
//! Lengths are counted in ticks, [`PX`] of them to a device pixel, from the pill's
//! centre to the right and down. The density says how many device pixels there are
//! to [`LOGICAL_DPI`] logical ones, which makes every length of a [`Geom`] a whole
//! number of ticks.
use crate::clock::WHOLE;
use crate::pill::bar;
use crate::pill::bar::{
    bar_width, button, check_button, island_centre, Action, Icon, BAR_H, BUTTON_COUNT, CENTRE,
    CHECK_BUTTON, CHECK_CLAIM, CHECK_COUNT, CHECK_GLYPH_BOX, CHECK_INSET, GLYPH_BOX,
};
use crate::pill::geom;
use crate::pill::geom::{Geom, Rgb, Slot, HAIRLINE_A, PILL_FILL_A, UNIT};
use crate::pill::icons::{Point, Stroke};
use crate::pill::label;
use crate::pill::label::Fade;
use crate::pill::text::Run;
use crate::pill::{ENVELOPE_H, ENVELOPE_W, PILL_BAND_H};
use vstd::prelude::*;

verus! {

/// The density at which a logical pixel is a device pixel.
pub const LOGICAL_DPI: u32 = 96;

/// A device pixel.
pub const PX: i128 = 192_000;

/// A length in thousandths of a logical pixel at some density.
pub open spec fn scaled(x: int, density: int) -> int {
    2 * (x * density)
}

fn scale(x: i32, density: u32) -> (r: i128)
    ensures
        r == scaled(x as int, density as int),
        -0x1_0000_0000_0000_0000 <= r <= 0x1_0000_0000_0000_0000,
        x >= 0 ==> r >= 0,
{
    proof {
        lemma_product(x as int, density as int, 0x8000_0000, 0x1_0000_0000);
    }
    2 * (x as i128 * density as i128)
}

proof fn lemma_product(a: int, b: int, m: int, n: int)
    requires
        -m <= a <= m,
        0 <= b <= n,
    ensures
        -(m * n) <= a * b <= m * n,
        a >= 0 ==> a * b >= 0,
{
    assert(-(m * n) <= a * b && a * b <= m * n && (a >= 0 ==> a * b >= 0)) by (nonlinear_arith)
        requires
            -m <= a <= m,
            0 <= b <= n,
    ;
}

/// `x`, or `least` where that is more.
pub open spec fn at_least(x: int, least: int) -> int {
    if x < least {
        least
    } else {
        x
    }
}

/// `x`, or `most` where that is less.
pub open spec fn at_most(x: int, most: int) -> int {
    if x > most {
        most
    } else {
        x
    }
}

/// The pill's body without its edge: its stroke and its size.
#[derive(Clone, Copy, PartialEq, Eq, Debug, Structural)]
pub struct Body {
    pub border_w: i128,
    pub w: i128,
    pub h: i128,
}

/// The width of the edge: at least a device pixel.
pub open spec fn border_of(geom: Geom, density: int) -> int {
    at_least(scaled(geom.border_w as int, density), PX as int)
}

/// What the edge takes of a side: half its width and a logical pixel to fade into,
/// at either end.
pub open spec fn margins(geom: Geom, density: int) -> int {
    border_of(geom, density) + 2 * scaled(UNIT as int, density)
}

/// A side less its margins.
pub open spec fn inner(side: int, geom: Geom, density: int) -> int {
    at_least(scaled(side, density) - margins(geom, density), 0)
}

/// The body that a look has at a density.
pub fn body_of(geom: &Geom, density: u32) -> (b: Body)
    ensures
        b.border_w == border_of(*geom, density as int),
        b.w == inner(geom.w as int, *geom, density as int),
        b.h == inner(geom.h as int, *geom, density as int),
{
    let border_w: i128 = border(geom, density);
    Body {
        border_w,
        w: inside(geom.w, border_w, density),
        h: inside(geom.h, border_w, density),
    }
}

fn border(geom: &Geom, density: u32) -> (r: i128)
    ensures
        r == border_of(*geom, density as int),
        PX <= r <= 0x1_0000_0000_0000_0000,
{
    let w: i128 = scale(geom.border_w, density);
    if w < PX {
        PX
    } else {
        w
    }
}

fn inside(side: i32, border_w: i128, density: u32) -> (r: i128)
    requires
        PX <= border_w <= 0x1_0000_0000_0000_0000,
    ensures
        r == at_least(
            scaled(side as int, density as int) - border_w - 2 * scaled(UNIT as int, density as int),
            0,
        ),
        0 <= r <= 0x1_0000_0000_0000_0000,
{
    let all: i128 = scale(side, density) - border_w - 2 * scale(UNIT, density);
    if all < 0 {
        0
    } else {
        all
    }
}

/// Every length that the bar row is drawn from.
#[derive(Clone, Copy, PartialEq, Eq, Debug, Structural)]
pub struct Bars {
    pub bar_w: i128,
    pub bar_gap: i128,
    pub bar_min_h: i128,
    pub bar_max_h: i128,
}

/// The largest length that is reckoned with.
pub const FAR: i128 = 0x1_0000_0000_0000_0000;

/// The largest bar that is reckoned with.
pub const WIDE: i128 = 0x1000_0000_0000_0000;

/// The row of a body: a bar and a gap are each five parts in 172 of its width, the
/// tallest bar leaves five parts in 42 of its height clear above and below, and the
/// shortest is two and a half times as high as wide, where there is the room.
pub open spec fn row_of(body_w: int, body_h: int) -> Bars {
    let bar_w = body_w * 5 / 172;
    let bar_max_h = body_h * 32 / 42;
    Bars {
        bar_w: bar_w as i128,
        bar_gap: bar_w as i128,
        bar_min_h: at_most(bar_w * 5 / 2, bar_max_h) as i128,
        bar_max_h: bar_max_h as i128,
    }
}

/// How wide a row of `count` bars is, gaps included.
pub open spec fn span_of(bars: Bars, count: int) -> int {
    if count <= 0 {
        0
    } else {
        count * bars.bar_w + (count - 1) * bars.bar_gap
    }
}

/// The same row squeezed into `span` where it does not fit already: bars and gaps
/// keep their ratio.
pub open spec fn squeezed(bars: Bars, span: int, count: int) -> Bars {
    let have = span_of(bars, count);
    if have <= span {
        bars
    } else {
        Bars {
            bar_w: (bars.bar_w * span / have) as i128,
            bar_gap: (bars.bar_gap * span / have) as i128,
            ..bars
        }
    }
}

impl Bars {
    /// No length of the row is negative, nor too large to be reckoned with.
    pub open spec fn wf(self) -> bool {
        &&& 0 <= self.bar_w <= WIDE
        &&& 0 <= self.bar_gap <= WIDE
        &&& 0 <= self.bar_min_h <= self.bar_max_h <= FAR
    }

    /// The row of a body.
    pub fn new(body_w: i128, body_h: i128) -> (r: Self)
        requires
            0 <= body_w <= FAR,
            0 <= body_h <= FAR,
        ensures
            r == row_of(body_w as int, body_h as int),
            r.wf(),
    {
        let bar_w: i128 = body_w * 5 / 172;
        let bar_max_h: i128 = body_h * 32 / 42;
        let tall: i128 = bar_w * 5 / 2;
        Bars {
            bar_w,
            bar_gap: bar_w,
            bar_min_h: if tall > bar_max_h {
                bar_max_h
            } else {
                tall
            },
            bar_max_h,
        }
    }

    /// How wide a row of `count` bars is, gaps included.
    pub fn span(&self, count: usize) -> (r: i128)
        requires
            self.wf(),
        ensures
            r == span_of(*self, count as int),
            0 <= r <= 2 * FAR * WIDE,
    {
        if count == 0 {
            return 0;
        }
        proof {
            lemma_product(self.bar_w as int, count as int, WIDE as int, FAR as int);
            lemma_product(self.bar_gap as int, count - 1, WIDE as int, FAR as int);
            assert(count * self.bar_w == self.bar_w * count) by (nonlinear_arith);
            assert((count - 1) * self.bar_gap == self.bar_gap * (count - 1)) by (nonlinear_arith);
        }
        count as i128 * self.bar_w + (count - 1) as i128 * self.bar_gap
    }

    /// The same row squeezed into `span` where it does not fit already.
    pub fn fitted(self, span: i128, count: usize) -> (r: Self)
        requires
            self.wf(),
            0 <= span <= FAR,
        ensures
            r == squeezed(self, span as int, count as int),
            r.wf(),
    {
        let have: i128 = self.span(count);
        if have <= span {
            return self;
        }
        proof {
            lemma_share(self.bar_w as int, span as int, have as int);
            lemma_share(self.bar_gap as int, span as int, have as int);
            lemma_product(self.bar_w as int, span as int, WIDE as int, FAR as int);
            lemma_product(self.bar_gap as int, span as int, WIDE as int, FAR as int);
        }
        Bars {
            bar_w: self.bar_w * span / have,
            bar_gap: self.bar_gap * span / have,
            bar_min_h: self.bar_min_h,
            bar_max_h: self.bar_max_h,
        }
    }
}

/// A share of something is no more than it.
proof fn lemma_share(x: int, part: int, whole: int)
    requires
        0 <= x,
        0 <= part < whole,
    ensures
        0 <= x * part / whole <= x,
        (x * part / whole) * whole <= x * part,
{
    assert(0 <= x * part <= x * whole) by (nonlinear_arith)
        requires
            0 <= x,
            0 <= part < whole,
    ;
    vstd::arithmetic::div_mod::lemma_div_pos_is_pos(x * part, whole);
    vstd::arithmetic::div_mod::lemma_div_is_ordered(x * part, x * whole, whole);
    vstd::arithmetic::div_mod::lemma_div_multiples_vanish(x, whole);
    vstd::arithmetic::div_mod::lemma_fundamental_div_mod(x * part, whole);
    assert(whole * x == x * whole) by (nonlinear_arith);
    assert(whole * (x * part / whole) == (x * part / whole) * whole) by (nonlinear_arith);
}

/// A row that was squeezed fits, however many bars it has.
pub proof fn law_a_squeezed_row_fits(bars: Bars, span: int, count: int)
    requires
        bars.wf(),
        0 <= span,
    ensures
        0 <= span_of(squeezed(bars, span, count), count) <= span,
{
    let have = span_of(bars, count);
    if count <= 0 {
    } else if have <= span {
        lemma_product(bars.bar_w as int, count, WIDE as int, count);
        lemma_product(bars.bar_gap as int, count - 1, WIDE as int, count);
        assert(count * bars.bar_w == bars.bar_w * count) by (nonlinear_arith);
        assert((count - 1) * bars.bar_gap == bars.bar_gap * (count - 1)) by (nonlinear_arith);
    } else {
        lemma_share(bars.bar_w as int, span, have);
        lemma_share(bars.bar_gap as int, span, have);
        let w = bars.bar_w * span / have;
        let g = bars.bar_gap * span / have;
        assert(squeezed(bars, span, count).bar_w == w);
        assert(squeezed(bars, span, count).bar_gap == g);
        let total = count * w + (count - 1) * g;
        lemma_squeeze(count, bars.bar_w as int, bars.bar_gap as int, w, g, have, span, total);
    }
}

proof fn lemma_squeeze(
    count: int,
    bar_w: int,
    gap: int,
    w: int,
    g: int,
    have: int,
    span: int,
    total: int,
)
    requires
        count > 0,
        0 <= span < have,
        0 <= w,
        0 <= g,
        w * have <= bar_w * span,
        g * have <= gap * span,
        have == count * bar_w + (count - 1) * gap,
        total == count * w + (count - 1) * g,
    ensures
        0 <= total <= span,
{
    assert(total >= 0) by (nonlinear_arith)
        requires
            count > 0,
            0 <= w,
            0 <= g,
            total == count * w + (count - 1) * g,
    ;
    assert(count * (w * have) <= count * (bar_w * span)) by (nonlinear_arith)
        requires
            count > 0,
            w * have <= bar_w * span,
    ;
    assert((count - 1) * (g * have) <= (count - 1) * (gap * span)) by (nonlinear_arith)
        requires
            count > 0,
            g * have <= gap * span,
    ;
    assert(total * have == count * (w * have) + (count - 1) * (g * have)) by (nonlinear_arith)
        requires
            total == count * w + (count - 1) * g,
    ;
    assert(span * have == count * (bar_w * span) + (count - 1) * (gap * span))
        by (nonlinear_arith)
        requires
            have == count * bar_w + (count - 1) * gap,
    ;
    assert(total <= span) by (nonlinear_arith)
        requires
            total * have <= span * have,
            have > 0,
    ;
}

/// The bars stay inside the body at any size: a row of up to seventeen is no wider
/// than it, and no bar is higher.
pub proof fn law_bars_stay_inside_the_body(body_w: int, body_h: int, count: int)
    requires
        0 <= body_w <= FAR,
        0 <= body_h <= FAR,
        0 <= count <= 17,
    ensures
        0 <= span_of(row_of(body_w, body_h), count) <= body_w,
        0 <= row_of(body_w, body_h).bar_min_h <= row_of(body_w, body_h).bar_max_h <= body_h,
{
    let bar_w = body_w * 5 / 172;
    assert(row_of(body_w, body_h).bar_w == bar_w);
    if count > 0 {
        assert(count * bar_w + (count - 1) * bar_w == (2 * count - 1) * bar_w) by (nonlinear_arith);
        assert((2 * count - 1) * bar_w <= 33 * bar_w && 0 <= (2 * count - 1) * bar_w)
            by (nonlinear_arith)
            requires
                0 < count <= 17,
                0 <= bar_w,
        ;
    }
}

/// A rectangle with rounded corners.
#[derive(Clone, Copy, PartialEq, Eq, Debug, Structural)]
pub struct RoundRect {
    pub x: i128,
    pub y: i128,
    pub w: i128,
    pub h: i128,
    pub r: i128,
}

/// The largest coordinate that is reckoned with.
pub const REACH: i128 = 0x1_0000_0000_0000_0000_0000_0000;

impl RoundRect {
    /// Every number is within reach.
    pub open spec fn near(self) -> bool {
        &&& -REACH <= self.x <= REACH
        &&& -REACH <= self.y <= REACH
        &&& -REACH <= self.w <= REACH
        &&& -REACH <= self.h <= REACH
        &&& -REACH <= self.r <= REACH
    }
}

/// A rectangle whose middle is at (`cx`, `cy`).
pub open spec fn centred(cx: int, cy: int, w: int, h: int, r: int) -> RoundRect {
    RoundRect {
        x: (cx - w / 2) as i128,
        y: (cy - h / 2) as i128,
        w: w as i128,
        h: h as i128,
        r: r as i128,
    }
}

fn around(cx: i128, cy: i128, w: i128, h: i128, r: i128) -> (b: RoundRect)
    requires
        -REACH <= cx <= REACH,
        -REACH <= cy <= REACH,
        0 <= w <= REACH,
        0 <= h <= REACH,
    ensures
        b == centred(cx as int, cy as int, w as int, h as int, r as int),
        b.x == cx - w / 2,
        b.y == cy - h / 2,
{
    RoundRect { x: cx - w / 2, y: cy - h / 2, w, h, r }
}

/// A radius that fits into a rectangle.
pub open spec fn fitting(r: int, w: int, h: int) -> int {
    at_most(at_most(r, w / 2), h / 2)
}

fn fit(r: i128, w: i128, h: i128) -> (q: i128)
    requires
        0 <= w,
        0 <= h,
    ensures
        q == fitting(r as int, w as int, h as int),
{
    let q: i128 = if r > w / 2 {
        w / 2
    } else {
        r
    };
    if q > h / 2 {
        h / 2
    } else {
        q
    }
}

/// How far a control point lies from the end of its quarter circle, where the
/// radius is `r`.
pub open spec fn handle(r: int) -> int {
    r * 5_522_848 / 10_000_000
}

/// The point at (`x`, `y`).
pub open spec fn spot(x: int, y: int) -> Point {
    Point { x: x as i128, y: y as i128 }
}

/// The way round a rectangle. Corners of no more than half a pixel are sharp; the
/// others are quarter circles. A rectangle that is inside out has none.
pub open spec fn outline_of(b: RoundRect) -> Seq<Stroke> {
    let r = fitting(b.r as int, b.w as int, b.h as int);
    let (left, right, top, bottom) = (b.x as int, b.x + b.w, b.y as int, b.y + b.h);
    // Where the sides end, and where the handles of the corners are.
    let (l, t, e, u) = (left + r, top + r, right - r, bottom - r);
    let c = handle(r);
    let (lc, tc, ec, uc) = (l - c, t - c, e + c, u + c);
    if b.w < 0 || b.h < 0 {
        Seq::empty()
    } else if 2 * r <= PX {
        seq![
            Stroke::MoveTo(spot(left, top)),
            Stroke::LineTo(spot(right, top)),
            Stroke::LineTo(spot(right, bottom)),
            Stroke::LineTo(spot(left, bottom)),
            Stroke::Close,
        ]
    } else {
        seq![
            Stroke::MoveTo(spot(l, top)),
            Stroke::LineTo(spot(e, top)),
            Stroke::CubicTo(spot(ec, top), spot(right, tc), spot(right, t)),
            Stroke::LineTo(spot(right, u)),
            Stroke::CubicTo(spot(right, uc), spot(ec, bottom), spot(e, bottom)),
            Stroke::LineTo(spot(l, bottom)),
            Stroke::CubicTo(spot(lc, bottom), spot(left, uc), spot(left, u)),
            Stroke::LineTo(spot(left, t)),
            Stroke::CubicTo(spot(left, tc), spot(lc, top), spot(l, top)),
            Stroke::Close,
        ]
    }
}

fn point(x: i128, y: i128) -> (p: Point)
    ensures
        p == spot(x as int, y as int),
{
    Point { x, y }
}

/// The way round a rectangle.
pub fn outline(b: &RoundRect) -> (r: Vec<Stroke>)
    requires
        b.near(),
    ensures
        r@ == outline_of(*b),
{
    if b.w < 0 || b.h < 0 {
        return Vec::new();
    }
    let r: i128 = fit(b.r, b.w, b.h);
    let (left, right, top, bottom) = (b.x, b.x + b.w, b.y, b.y + b.h);
    if 2 * r <= PX {
        return vec![
            Stroke::MoveTo(point(left, top)),
            Stroke::LineTo(point(right, top)),
            Stroke::LineTo(point(right, bottom)),
            Stroke::LineTo(point(left, bottom)),
            Stroke::Close,
        ];
    }
    let (l, t, e, u) = (left + r, top + r, right - r, bottom - r);
    let c: i128 = r * 5_522_848 / 10_000_000;
    let (lc, tc, ec, uc) = (l - c, t - c, e + c, u + c);
    vec![
        Stroke::MoveTo(point(l, top)),
        Stroke::LineTo(point(e, top)),
        Stroke::CubicTo(point(ec, top), point(right, tc), point(right, t)),
        Stroke::LineTo(point(right, u)),
        Stroke::CubicTo(point(right, uc), point(ec, bottom), point(e, bottom)),
        Stroke::LineTo(point(l, bottom)),
        Stroke::CubicTo(point(lc, bottom), point(left, uc), point(left, u)),
        Stroke::LineTo(point(left, t)),
        Stroke::CubicTo(point(left, tc), point(lc, top), point(l, top)),
        Stroke::Close,
    ]
}

/// `p` lies in the rectangle, its edges included.
pub open spec fn covers(b: RoundRect, p: Point) -> bool {
    b.x <= p.x <= b.x + b.w && b.y <= p.y <= b.y + b.h
}

/// Every point of a stroke lies in the rectangle.
pub open spec fn stays_in(b: RoundRect, s: Stroke) -> bool {
    match s {
        Stroke::MoveTo(p) => covers(b, p),
        Stroke::LineTo(p) => covers(b, p),
        Stroke::CubicTo(p, q, t) => covers(b, p) && covers(b, q) && covers(b, t),
        Stroke::ArcTo { .. } => false,
        Stroke::Close => true,
    }
}

/// The way round a rectangle never leaves it.
pub proof fn law_outlines_stay_inside(b: RoundRect, i: int)
    requires
        b.near(),
        0 <= i < outline_of(b).len(),
    ensures
        stays_in(b, outline_of(b)[i]),
{
}

/// How high a bar is at a share of the full amplitude.
pub open spec fn bar_height(bars: Bars, amp: int) -> int {
    bars.bar_min_h + geom::clamped(amp) * (bars.bar_max_h - bars.bar_min_h) / WHOLE as int
}

/// The bar at `i` in a row of `count`.
pub open spec fn bar_at(bars: Bars, count: int, i: int, amp: int) -> RoundRect {
    let h = bar_height(bars, amp);
    RoundRect {
        x: (i * (bars.bar_w + bars.bar_gap) - span_of(bars, count) / 2) as i128,
        y: (0 - h / 2) as i128,
        w: bars.bar_w,
        h: h as i128,
        r: (bars.bar_w / 2) as i128,
    }
}

/// The bars of a row, one for each amplitude.
pub open spec fn bars_at(bars: Bars, amps: Seq<u64>) -> Seq<RoundRect> {
    Seq::new(amps.len(), |i: int| bar_at(bars, amps.len() as int, i, amps[i] as int))
}

proof fn lemma_bar_height(bars: Bars, amp: int)
    requires
        bars.wf(),
    ensures
        0 <= bars.bar_min_h <= bar_height(bars, amp) <= bars.bar_max_h,
        0 <= geom::clamped(amp) * (bars.bar_max_h - bars.bar_min_h) <= WHOLE * FAR,
{
    let t = geom::clamped(amp);
    let d = bars.bar_max_h - bars.bar_min_h;
    assert(0 <= t * d <= WHOLE * d && t * d <= WHOLE * FAR) by (nonlinear_arith)
        requires
            0 <= t <= WHOLE,
            0 <= d <= FAR,
    ;
}

proof fn lemma_bar_starts(bars: Bars, count: int, i: int)
    requires
        bars.wf(),
        0 <= i < count,
    ensures
        0 <= i * (bars.bar_w + bars.bar_gap),
        i * (bars.bar_w + bars.bar_gap) + bars.bar_w <= span_of(bars, count),
{
    let (w, g) = (bars.bar_w as int, bars.bar_gap as int);
    assert(0 <= i * (w + g)) by (nonlinear_arith)
        requires
            0 <= i,
            0 <= w,
            0 <= g,
    ;
    assert(i * (w + g) <= (count - 1) * (w + g)) by (nonlinear_arith)
        requires
            i <= count - 1,
            0 <= w,
            0 <= g,
    ;
    assert((count - 1) * (w + g) + w == count * w + (count - 1) * g) by (nonlinear_arith);
}

/// Lays out the bars of a row.
pub fn bar_row(bars: &Bars, amps: &Vec<u64>) -> (r: Vec<RoundRect>)
    requires
        bars.wf(),
        span_of(*bars, amps@.len() as int) <= FAR,
    ensures
        r@ == bars_at(*bars, amps@),
        forall|i: int| 0 <= i < r@.len() ==> (#[trigger] r@[i]).near(),
{
    let count: usize = amps.len();
    let total: i128 = bars.span(count);
    let mut out: Vec<RoundRect> = Vec::new();
    let mut i: usize = 0;
    while i < count
        invariant
            i <= count,
            count == amps@.len(),
            bars.wf(),
            total == span_of(*bars, count as int),
            0 <= total <= FAR,
            out@ == bars_at(*bars, amps@).take(i as int),
            forall|k: int| 0 <= k < out@.len() ==> (#[trigger] out@[k]).near(),
        decreases count - i,
    {
        proof {
            lemma_bar_starts(*bars, count as int, i as int);
            lemma_bar_height(*bars, amps@[i as int] as int);
        }
        let amp: u64 = if amps[i] > WHOLE {
            WHOLE
        } else {
            amps[i]
        };
        let h: i128 = bars.bar_min_h + amp as i128 * (bars.bar_max_h - bars.bar_min_h)
            / WHOLE as i128;
        out.push(
            RoundRect {
                x: i as i128 * (bars.bar_w + bars.bar_gap) - total / 2,
                y: 0 - h / 2,
                w: bars.bar_w,
                h,
                r: bars.bar_w / 2,
            },
        );
        i += 1;
        assert(out@ =~= bars_at(*bars, amps@).take(i as int));
    }
    assert(bars_at(*bars, amps@).take(count as int) =~= bars_at(*bars, amps@));
    out
}

/// Every bar of a row lies within its span, and louder is never lower.
pub proof fn law_bars_stay_in_their_row(bars: Bars, count: int, i: int, amp: int, louder: int)
    requires
        bars.wf(),
        0 <= i < count,
        span_of(bars, count) <= FAR,
        amp <= louder,
    ensures
        ({
            let b = bar_at(bars, count, i, amp);
            let span = span_of(bars, count);
            &&& 0 - span / 2 <= b.x && b.x + b.w <= span - span / 2
            &&& bars.bar_min_h <= b.h <= bar_at(bars, count, i, louder).h <= bars.bar_max_h
        }),
{
    lemma_bar_starts(bars, count, i);
    lemma_bar_height(bars, amp);
    lemma_bar_height(bars, louder);
    let (s, t) = (geom::clamped(amp), geom::clamped(louder));
    let d = bars.bar_max_h - bars.bar_min_h;
    assert(s * d <= t * d) by (nonlinear_arith)
        requires
            s <= t,
            0 <= d,
    ;
}

/// A colour and how strongly it is laid on.
#[derive(Clone, Copy, PartialEq, Eq, Debug, Structural)]
pub struct Ink {
    pub color: Rgb,
    pub alpha: u8,
}

/// One thing that is drawn.
#[derive(Clone, Copy, PartialEq, Eq, Debug, Structural)]
pub enum Shape {
    /// A filled rectangle.
    Fill { rect: RoundRect, ink: Ink },
    /// The edge of a rectangle, stroked.
    Edge { rect: RoundRect, width: i128, ink: Ink },
    /// The strip that makes the gaps between the buttons part of the window: white at
    /// [`HIT_A`], enough of it to be hit and too little to be seen.
    Strip { rect: RoundRect },
    /// The bar row, in white, as one path.
    Bars { alpha: u8 },
    /// A button's icon, in a box of so many logical pixels.
    Glyph { icon: Icon, x: i128, side: i32, ink: Ink },
    /// The label's outgoing or incoming text.
    Words { incoming: bool, y: i128, alpha: u8 },
}

impl Shape {
    /// Every number of its rectangle is within reach.
    pub open spec fn near(self) -> bool {
        match self {
            Shape::Fill { rect, .. } => rect.near(),
            Shape::Edge { rect, .. } => rect.near(),
            Shape::Strip { rect } => rect.near(),
            _ => true,
        }
    }
}

/// Every rectangle of the shapes is within reach.
pub open spec fn all_near(shapes: Seq<Shape>) -> bool {
    forall|i: int| 0 <= i < shapes.len() ==> (#[trigger] shapes[i]).near()
}

/// A strength of `x` in steps of `unit`, brought into the range of an alpha.
pub open spec fn alpha(x: int, unit: int) -> u8 {
    (at_most(at_least(x, 0), 255 * unit) / unit) as u8
}

fn alpha_of(x: i128, unit: i128) -> (a: u8)
    requires
        0 < unit <= REACH,
    ensures
        a == alpha(x as int, unit as int),
{
    let least: i128 = if x < 0 {
        0
    } else {
        x
    };
    let kept: i128 = if least > 255 * unit {
        255 * unit
    } else {
        least
    };
    proof {
        vstd::arithmetic::div_mod::lemma_div_pos_is_pos(kept as int, unit as int);
        vstd::arithmetic::div_mod::lemma_div_is_ordered(kept as int, 255 * unit, unit as int);
        vstd::arithmetic::div_mod::lemma_div_multiples_vanish(255, unit as int);
        assert(unit * 255 == 255 * unit) by (nonlinear_arith);
    }
    (kept / unit) as u8
}

fn lit(strength: i32, light: u64) -> (a: u8)
    requires
        light <= WHOLE,
    ensures
        a == alpha(strength * light, WHOLE as int),
{
    proof {
        lemma_product(strength as int, light as int, 0x8000_0000, WHOLE as int);
    }
    alpha_of(strength as i128 * light as i128, WHOLE as i128)
}

/// The label's chip: its height, the room on either side of its text, and its gap
/// above the body, in thousandths of a logical pixel.
pub const LABEL_H: i32 = 22_000;

pub const LABEL_PAD_X: i32 = 10_000;

pub const LABEL_GAP: i32 = 6_000;

/// The em of the label's text, in thousandths of a logical pixel.
pub const LABEL_PX: i32 = 11_500;

/// The strength of the label's text.
pub const LABEL_TEXT_A: i32 = 235;

/// The longest text, in font units, whose width is reckoned with.
pub const LONG: u128 = 0x1000_0000_0000;

/// The widest text that is reckoned with.
pub const ROOM: i128 = 0x1000_0000_0000_0000_0000_0000;

/// How wide a text is at a density.
pub fn label_width(run: &Run, density: u32) -> (w: i128)
    requires
        run.units_per_em > 0,
        run.width <= LONG,
    ensures
        w == run.width * scaled(LABEL_PX as int, density as int) / run.units_per_em as int,
        0 <= w <= ROOM,
{
    let em: i128 = scale(LABEL_PX, density);
    proof {
        lemma_product(run.width as int, em as int, LONG as int, 100_000_000_000_000);
        lemma_quotient(run.width * em, run.units_per_em as int);
    }
    run.width as i128 * em / run.units_per_em as i128
}

/// Where a pen position of a text is, counted from the text's middle.
pub open spec fn spot_of(run: Run, density: int, pen: int) -> int {
    let em = scaled(LABEL_PX as int, density);
    let units = run.units_per_em as int;
    pen * em / units - (run.width * em / units) / 2
}

/// Where the glyphs of a text stand, counted from the text's middle.
pub fn label_spots(run: &Run, density: u32) -> (r: Vec<i128>)
    requires
        run.units_per_em > 0,
        run.width <= LONG,
        forall|i: int| 0 <= i < run.glyphs@.len() ==> (#[trigger] run.glyphs@[i]).pen <= run.width,
    ensures
        r@.len() == run.glyphs@.len(),
        forall|i: int|
            0 <= i < r@.len() ==> #[trigger] r@[i] == spot_of(
                *run,
                density as int,
                run.glyphs@[i].pen as int,
            ),
{
    let em: i128 = scale(LABEL_PX, density);
    let half: i128 = label_width(run, density) / 2;
    let mut out: Vec<i128> = Vec::new();
    let mut i: usize = 0;
    while i < run.glyphs.len()
        invariant
            i <= run.glyphs@.len(),
            out@.len() == i,
            run.units_per_em > 0,
            run.width <= LONG,
            em == scaled(LABEL_PX as int, density as int),
            0 <= em <= 100_000_000_000_000,
            0 <= half <= ROOM,
            half == (run.width * em / run.units_per_em as int) / 2,
            forall|k: int|
                0 <= k < run.glyphs@.len() ==> (#[trigger] run.glyphs@[k]).pen <= run.width,
            forall|k: int|
                0 <= k < i ==> #[trigger] out@[k] == spot_of(
                    *run,
                    density as int,
                    run.glyphs@[k].pen as int,
                ),
        decreases run.glyphs.len() - i,
    {
        let pen: u128 = run.glyphs[i].pen;
        proof {
            assert(run.glyphs@[i as int].pen <= run.width);
            lemma_product(pen as int, em as int, LONG as int, 100_000_000_000_000);
            lemma_quotient(pen * em, run.units_per_em as int);
        }
        out.push(pen as i128 * em / run.units_per_em as i128 - half);
        i += 1;
    }
    out
}

/// A quotient is no larger than what was divided.
proof fn lemma_quotient(x: int, d: int)
    requires
        0 <= x,
        0 < d,
    ensures
        0 <= x / d <= x,
{
    vstd::arithmetic::div_mod::lemma_div_pos_is_pos(x, d);
    vstd::arithmetic::div_mod::lemma_div_is_ordered_by_denominator(x, 1, d);
}

/// How far the baseline lies below the middle of a text: half a capital, so that
/// texts with and without descenders sit on the same line.
pub open spec fn baseline_of(run: Run, density: int) -> int {
    let em = scaled(LABEL_PX as int, density);
    let d = 20 * run.units_per_em;
    if run.cap_tenths < 0 {
        0 - (0 - run.cap_tenths) * em / d
    } else {
        run.cap_tenths * em / d
    }
}

/// How far the baseline lies below the middle of a text.
pub fn label_baseline(run: &Run, density: u32) -> (y: i128)
    requires
        run.units_per_em > 0,
    ensures
        y == baseline_of(*run, density as int),
{
    let em: i128 = scale(LABEL_PX, density);
    let d: i128 = 20 * run.units_per_em as i128;
    let cap: i128 = if run.cap_tenths < 0 {
        0 - run.cap_tenths as i128
    } else {
        run.cap_tenths as i128
    };
    proof {
        lemma_product(cap as int, em as int, 0x8000_0000, 100_000_000_000_000);
        lemma_quotient(cap * em, d as int);
    }
    let half: i128 = cap * em / d;
    if run.cap_tenths < 0 {
        0 - half
    } else {
        half
    }
}

/// How wide the text in the chip is: while one text gives way to another, the
/// width moves from the one's to the other's. `None` where there is no text.
pub open spec fn text_width(from: Option<i128>, to: Option<i128>, t: int) -> Option<int> {
    match (from, to) {
        (Some(a), Some(b)) => Some(
            (a * (WHOLE - geom::clamped(t)) + b * geom::clamped(t)) / WHOLE as int,
        ),
        (Some(a), None) => Some(a as int),
        (None, Some(b)) => Some(b as int),
        (None, None) => None,
    }
}

/// One of the label's texts, where it is there and lit.
pub open spec fn words_of(width: Option<i128>, light: int, incoming: bool, y: int) -> Seq<Shape> {
    if width is Some && light > 0 {
        seq![Shape::Words { incoming, y: y as i128, alpha: alpha(LABEL_TEXT_A * light, WHOLE as int) }]
    } else {
        Seq::empty()
    }
}

/// Where the label's middle is, above a body of this height.
pub open spec fn label_y(body_h: int, density: int) -> int {
    0 - (scaled(body_h, density) / 2 + scaled(LABEL_GAP as int, density) + scaled(
        LABEL_H as int,
        density,
    ) / 2)
}

/// Where the pill's centre is below the top of a surface of so many device pixels: in
/// the middle of the band at its bottom.
pub open spec fn pill_centre(height: int, density: int) -> int {
    height * PX - scaled(PILL_BAND_H * UNIT, density) / 2
}

/// Where the pill's centre is below the top of a surface of so many device pixels.
pub fn pill_centre_y(height: u32, density: u32) -> (y: i128)
    ensures
        y == pill_centre(height as int, density as int),
{
    height as i128 * PX - scale(PILL_BAND_H as i32 * UNIT, density) / 2
}

/// Where the label's middle is below the top of such a surface, above a body of this
/// height.
pub fn label_centre_y(height: u32, density: u32, body_h: i32) -> (y: i128)
    ensures
        y == pill_centre(height as int, density as int) + label_y(body_h as int, density as int),
{
    let half: i128 = scale(body_h, density) / 2;
    pill_centre_y(height, density) - (half + scale(LABEL_GAP, density) + scale(LABEL_H, density) / 2)
}

/// The chip around a text of this width, at a share of its light.
pub open spec fn chip_of(text_w: int, light: int, body_h: int, density: int) -> Seq<Shape> {
    let h = scaled(LABEL_H as int, density);
    let w = text_w + 2 * scaled(LABEL_PAD_X as int, density);
    let rect = centred(0, label_y(body_h, density), w, h, h / 2);
    let fill = alpha(PILL_FILL_A * light, WHOLE as int);
    let edge = alpha(HAIRLINE_A * light, WHOLE as int);
    seq![
        Shape::Fill { rect, ink: Ink { color: Rgb(13, 13, 13), alpha: fill } },
        Shape::Edge {
            rect,
            width: at_least(scaled(UNIT as int, density), PX as int) as i128,
            ink: Ink { color: Rgb(220, 224, 232), alpha: edge },
        },
    ]
}

/// The label: one chip above the pill, and the texts in it. A text that gives way to
/// another does so in the same chip.
pub open spec fn label_of(
    fade: Fade,
    from: Option<i128>,
    to: Option<i128>,
    body_h: int,
    density: int,
) -> Seq<Shape> {
    let (a, b) = label::lights(fade.from is Some, fade.to is Some, fade.t as int);
    let y = label_y(body_h, density);
    match text_width(from, to, fade.t as int) {
        Some(text_w) => if (a, b) == (0int, 0int) {
            Seq::empty()
        } else {
            chip_of(text_w, at_most(a + b, WHOLE as int), body_h, density) + words_of(
                from,
                a,
                false,
                y,
            ) + words_of(to, b, true, y)
        },
        None => Seq::empty(),
    }
}

fn push_words(out: &mut Vec<Shape>, width: Option<i128>, light: u64, incoming: bool, y: i128)
    requires
        light <= WHOLE,
    ensures
        final(out)@ == old(out)@ + words_of(width, light as int, incoming, y as int),
        all_near(old(out)@) ==> all_near(final(out)@),
{
    if width.is_some() && light > 0 {
        out.push(
            Shape::Words {
                incoming,
                y,
                alpha: lit(LABEL_TEXT_A, light),
            },
        );
    }
    assert(out@ =~= old(out)@ + words_of(width, light as int, incoming, y as int));
}

fn width_between(from: Option<i128>, to: Option<i128>, t: u64) -> (w: Option<i128>)
    requires
        from matches Some(a) ==> 0 <= a <= ROOM,
        to matches Some(b) ==> 0 <= b <= ROOM,
    ensures
        match (text_width(from, to, t as int), w) {
            (Some(x), Some(y)) => x == y && 0 <= y <= 2 * ROOM,
            (None, None) => true,
            _ => false,
        },
{
    match (from, to) {
        (Some(a), Some(b)) => {
            let t: u64 = if t > WHOLE {
                WHOLE
            } else {
                t
            };
            proof {
                lemma_product(a as int, WHOLE - t, ROOM as int, WHOLE as int);
                lemma_product(b as int, t as int, ROOM as int, WHOLE as int);
            }
            Some((a * (WHOLE - t) as i128 + b * t as i128) / WHOLE as i128)
        },
        (Some(a), None) => Some(a),
        (None, Some(b)) => Some(b),
        (None, None) => None,
    }
}

fn push_chip(out: &mut Vec<Shape>, text_w: i128, light: u64, body_h: i32, density: u32) -> (y: i128)
    requires
        0 <= text_w <= 2 * ROOM,
        light <= WHOLE,
    ensures
        y == label_y(body_h as int, density as int),
        final(out)@ == old(out)@ + chip_of(
            text_w as int,
            light as int,
            body_h as int,
            density as int,
        ),
        all_near(old(out)@) ==> all_near(final(out)@),
{
    let h: i128 = scale(LABEL_H, density);
    // Half a length of the body, which is a whole number of ticks.
    let half: i128 = scale(body_h, density) / 2;
    let y: i128 = 0 - (half + scale(LABEL_GAP, density) + h / 2);
    let w: i128 = text_w + 2 * scale(LABEL_PAD_X, density);
    let rect = around(0, y, w, h, h / 2);
    let hair: i128 = scale(UNIT, density);
    let width: i128 = if hair < PX {
        PX
    } else {
        hair
    };
    let (fill, edge) = (lit(PILL_FILL_A, light), lit(HAIRLINE_A, light));
    out.push(Shape::Fill { rect, ink: Ink { color: Rgb(13, 13, 13), alpha: fill } });
    out.push(Shape::Edge { rect, width, ink: Ink { color: Rgb(220, 224, 232), alpha: edge } });
    assert(out@ =~= old(out)@ + chip_of(text_w as int, light as int, body_h as int, density as int));
    y
}

fn push_label(
    out: &mut Vec<Shape>,
    fade: &Fade,
    from: Option<i128>,
    to: Option<i128>,
    body_h: i32,
    density: u32,
)
    requires
        from matches Some(a) ==> 0 <= a <= ROOM,
        to matches Some(b) ==> 0 <= b <= ROOM,
    ensures
        final(out)@ == old(out)@ + label_of(*fade, from, to, body_h as int, density as int),
        all_near(old(out)@) ==> all_near(final(out)@),
{
    let ghost before = out@;
    let (a, b) = fade.opacities();
    if let Some(text_w) = width_between(from, to, fade.t) {
        if !fade.is_blank() {
            let light: u64 = if a + b > WHOLE {
                WHOLE
            } else {
                a + b
            };
            let y: i128 = push_chip(out, text_w, light, body_h, density);
            push_words(out, from, a, false, y);
            push_words(out, to, b, true, y);
        }
    }
    assert(out@ =~= before + label_of(*fade, from, to, body_h as int, density as int));
}

/// How far the hover indicator sits inside its island, in thousandths of a logical
/// pixel.
pub const INDICATOR_INSET: i32 = 3_000;

/// The indicator at full strength.
pub const INDICATOR_A: i32 = 28;

/// A full strength: a whole share of light at a full opacity.
pub const FULL: i128 = 1_000_000_000_000;

/// The parts of a full strength that a glyph has which nothing hovers, and one which
/// cannot be pressed.
pub const GLYPH_IDLE: i128 = 700_000_000_000;

pub const GLYPH_DISABLED: i128 = 350_000_000_000;

/// The strip's alpha. It is not one, so that halving the picture twice leaves some.
pub const HIT_A: u8 = 3;

/// The bars at full strength.
pub const BARS_A: i32 = 235;

/// An opacity in thousandths, brought into its range.
pub open spec fn opacity_of(x: int) -> int {
    at_most(at_least(x, 0), UNIT as int)
}

fn opacity(x: i32) -> (o: i32)
    ensures
        o == opacity_of(x as int),
        0 <= o <= UNIT,
{
    if x < 0 {
        0
    } else if x > UNIT {
        UNIT
    } else {
        x
    }
}

/// Where the middle of the button at `i` is: the buttons slide out from behind the
/// middle one as they unfold.
pub open spec fn island_x(geom: Geom, density: int, i: int) -> int {
    bar::centre_twice(i) * (density * opacity_of(geom.buttons as int))
}

/// The shape of the button at `i`. The middle one is the pill's own body.
pub open spec fn island_of(geom: Geom, density: int, i: int) -> RoundRect {
    let (w, h, r) = if i == CENTRE {
        (
            inner(geom.w as int, geom, density),
            inner(geom.h as int, geom, density),
            scaled(geom.radius as int, density),
        )
    } else {
        (
            inner(bar::width_of(i) * UNIT, geom, density),
            inner(BAR_H * UNIT, geom, density),
            scaled(BAR_H * UNIT / 2, density),
        )
    };
    centred(island_x(geom, density, i), 0, w, h, fitting(r, w, h))
}

fn slid(geom: &Geom, density: u32, i: usize) -> (x: i128)
    requires
        i < BUTTON_COUNT,
    ensures
        x == island_x(*geom, density as int, i as int),
        -FAR <= x <= FAR,
{
    let o: i32 = opacity(geom.buttons);
    let c: i32 = island_centre(i);
    proof {
        bar::lemma_centres_are_near(i as int);
        lemma_product(density as int, o as int, 0x1_0000_0000, 1000);
        lemma_product(2 * c, density * o, 1000, 4_294_967_296_000);
    }
    (2 * c) as i128 * (density as i128 * o as i128)
}

/// The shape of the button at `i`.
fn island(geom: &Geom, density: u32, i: usize) -> (r: RoundRect)
    requires
        i < BUTTON_COUNT,
    ensures
        r == island_of(*geom, density as int, i as int),
        0 <= r.w <= FAR,
        0 <= r.h <= FAR,
        r.near(),
        i == CENTRE ==> r.w == inner(geom.w as int, *geom, density as int),
        i == CENTRE ==> r.h == inner(geom.h as int, *geom, density as int),
{
    let border_w: i128 = border(geom, density);
    let x: i128 = slid(geom, density, i);
    let b = button(i);
    let (w, h, r) = if i == CENTRE {
        (
            inside(geom.w, border_w, density),
            inside(geom.h, border_w, density),
            scale(geom.radius, density),
        )
    } else {
        (
            inside(b.w * UNIT, border_w, density),
            inside(BAR_H * UNIT, border_w, density),
            scale(BAR_H * UNIT / 2, density),
        )
    };
    around(x, 0, w, h, fit(r, w, h))
}

/// A fill and the edge around it, each at its own strength times an opacity.
pub open spec fn panel(geom: Geom, density: int, rect: RoundRect, o: int) -> Seq<Shape> {
    seq![
        Shape::Fill {
            rect,
            ink: Ink { color: geom.fill, alpha: alpha(geom.fill_a * o, 1_000_000) },
        },
        Shape::Edge {
            rect,
            width: border_of(geom, density) as i128,
            ink: Ink { color: geom.border, alpha: alpha(geom.border_a * o, 1_000_000) },
        },
    ]
}

fn push_panel(out: &mut Vec<Shape>, geom: &Geom, density: u32, rect: RoundRect, o: i32)
    requires
        0 <= o <= UNIT,
    ensures
        final(out)@ == old(out)@ + panel(*geom, density as int, rect, o as int),
        rect.near() && all_near(old(out)@) ==> all_near(final(out)@),
{
    proof {
        lemma_product(geom.fill_a as int, o as int, 0x8000_0000, 1000);
        lemma_product(geom.border_a as int, o as int, 0x8000_0000, 1000);
    }
    out.push(
        Shape::Fill {
            rect,
            ink: Ink {
                color: geom.fill,
                alpha: alpha_of(geom.fill_a as i128 * o as i128, 1_000_000),
            },
        },
    );
    out.push(
        Shape::Edge {
            rect,
            width: border(geom, density),
            ink: Ink {
                color: geom.border,
                alpha: alpha_of(geom.border_a as i128 * o as i128, 1_000_000),
            },
        },
    );
    assert(out@ =~= old(out)@ + panel(*geom, density as int, rect, o as int));
}

/// A button of the first `n` that stands beside the body, where there is any of it
/// to see.
pub open spec fn flankers(geom: Geom, density: int, n: int) -> Seq<Shape>
    decreases n,
{
    if n <= 0 {
        Seq::empty()
    } else {
        let rect = island_of(geom, density, n - 1);
        let before = flankers(geom, density, n - 1);
        if n - 1 == CENTRE || rect.w <= 0 || rect.h <= 0 {
            before
        } else {
            before + panel(geom, density, rect, opacity_of(geom.buttons as int))
        }
    }
}

/// What lies behind the body: the strip, once the bar has mostly unfolded, and the
/// buttons on either side.
pub open spec fn back_of(geom: Geom, density: int) -> Seq<Shape> {
    let strip = Shape::Strip {
        rect: centred(
            0,
            0,
            scaled(bar::bar_span() * UNIT, density),
            scaled(BAR_H * UNIT, density),
            0,
        ),
    };
    if geom.buttons <= 0 {
        Seq::empty()
    } else {
        (if 2 * geom.buttons < UNIT {
            Seq::empty()
        } else {
            seq![strip]
        }) + flankers(geom, density, BUTTON_COUNT as int)
    }
}

fn push_back(out: &mut Vec<Shape>, geom: &Geom, density: u32)
    ensures
        final(out)@ == old(out)@ + back_of(*geom, density as int),
        all_near(old(out)@) ==> all_near(final(out)@),
{
    if geom.buttons <= 0 {
        assert(out@ =~= old(out)@ + back_of(*geom, density as int));
        return;
    }
    if geom.buttons >= UNIT / 2 {
        proof {
            bar::lemma_centres_are_near(0);
        }
        let w: i128 = scale(bar_width() * UNIT, density);
        let h: i128 = scale(BAR_H * UNIT, density);
        out.push(Shape::Strip { rect: around(0, 0, w, h, 0) });
    }
    let ghost behind = out@;
    let mut i: usize = 0;
    assert(behind =~= behind + flankers(*geom, density as int, 0));
    while i < BUTTON_COUNT
        invariant
            i <= BUTTON_COUNT,
            out@ == behind + flankers(*geom, density as int, i as int),
            all_near(old(out)@) ==> all_near(out@),
        decreases BUTTON_COUNT - i,
    {
        let rect = island(geom, density, i);
        if i != CENTRE && rect.w > 0 && rect.h > 0 {
            push_panel(out, geom, density, rect, opacity(geom.buttons));
        }
        i += 1;
        assert(out@ =~= behind + flankers(*geom, density as int, i as int));
    }
    assert(out@ =~= old(out)@ + back_of(*geom, density as int));
}

/// The state of the button at `i`: unlit and live where nothing is said of it.
pub open spec fn slot_at(slots: Seq<Slot>, i: int) -> Slot {
    if i < slots.len() {
        slots[i]
    } else {
        Slot { hover: 0, enabled: true }
    }
}

/// The indicator's strength.
pub open spec fn hover_of(geom: Geom, slot: Slot) -> int {
    at_most(slot.hover * geom.buttons, FULL as int)
}

/// The hovered button's fill, inside its island: a shape inside a shape.
pub open spec fn indicator_of(geom: Geom, density: int, i: int, slot: Slot) -> Seq<Shape> {
    let island = island_of(geom, density, i);
    let inset = 2 * scaled(INDICATOR_INSET as int, density);
    let (w, h) = (island.w - inset, island.h - inset);
    if hover_of(geom, slot) <= 0 || w <= 0 || h <= 0 {
        Seq::empty()
    } else {
        seq![
            Shape::Fill {
                rect: centred(island_x(geom, density, i), 0, w, h, h / 2),
                ink: Ink {
                    color: Rgb(255, 255, 255),
                    alpha: alpha(INDICATOR_A * hover_of(geom, slot), FULL as int),
                },
            },
        ]
    }
}

/// A glyph's strength: seven tenths of it always, the rest as it is hovered; faint
/// where the button cannot be pressed.
pub open spec fn emphasis_of(slot: Slot) -> int {
    if slot.enabled {
        GLYPH_IDLE + 300 * geom::clamped(slot.hover as int)
    } else {
        GLYPH_DISABLED as int
    }
}

/// A button's icon, in the middle of its island.
pub open spec fn glyph_of(geom: Geom, density: int, i: int, slot: Slot) -> Shape {
    Shape::Glyph {
        icon: bar::icon_of(i),
        x: island_x(geom, density, i) as i128,
        side: GLYPH_BOX,
        ink: Ink {
            color: Rgb(255, 255, 255),
            alpha: alpha(
                255 * (emphasis_of(slot) * opacity_of(geom.buttons as int)),
                1_000_000_000_000_000,
            ),
        },
    }
}

/// What lies on top of the first `n` islands: an indicator, and the icon on it.
pub open spec fn fronts(geom: Geom, density: int, slots: Seq<Slot>, n: int) -> Seq<Shape>
    decreases n,
{
    if n <= 0 {
        Seq::empty()
    } else {
        let slot = slot_at(slots, n - 1);
        fronts(geom, density, slots, n - 1) + indicator_of(geom, density, n - 1, slot).push(
            glyph_of(geom, density, n - 1, slot),
        )
    }
}

fn push_indicator(out: &mut Vec<Shape>, geom: &Geom, density: u32, i: usize, slot: Slot)
    requires
        i < BUTTON_COUNT,
        geom.buttons > 0,
    ensures
        final(out)@ == old(out)@ + indicator_of(*geom, density as int, i as int, slot),
        all_near(old(out)@) ==> all_near(final(out)@),
{
    let shape = island(geom, density, i);
    let x: i128 = slid(geom, density, i);
    let inset: i128 = 2 * scale(INDICATOR_INSET, density);
    let (w, h) = (shape.w - inset, shape.h - inset);
    proof {
        lemma_product(slot.hover as int, geom.buttons as int, FAR as int, 0x8000_0000);
    }
    let all: i128 = slot.hover as i128 * geom.buttons as i128;
    let strength: i128 = if all > FULL {
        FULL
    } else {
        all
    };
    if strength > 0 && w > 0 && h > 0 {
        proof {
            lemma_product(INDICATOR_A as int, strength as int, 1000, FULL as int);
        }
        let alpha = alpha_of(INDICATOR_A as i128 * strength, FULL);
        let rect = around(x, 0, w, h, h / 2);
        out.push(Shape::Fill { rect, ink: Ink { color: Rgb(255, 255, 255), alpha } });
    }
    assert(out@ =~= old(out)@ + indicator_of(*geom, density as int, i as int, slot));
}

fn glyph(geom: &Geom, density: u32, i: usize, slot: Slot) -> (s: Shape)
    requires
        i < BUTTON_COUNT,
    ensures
        s == glyph_of(*geom, density as int, i as int, slot),
{
    let hover: u64 = if slot.hover > WHOLE {
        WHOLE
    } else {
        slot.hover
    };
    let emphasis: i128 = if slot.enabled {
        GLYPH_IDLE + 300 * hover as i128
    } else {
        GLYPH_DISABLED
    };
    let o: i32 = opacity(geom.buttons);
    proof {
        lemma_product(emphasis as int, o as int, 1_000_000_000_000, 1000);
    }
    let alpha = alpha_of(255 * (emphasis * o as i128), 1_000_000_000_000_000);
    let ink = Ink { color: Rgb(255, 255, 255), alpha };
    Shape::Glyph { icon: button(i).icon, x: slid(geom, density, i), side: GLYPH_BOX, ink }
}

/// The width that is left to the bar row: the body's, less what cancel and confirm
/// have claimed of it.
pub open spec fn row_span(geom: Geom, density: int) -> int {
    at_least(
        scaled(geom.w as int, density) - (2 * CHECK_CLAIM) * scaled(
            opacity_of(geom.check as int),
            density,
        ),
        0,
    )
}

/// The width that is left to the bar row.
pub fn row_room(geom: &Geom, density: u32) -> (r: i128)
    ensures
        r == row_span(*geom, density as int),
        0 <= r <= FAR,
{
    let both: i128 = 2 * CHECK_CLAIM as i128;
    let share: i128 = scale(opacity(geom.check), density);
    proof {
        lemma_product(both as int, share as int, 100, FAR as int);
    }
    let claimed: i128 = both * share;
    let left: i128 = scale(geom.w, density) - claimed;
    if left < 0 {
        0
    } else {
        left
    }
}

/// The bar row of a look: its body's, squeezed into the width that is left to it.
pub open spec fn row_in(geom: Geom, density: int, count: int) -> Bars {
    squeezed(
        row_of(inner(geom.w as int, geom, density), inner(geom.h as int, geom, density)),
        row_span(geom, density),
        count,
    )
}

/// Where the check button at `i` is: measured inward from whatever end the body has
/// now.
pub open spec fn check_x(geom: Geom, density: int, i: int) -> int {
    let reach = geom.w * density - scaled(CHECK_INSET * UNIT, density);
    if i == 0 {
        0 - reach
    } else {
        reach
    }
}

/// The strength of a check button's disc, in thousandths: confirm is filled, because
/// it is the default; cancel is barely there.
pub open spec fn disc_of(i: int) -> int {
    if bar::check_action_of(i) == Action::Confirm {
        940
    } else {
        100
    }
}

/// A check button: its disc, and its icon, which confirm has knocked out of the disc
/// in the body's colour.
pub open spec fn check_of(geom: Geom, density: int, i: int) -> Seq<Shape> {
    let x = check_x(geom, density, i);
    let side = scaled(CHECK_BUTTON * UNIT, density);
    let o = opacity_of(geom.check as int);
    seq![
        Shape::Fill {
            rect: centred(x, 0, side, side, side / 2),
            ink: Ink { color: Rgb(255, 255, 255), alpha: alpha(255 * disc_of(i) * o, 1_000_000) },
        },
        Shape::Glyph {
            icon: bar::check_icon_of(i),
            x: x as i128,
            side: CHECK_GLYPH_BOX,
            ink: Ink {
                color: if bar::check_action_of(i) == Action::Confirm {
                    geom.fill
                } else {
                    Rgb(255, 255, 255)
                },
                alpha: alpha(255 * o, UNIT as int),
            },
        },
    ]
}

/// Cancel and confirm, where the look has them.
pub open spec fn checks(geom: Geom, density: int) -> Seq<Shape> {
    if geom.check <= 0 {
        Seq::empty()
    } else {
        check_of(geom, density, 0) + check_of(geom, density, 1)
    }
}

fn push_check(out: &mut Vec<Shape>, geom: &Geom, density: u32, i: usize)
    requires
        i < CHECK_COUNT,
    ensures
        final(out)@ == old(out)@ + check_of(*geom, density as int, i as int),
        all_near(old(out)@) ==> all_near(final(out)@),
{
    proof {
        lemma_product(geom.w as int, density as int, 0x8000_0000, 0x1_0000_0000);
    }
    let reach: i128 = geom.w as i128 * density as i128 - scale(CHECK_INSET * UNIT, density);
    let x: i128 = if i == 0 {
        0 - reach
    } else {
        reach
    };
    let side: i128 = scale(CHECK_BUTTON * UNIT, density);
    let o: i32 = opacity(geom.check);
    let b = check_button(i);
    let confirm = b.action == Action::Confirm;
    let disc: i128 = if confirm {
        940
    } else {
        100
    };
    assert(disc * o <= 940_000 && 0 <= disc * o) by (nonlinear_arith)
        requires
            0 <= disc <= 940,
            0 <= o <= 1000,
    ;
    assert(255 * disc * o == 255 * (disc * o)) by (nonlinear_arith);
    let rect = around(x, 0, side, side, side / 2);
    let fill = alpha_of(255 * (disc * o as i128), 1_000_000);
    out.push(Shape::Fill { rect, ink: Ink { color: Rgb(255, 255, 255), alpha: fill } });
    let color = if confirm {
        geom.fill
    } else {
        Rgb(255, 255, 255)
    };
    let mark = alpha_of(255 * o as i128, UNIT as i128);
    let ink = Ink { color, alpha: mark };
    out.push(Shape::Glyph { icon: b.icon, x, side: CHECK_GLYPH_BOX, ink });
    assert(out@ =~= old(out)@ + check_of(*geom, density as int, i as int));
}

fn push_checks(out: &mut Vec<Shape>, geom: &Geom, density: u32)
    ensures
        final(out)@ == old(out)@ + checks(*geom, density as int),
        all_near(old(out)@) ==> all_near(final(out)@),
{
    if geom.check > 0 {
        push_check(out, geom, density, 0);
        push_check(out, geom, density, 1);
    }
    assert(out@ =~= old(out)@ + checks(*geom, density as int));
}

/// There is a body, and a bar row to draw on it.
pub open spec fn has_row(geom: Geom, density: int, count: int) -> bool {
    &&& inner(geom.w as int, geom, density) > 0
    &&& inner(geom.h as int, geom, density) > 0
    &&& geom.bars > 0 && count > 0 && row_in(geom, density, count).bar_w > 0
}

/// The bar row, at its strength.
pub open spec fn bars_of(geom: Geom) -> Shape {
    Shape::Bars { alpha: alpha(BARS_A * opacity_of(geom.bars as int), UNIT as int) }
}

fn row_shape(geom: &Geom) -> (s: Shape)
    ensures
        s == bars_of(*geom),
{
    let o: i32 = opacity(geom.bars);
    proof {
        lemma_product(BARS_A as int, o as int, 1000, 1000);
    }
    Shape::Bars { alpha: alpha_of(BARS_A as i128 * o as i128, UNIT as i128) }
}

/// The body, where there is any, and everything behind it and on it.
pub open spec fn pill_of(geom: Geom, density: int, count: int, slots: Seq<Slot>) -> Seq<Shape> {
    let body = island_of(geom, density, CENTRE as int);
    let row = seq![bars_of(geom)];
    if body.w <= 0 || body.h <= 0 {
        Seq::empty()
    } else {
        back_of(geom, density) + panel(geom, density, body, UNIT as int) + (if has_row(
            geom,
            density,
            count,
        ) {
            row
        } else {
            Seq::empty()
        }) + checks(geom, density) + (if geom.buttons > 0 {
            fronts(geom, density, slots, BUTTON_COUNT as int)
        } else {
            Seq::empty()
        })
    }
}

/// A frame of the pill.
pub struct Picture {
    /// What is drawn, from the back to the front.
    pub shapes: Vec<Shape>,
    /// The bars of the row, which is drawn where [`Shape::Bars`] stands.
    pub bars: Vec<RoundRect>,
}

/// What the label is drawn from: how far it has faded, and how wide its texts are,
/// where there is anything of them to draw.
#[derive(Clone, Copy, Debug)]
pub struct Caption {
    pub fade: Fade,
    pub from: Option<i128>,
    pub to: Option<i128>,
}

impl Caption {
    /// No text is negatively wide, nor too wide to be reckoned with.
    pub open spec fn wf(self) -> bool {
        &&& self.from matches Some(a) ==> 0 <= a <= ROOM
        &&& self.to matches Some(b) ==> 0 <= b <= ROOM
    }
}

/// Composes one frame: the label, which has a surface of its own and is there
/// whatever the body is, and then the pill.
pub fn compose(
    geom: &Geom,
    density: u32,
    amps: &Vec<u64>,
    slots: &Vec<Slot>,
    caption: &Caption,
) -> (r: Picture)
    requires
        caption.wf(),
    ensures
        r.shapes@ == label_of(
            caption.fade,
            caption.from,
            caption.to,
            geom.h as int,
            density as int,
        ) + pill_of(*geom, density as int, amps@.len() as int, slots@),
        all_near(r.shapes@),
        forall|i: int| 0 <= i < r.bars@.len() ==> (#[trigger] r.bars@[i]).near(),
        r.bars@ == if has_row(*geom, density as int, amps@.len() as int) {
            bars_at(row_in(*geom, density as int, amps@.len() as int), amps@)
        } else {
            Seq::empty()
        },
{
    let mut shapes: Vec<Shape> = Vec::new();
    let mut bars: Vec<RoundRect> = Vec::new();
    push_label(&mut shapes, &caption.fade, caption.from, caption.to, geom.h, density);
    let ghost above = shapes@;
    let body = island(geom, density, CENTRE);
    if body.w <= 0 || body.h <= 0 {
        return Picture { shapes, bars };
    }
    push_back(&mut shapes, geom, density);
    push_panel(&mut shapes, geom, density, body, UNIT);
    if geom.bars > 0 && amps.len() > 0 {
        let span: i128 = row_room(geom, density);
        let row = Bars::new(body.w, body.h).fitted(span, amps.len());
        if row.bar_w > 0 {
            proof {
                law_a_squeezed_row_fits(
                    row_of(body.w as int, body.h as int),
                    span as int,
                    amps@.len() as int,
                );
            }
            bars = bar_row(&row, amps);
            shapes.push(row_shape(geom));
        }
    }
    push_checks(&mut shapes, geom, density);
    let ghost under = shapes@;
    if geom.buttons > 0 {
        let mut i: usize = 0;
        assert(under =~= under + fronts(*geom, density as int, slots@, 0));
        while i < BUTTON_COUNT
            invariant
                i <= BUTTON_COUNT,
                geom.buttons > 0,
                all_near(shapes@),
                shapes@ == under + fronts(*geom, density as int, slots@, i as int),
            decreases BUTTON_COUNT - i,
        {
            let slot = if i < slots.len() {
                slots[i]
            } else {
                Slot { hover: 0, enabled: true }
            };
            push_indicator(&mut shapes, geom, density, i, slot);
            shapes.push(glyph(geom, density, i, slot));
            i += 1;
            assert(shapes@ =~= under + fronts(*geom, density as int, slots@, i as int));
        }
    }
    assert(shapes@ =~= above + pill_of(*geom, density as int, amps@.len() as int, slots@));
    Picture { shapes, bars }
}

/// Nothing of a shape can be seen.
pub open spec fn unseen(s: Shape) -> bool {
    match s {
        Shape::Fill { ink, .. } => ink.alpha == 0,
        Shape::Edge { ink, .. } => ink.alpha == 0,
        Shape::Strip { .. } => false,
        Shape::Bars { alpha } => alpha == 0,
        Shape::Glyph { ink, .. } => ink.alpha == 0,
        Shape::Words { alpha, .. } => alpha == 0,
    }
}

/// A look with no light in it puts nothing on screen.
pub proof fn law_an_unlit_look_draws_nothing(
    geom: Geom,
    density: int,
    count: int,
    slots: Seq<Slot>,
    i: int,
)
    requires
        geom.fill_a <= 0,
        geom.border_a <= 0,
        geom.bars <= 0,
        geom.buttons <= 0,
        geom.check <= 0,
        0 <= i < pill_of(geom, density, count, slots).len(),
    ensures
        unseen(pill_of(geom, density, count, slots)[i]),
{
}

/// A look whose body is lost to its edge draws nothing, whatever it says of its rows
/// and buttons.
pub proof fn law_no_body_no_pill(geom: Geom, density: int, count: int, slots: Seq<Slot>)
    requires
        inner(geom.w as int, geom, density) == 0 || inner(geom.h as int, geom, density) == 0,
    ensures
        pill_of(geom, density, count, slots) == Seq::<Shape>::empty(),
{
}

/// Without hover and acknowledgement there is no label at all, and neither is there
/// one without anything to read in it.
pub proof fn law_nothing_to_say_draws_no_label(
    fade: Fade,
    from: Option<i128>,
    to: Option<i128>,
    body_h: int,
    density: int,
)
    requires
        (fade.from is None && fade.to is None) || (from is None && to is None),
    ensures
        label_of(fade, from, to, body_h, density) == Seq::<Shape>::empty(),
{
}

/// A crossfade is one chip, not two: behind its fill and its edge there is nothing
/// but the words in it.
pub proof fn law_a_crossfade_is_one_chip(
    fade: Fade,
    from: Option<i128>,
    to: Option<i128>,
    body_h: int,
    density: int,
    i: int,
)
    requires
        0 <= i < label_of(fade, from, to, body_h, density).len(),
    ensures
        label_of(fade, from, to, body_h, density).len() <= 4,
        i == 0 <==> label_of(fade, from, to, body_h, density)[i] is Fill,
        i == 1 <==> label_of(fade, from, to, body_h, density)[i] is Edge,
        i >= 2 <==> label_of(fade, from, to, body_h, density)[i] is Words,
{
}

/// The chip's text is never narrower than the narrower of the two texts, nor wider
/// than the wider.
pub proof fn law_the_chip_is_sized_to_its_text(a: i128, b: i128, t: int)
    requires
        0 <= a,
        0 <= b,
    ensures
        text_width(Some(a), None, t) == Some(a as int),
        text_width(None, Some(b), t) == Some(b as int),
        text_width(Some(a), Some(b), t) matches Some(w) && geom::between(a as int, b as int, w),
{
    let s = geom::clamped(t);
    let x = a * (WHOLE - s) + b * s;
    assert(a <= b ==> a * WHOLE <= x && x <= b * WHOLE) by (nonlinear_arith)
        requires
            0 <= s <= WHOLE,
            x == a * (WHOLE - s) + b * s,
    ;
    assert(b <= a ==> b * WHOLE <= x && x <= a * WHOLE) by (nonlinear_arith)
        requires
            0 <= s <= WHOLE,
            x == a * (WHOLE - s) + b * s,
    ;
}

/// The buttons set out from behind the middle one, never turn back while they
/// unfold, and end up where the bar has them.
pub proof fn law_the_flankers_slide_out(geom: Geom, further: Geom, density: int, i: int)
    requires
        0 <= i < BUTTON_COUNT,
        density >= 0,
        geom.buttons <= further.buttons,
    ensures
        geom.buttons <= 0 ==> island_x(geom, density, i) == 0,
        geom.buttons >= UNIT ==> island_x(geom, density, i) == scaled(
            UNIT * bar::centre_twice(i) / 2,
            density,
        ),
        i < CENTRE ==> island_x(further, density, i) <= island_x(geom, density, i) <= 0,
        i == CENTRE ==> island_x(geom, density, i) == 0,
        i > CENTRE ==> 0 <= island_x(geom, density, i) <= island_x(further, density, i),
{
    let (o, p) = (opacity_of(geom.buttons as int), opacity_of(further.buttons as int));
    let c = bar::centre_twice(i);
    bar::lemma_centres_are_near(i);
    assert(density * o <= density * p && 0 <= density * o) by (nonlinear_arith)
        requires
            0 <= o <= p,
            0 <= density,
    ;
    let (x, y) = (density * o, density * p);
    assert((c <= 0 ==> c * y <= c * x && c * x <= 0) && (c >= 0 ==> 0 <= c * x && c * x <= c * y))
        by (nonlinear_arith)
        requires
            0 <= x <= y,
    ;
    assert(geom.buttons <= 0 ==> c * (density * o) == 0) by (nonlinear_arith)
        requires
            geom.buttons <= 0 ==> o == 0,
    ;
    assert(c * (density * 1000) == 2 * ((500 * c) * density)) by (nonlinear_arith);
}

/// A button that nothing hovers has no indicator.
pub proof fn law_only_a_hovered_button_is_lit(geom: Geom, density: int, i: int, slot: Slot)
    requires
        geom.buttons > 0,
        slot.hover == 0,
    ensures
        indicator_of(geom, density, i, slot) == Seq::<Shape>::empty(),
{
}

/// A button that cannot be pressed is fainter than any that can, and hovering brings
/// out one that can.
pub proof fn law_a_dead_button_is_faint(dead: Slot, live: Slot, hovered: Slot)
    requires
        !dead.enabled,
        live.enabled,
        hovered.enabled,
        live.hover <= hovered.hover,
    ensures
        2 * emphasis_of(dead) <= emphasis_of(live) <= emphasis_of(hovered) <= FULL,
{
}

/// With cancel and confirm at full strength the bar row stays between them: it is no
/// wider than what they leave, and that ends before either disc begins.
pub proof fn law_the_row_clears_the_check(geom: Geom, density: int, count: int)
    requires
        geom.check >= UNIT,
        geom.w >= 2 * CHECK_CLAIM * UNIT,
        0 <= density <= u32::MAX,
    ensures
        ({
            let span = span_of(row_in(geom, density, count), count);
            &&& 0 <= span <= scaled(geom.w - 2 * CHECK_CLAIM * UNIT, density)
            &&& span <= 2 * check_x(geom, density, 1) - scaled(CHECK_BUTTON * UNIT, density)
            &&& check_x(geom, density, 0) == -check_x(geom, density, 1)
        }),
{
    lemma_inner_is_near(geom.w, geom, density);
    lemma_inner_is_near(geom.h, geom, density);
    let (w, h) = (inner(geom.w as int, geom, density), inner(geom.h as int, geom, density));
    lemma_row_is_wf(w, h);
    law_a_squeezed_row_fits(row_of(w, h), row_span(geom, density), count);
    assert(opacity_of(geom.check as int) == 1000);
    assert(scaled(1000, density) == 2000 * density) by (nonlinear_arith);
    assert((2 * CHECK_CLAIM) * scaled(1000, density) == 156_000 * density) by (nonlinear_arith)
        requires
            scaled(1000, density) == 2000 * density,
            CHECK_CLAIM == 39,
    ;
    assert(2 * CHECK_CLAIM * UNIT == 78_000);
    assert(scaled(CHECK_INSET * UNIT, density) == 34_000 * density) by (nonlinear_arith)
        requires
            CHECK_INSET == 17,
            UNIT == 1000,
    ;
    assert(scaled(CHECK_BUTTON * UNIT, density) == 40_000 * density) by (nonlinear_arith)
        requires
            CHECK_BUTTON == 20,
            UNIT == 1000,
    ;
    assert((geom.w - 78_000) * density == geom.w * density - 78_000 * density) by (nonlinear_arith);
    assert(0 <= (geom.w - 78_000) * density) by (nonlinear_arith)
        requires
            geom.w >= 78_000,
            density >= 0,
    ;
}

proof fn lemma_inner_is_near(side: i32, geom: Geom, density: int)
    requires
        0 <= density <= u32::MAX,
    ensures
        0 <= inner(side as int, geom, density) <= FAR,
{
    lemma_product(side as int, density, 0x8000_0000, 0x1_0000_0000);
}

proof fn lemma_row_is_wf(w: int, h: int)
    requires
        0 <= w <= FAR,
        0 <= h <= FAR,
    ensures
        row_of(w, h).wf(),
{
}

/// At every density at which a device pixel is at most two logical ones, the envelope has
/// room for the label: above a body that is no higher than the bar, a chip whose text is
/// no wider than 102 logical pixels lies wholly in the window, its edge included, and
/// clear of the body. That holds where rounding took up to a logical pixel off the
/// window's height, too.
pub proof fn law_the_label_stays_in_the_envelope(
    text_w: int,
    light: int,
    body_h: int,
    height: int,
    density: int,
)
    requires
        48 <= density <= u32::MAX,
        0 <= body_h <= BAR_H * UNIT,
        0 <= text_w <= scaled(102 * UNIT, density),
        height * PX + scaled(UNIT as int, density) >= scaled(ENVELOPE_H * UNIT, density),
    ensures
        ({
            let chip = chip_of(text_w, light, body_h, density);
            let rect = chip[1]->Edge_rect;
            let edge = chip[1]->Edge_width;
            let centre = pill_centre(height, density);
            &&& chip[0]->Fill_rect == rect
            &&& 0 <= 2 * (centre + rect.y) - edge
            &&& 2 * (rect.y + rect.h) + edge <= 0 - scaled(body_h, density)
            &&& 0 - scaled(ENVELOPE_W * UNIT, density) <= 2 * rect.x - edge
            &&& 2 * (rect.x + rect.w) + edge <= scaled(ENVELOPE_W * UNIT, density)
        }),
{
    let d = density;
    lemma_product(body_h, d, 32_000, u32::MAX as int);
    assert(scaled(ENVELOPE_H * UNIT, d) == 128_000 * d) by (nonlinear_arith)
        requires
            ENVELOPE_H == 64,
            UNIT == 1000,
    ;
    assert(scaled(ENVELOPE_W * UNIT, d) == 248_000 * d) by (nonlinear_arith)
        requires
            ENVELOPE_W == 124,
            UNIT == 1000,
    ;
    assert(scaled(PILL_BAND_H * UNIT, d) == 72_000 * d) by (nonlinear_arith)
        requires
            PILL_BAND_H == 36,
            UNIT == 1000,
    ;
    assert(scaled(102 * UNIT, d) == 204_000 * d) by (nonlinear_arith)
        requires
            UNIT == 1000,
    ;
    assert(scaled(LABEL_H as int, d) == 44_000 * d) by (nonlinear_arith)
        requires
            LABEL_H == 22_000,
    ;
    assert(scaled(LABEL_PAD_X as int, d) == 20_000 * d) by (nonlinear_arith)
        requires
            LABEL_PAD_X == 10_000,
    ;
    assert(scaled(LABEL_GAP as int, d) == 12_000 * d) by (nonlinear_arith)
        requires
            LABEL_GAP == 6_000,
    ;
    assert(scaled(UNIT as int, d) == 2_000 * d) by (nonlinear_arith)
        requires
            UNIT == 1000,
    ;
    assert(body_h * d <= 32_000 * d) by (nonlinear_arith)
        requires
            body_h <= 32_000,
            d >= 0,
    ;
}

/// At 96 dots per inch a logical pixel is a device pixel, and lengths grow evenly with the
/// density and with what they measure.
pub proof fn law_lengths_grow_with_the_density(x: int, y: int, density: int)
    ensures
        scaled(1000, 96) == PX,
        scaled(x + y, density) == scaled(x, density) + scaled(y, density),
        scaled(x, 2 * density) == 2 * scaled(x, density),
{
    assert((x + y) * density == x * density + y * density) by (nonlinear_arith);
    assert(x * (2 * density) == 2 * (x * density)) by (nonlinear_arith);
}

/// A strength becomes the alpha that it reaches, rounded down: none below nothing, and all
/// of it from there on where it is full.
pub proof fn law_strengths_become_alphas(x: int, unit: int)
    requires
        unit > 0,
    ensures
        x <= 0 ==> alpha(x, unit) == 0,
        x >= 255 * unit ==> alpha(x, unit) == 255,
        0 <= x <= 255 * unit ==> alpha(x, unit) * unit <= x < (alpha(x, unit) + 1) * unit,
{
    let kept = at_most(at_least(x, 0), 255 * unit);
    let q = kept / unit;
    vstd::arithmetic::div_mod::lemma_fundamental_div_mod(kept, unit);
    vstd::arithmetic::div_mod::lemma_mod_bound(kept, unit);
    assert(0 <= kept <= 255 * unit);
    assert(q * unit <= kept < (q + 1) * unit) by (nonlinear_arith)
        requires
            kept == unit * q + kept % unit,
            0 <= kept % unit < unit,
    ;
    assert(0 <= q <= 255) by (nonlinear_arith)
        requires
            q * unit <= kept < (q + 1) * unit,
            0 <= kept <= 255 * unit,
            unit > 0,
    ;
    if x <= 0 {
        assert(kept == 0);
        vstd::arithmetic::div_mod::lemma_div_basics(unit);
    }
    if x >= 255 * unit {
        assert(255 * unit >= 0);
        assert(q == 255) by (nonlinear_arith)
            requires
                q * unit <= kept < (q + 1) * unit,
                kept == 255 * unit,
                unit > 0,
        ;
    }
}

/// The edge is as wide as the look says, and never thinner than a device pixel. It takes
/// its own width and two logical pixels of a side, and nothing where that is all there is.
pub proof fn law_what_the_edge_takes(geom: Geom, side: int, density: int)
    ensures
        ({
            let wide = 2 * (geom.border_w * density);
            let edge = border_of(geom, density);
            let left = 2 * (side * density) - edge - 4000 * density;
            &&& wide >= PX ==> edge == wide
            &&& wide < PX ==> edge == PX
            &&& left >= 0 ==> inner(side, geom, density) == left
            &&& left < 0 ==> inner(side, geom, density) == 0
        }),
{
    assert(scaled(1000, density) == 2000 * density) by (nonlinear_arith);
}

/// The bars of a row: each and each gap five parts in 172 of the width, rounded down; the
/// tallest 32 parts in 42 of the height; and the shortest two and a half times as high as
/// wide, unless the tallest is lower than that.
pub proof fn law_how_a_row_is_measured(body_w: int, body_h: int)
    requires
        0 <= body_w <= FAR,
        0 <= body_h <= FAR,
    ensures
        ({
            let r = row_of(body_w, body_h);
            &&& 172 * r.bar_w <= 5 * body_w < 172 * (r.bar_w + 1)
            &&& r.bar_gap == r.bar_w
            &&& 42 * r.bar_max_h <= 32 * body_h < 42 * (r.bar_max_h + 1)
            &&& 5 * r.bar_w <= 2 * r.bar_max_h ==> 2 * r.bar_min_h <= 5 * r.bar_w < 2 * (r.bar_min_h
                + 1)
            &&& 5 * r.bar_w >= 2 * (r.bar_max_h + 1) ==> r.bar_min_h == r.bar_max_h
        }),
{
}

/// A row that fits is left as it is. One that does not is narrowed by what it has too much,
/// bars and gaps alike, and keeps its heights.
pub proof fn law_what_squeezing_changes(bars: Bars, span: int, count: int)
    requires
        bars.wf(),
        0 <= span,
    ensures
        ({
            let have = span_of(bars, count);
            let r = squeezed(bars, span, count);
            &&& have <= span ==> r == bars
            &&& r.bar_min_h == bars.bar_min_h && r.bar_max_h == bars.bar_max_h
            &&& have > span ==> r.bar_w * have <= bars.bar_w * span < (r.bar_w + 1) * have
            &&& have > span ==> r.bar_gap * have <= bars.bar_gap * span < (r.bar_gap + 1) * have
        }),
{
    let have = span_of(bars, count);
    if have > span {
        lemma_share(bars.bar_w as int, span, have);
        lemma_share(bars.bar_gap as int, span, have);
        lemma_floor(bars.bar_w * span, have);
        lemma_floor(bars.bar_gap * span, have);
    }
}

proof fn lemma_floor(x: int, d: int)
    requires
        d > 0,
    ensures
        (x / d) * d <= x < (x / d + 1) * d,
{
    let q = x / d;
    vstd::arithmetic::div_mod::lemma_fundamental_div_mod(x, d);
    vstd::arithmetic::div_mod::lemma_mod_bound(x, d);
    assert(q * d <= x < (q + 1) * d) by (nonlinear_arith)
        requires
            x == d * q + x % d,
            0 <= x % d < d,
    ;
}

/// A row of bars is as wide as they and the gaps between them; there is no gap at its end.
pub proof fn law_how_wide_a_row_is(bars: Bars, count: int)
    requires
        count > 0,
    ensures
        span_of(bars, 0) == 0,
        span_of(bars, 1) == bars.bar_w,
        span_of(bars, count + 1) == span_of(bars, count) + bars.bar_gap + bars.bar_w,
{
    assert((count + 1) * bars.bar_w == count * bars.bar_w + bars.bar_w) by (nonlinear_arith);
    assert(count * bars.bar_gap == (count - 1) * bars.bar_gap + bars.bar_gap) by (nonlinear_arith);
}

/// A bar is as much higher than the lowest as the sound is loud, rounded down: the lowest
/// in silence, and the highest at full volume and past it. It is centred on the line.
pub proof fn law_bars_follow_the_sound(bars: Bars, count: int, i: int, amp: int)
    requires
        bars.wf(),
        0 <= amp,
    ensures
        ({
            let d = bars.bar_max_h - bars.bar_min_h;
            let up = bar_height(bars, amp) - bars.bar_min_h;
            &&& amp <= 1_000_000_000 ==> up * 1_000_000_000 <= amp * d < (up + 1) * 1_000_000_000
            &&& amp >= 1_000_000_000 ==> bar_height(bars, amp) == bars.bar_max_h
            &&& bar_height(bars, 0) == bars.bar_min_h
            &&& bar_at(bars, count, i, amp).h == bar_height(bars, amp)
            &&& bar_at(bars, count, i, amp).y == 0 - bar_height(bars, amp) / 2
            &&& bar_at(bars, count, i, amp).w == bars.bar_w
        }),
{
    let d = bars.bar_max_h - bars.bar_min_h;
    lemma_bar_height(bars, amp);
    lemma_bar_height(bars, 0);
    let t = geom::clamped(amp);
    lemma_floor(t * d, 1_000_000_000);
    assert(0 * d == 0) by (nonlinear_arith);
    if amp >= 1_000_000_000 {
        assert(1_000_000_000 * d / 1_000_000_000 == d);
    }
}

/// The bars of a row stand a bar and a gap apart, the first at the left end of the row,
/// which is centred.
pub proof fn law_bars_stand_evenly(bars: Bars, count: int, i: int, amp: int, next: int)
    requires
        bars.wf(),
        0 <= i,
        i + 1 < count,
        span_of(bars, count) <= FAR,
    ensures
        bar_at(bars, count, i + 1, next).x - bar_at(bars, count, i, amp).x == bars.bar_w
            + bars.bar_gap,
        bar_at(bars, count, 0, amp).x == 0 - span_of(bars, count) / 2,
{
    lemma_bar_starts(bars, count, i);
    lemma_bar_starts(bars, count, i + 1);
    lemma_bar_starts(bars, count, 0);
    let step = bars.bar_w + bars.bar_gap;
    assert((i + 1) * step == i * step + step) by (nonlinear_arith);
    assert(0 * step == 0) by (nonlinear_arith);
}

/// A radius is as asked for, or half of the shorter side where that is less. Corners of up
/// to half a pixel are sharp, and the others round.
pub proof fn law_corners_fit_their_rectangle(b: RoundRect)
    requires
        b.w >= 0,
        b.h >= 0,
    ensures
        ({
            let r = fitting(b.r as int, b.w as int, b.h as int);
            &&& 2 * r <= b.w && 2 * r <= b.h && r <= b.r
            &&& r == b.r || r == b.w / 2 || r == b.h / 2
            &&& 2 * r <= 192_000 ==> outline_of(b).len() == 5
            &&& 2 * r > 192_000 ==> outline_of(b).len() == 10
        }),
{
}

/// The way round a rectangle with sharp corners goes through all four, clockwise from the
/// top left; with round ones it goes along each side as far as the corners leave it.
pub proof fn law_an_outline_goes_all_the_way_round(b: RoundRect)
    requires
        b.near(),
        b.w >= 0,
        b.h >= 0,
    ensures
        ({
            let r = fitting(b.r as int, b.w as int, b.h as int);
            let at = |x: int, y: int| Point { x: x as i128, y: y as i128 };
            let (left, top, right, bottom) = (b.x as int, b.y as int, b.x + b.w, b.y + b.h);
            let way = outline_of(b);
            &&& way.last() == Stroke::Close
            &&& 2 * r <= PX ==> {
                &&& way[0] == Stroke::MoveTo(at(left, top))
                &&& way[1] == Stroke::LineTo(at(right, top))
                &&& way[2] == Stroke::LineTo(at(right, bottom))
                &&& way[3] == Stroke::LineTo(at(left, bottom))
            }
            &&& 2 * r > PX ==> {
                &&& way[0] == Stroke::MoveTo(at(left + r, top))
                &&& way[1] == Stroke::LineTo(at(right - r, top))
                &&& way[2] matches Stroke::CubicTo(_, _, p) && p == at(right, top + r)
                &&& way[3] == Stroke::LineTo(at(right, bottom - r))
                &&& way[4] matches Stroke::CubicTo(_, _, p) && p == at(right - r, bottom)
                &&& way[5] == Stroke::LineTo(at(left + r, bottom))
                &&& way[6] matches Stroke::CubicTo(_, _, p) && p == at(left, bottom - r)
                &&& way[7] == Stroke::LineTo(at(left, top + r))
                &&& way[8] matches Stroke::CubicTo(_, _, p) && p == at(left + r, top)
            }
        }),
{
}

/// A quarter circle's handles are 0.5522848 of its radius long, rounded down.
pub proof fn law_how_long_handles_are(r: int)
    ensures
        10_000_000 * handle(r) <= 5_522_848 * r < 10_000_000 * (handle(r) + 1),
{
}

/// The label's middle is half a body, six pixels and half a chip above the pill's.
pub proof fn law_where_the_label_hangs(body_h: int, density: int)
    ensures
        label_y(body_h, density) == 0 - (body_h * density + 12_000 * density + 22_000 * density),
{
    assert(scaled(LABEL_GAP as int, density) == 12_000 * density) by (nonlinear_arith)
        requires
            LABEL_GAP == 6_000,
    ;
    assert(scaled(LABEL_H as int, density) == 44_000 * density) by (nonlinear_arith)
        requires
            LABEL_H == 22_000,
    ;
}

/// The pill's centre is eighteen logical pixels above the bottom of its surface.
pub proof fn law_where_the_pill_sits(height: int, density: int)
    ensures
        height * PX - pill_centre(height, density) == scaled(18_000, density),
{
    assert(scaled(PILL_BAND_H * UNIT, density) == 72_000 * density) by (nonlinear_arith)
        requires
            PILL_BAND_H == 36,
            UNIT == 1000,
    ;
    assert(scaled(18_000, density) == 36_000 * density) by (nonlinear_arith);
}

/// While one text gives way to another the room for them moves evenly from the one's width
/// to the other's, rounded down.
pub proof fn law_the_chip_moves_evenly(a: i128, b: i128, t: int)
    requires
        0 <= t <= 1_000_000_000,
    ensures
        text_width(Some(a), Some(b), t) matches Some(w) && w * 1_000_000_000 <= a * (1_000_000_000
            - t) + b * t < (w + 1) * 1_000_000_000,
{
    lemma_floor(a * (1_000_000_000 - t) + b * t, 1_000_000_000);
}

/// The chip holds its text with ten pixels on either side, is twenty-two high and fully
/// round, and its fill and its edge are those of the pill at the label's light.
pub proof fn law_how_the_chip_looks(text_w: int, light: int, body_h: int, density: int)
    requires
        0 <= text_w <= ROOM,
        0 <= density <= u32::MAX,
        -0x8000_0000 <= body_h <= 0x7fff_ffff,
    ensures
        ({
            let chip = chip_of(text_w, light, body_h, density);
            &&& chip.len() == 2
            &&& chip[0] matches Shape::Fill { rect, ink } && {
                &&& rect.w == text_w + 40_000 * density
                &&& rect.h == 44_000 * density
                &&& rect.r == 22_000 * density
                &&& ink.color == Rgb(13, 13, 13)
                &&& ink.alpha == alpha(245 * light, 1_000_000_000)
            }
            &&& chip[1] matches Shape::Edge { rect, width, ink } && {
                &&& rect == chip[0]->Fill_rect
                &&& ink.color == Rgb(220, 224, 232)
                &&& ink.alpha == alpha(120 * light, 1_000_000_000)
            }
        }),
{
    assert(scaled(LABEL_PAD_X as int, density) == 20_000 * density) by (nonlinear_arith)
        requires
            LABEL_PAD_X == 10_000,
    ;
    assert(scaled(LABEL_H as int, density) == 44_000 * density) by (nonlinear_arith)
        requires
            LABEL_H == 22_000,
    ;
    lemma_product(body_h, density, 0x8000_0000, 0x1_0000_0000);
}

/// A text of the label is drawn where it is there and has any light, at that light; one
/// that has none is not.
pub proof fn law_only_lit_words_are_drawn(width: i128, light: int, incoming: bool, y: int)
    ensures
        words_of(None, light, incoming, y).len() == 0,
        light <= 0 ==> words_of(Some(width), light, incoming, y).len() == 0,
        light > 0 ==> words_of(Some(width), light, incoming, y) == seq![
            Shape::Words {
                incoming,
                y: y as i128,
                alpha: alpha(235 * light, 1_000_000_000),
            },
        ],
{
}

/// How strong a button's icon is: seven tenths at rest, all of it under the cursor, and
/// less than half of that where it cannot be pressed, cursor or not.
pub proof fn law_how_strong_an_icon_is(hover: u64)
    ensures
        emphasis_of(Slot { hover: 0, enabled: true }) * 10 == 7 * FULL,
        hover >= 1_000_000_000 ==> emphasis_of(Slot { hover, enabled: true }) == FULL,
        hover <= 1_000_000_000 ==> emphasis_of(Slot { hover, enabled: true }) == 700_000_000_000
            + 300 * hover,
        emphasis_of(Slot { hover, enabled: false }) * 100 == 35 * FULL,
{
}

/// An opacity stays between nothing and a thousand thousandths.
pub proof fn law_opacities_are_kept_in_range(x: int)
    ensures
        0 <= x <= 1000 ==> opacity_of(x) == x,
        x < 0 ==> opacity_of(x) == 0,
        x > 1000 ==> opacity_of(x) == 1000,
{
}

/// The strip behind the buttons is there once the bar has half unfolded, and spans the
/// whole bar; before that, and without the bar, it is not.
pub proof fn law_the_strip_spans_the_bar(geom: Geom, density: int)
    requires
        0 <= density <= u32::MAX,
    ensures
        geom.buttons <= 0 ==> back_of(geom, density).len() == 0,
        geom.buttons >= 500 ==> back_of(geom, density).len() > 0 && (back_of(
            geom,
            density,
        )[0] matches Shape::Strip { rect } && rect.w == 236_000 * density && rect.h == 64_000
            * density && rect.x == 0 - 118_000 * density && rect.y == 0 - 32_000 * density),
        0 < geom.buttons < 500 ==> back_of(geom, density) == flankers(geom, density, 3),
{
    bar::lemma_centres_are_near(0);
    assert(scaled(bar::bar_span() * UNIT, density) == 236_000 * density) by (nonlinear_arith)
        requires
            bar::bar_span() == 118,
            UNIT == 1000,
    ;
    assert(scaled(BAR_H * UNIT, density) == 64_000 * density) by (nonlinear_arith)
        requires
            BAR_H == 32,
            UNIT == 1000,
    ;
    assert(Seq::<Shape>::empty() + flankers(geom, density, 3) =~= flankers(geom, density, 3));
}

/// The pill's own body is the middle button: as large as the look says, inside its edge,
/// in the middle, and as round as the look asks for and its size allows.
pub proof fn law_the_body_is_the_middle_button(geom: Geom, density: int)
    requires
        0 <= density <= u32::MAX,
    ensures
        ({
            let b = island_of(geom, density, 1);
            let (w, h) = (
                inner(geom.w as int, geom, density),
                inner(geom.h as int, geom, density),
            );
            &&& b.w == w && b.h == h
            &&& b.x == 0 - w / 2 && b.y == 0 - h / 2
            &&& b.r == fitting(2 * (geom.radius * density), w, h)
        }),
{
    bar::lemma_centres_are_near(1);
    lemma_inner_is_near(geom.w, geom, density);
    lemma_inner_is_near(geom.h, geom, density);
    lemma_product(geom.radius as int, density, 0x8000_0000, 0x1_0000_0000);
    assert(0 * (density * opacity_of(geom.buttons as int)) == 0) by (nonlinear_arith);
}

/// The hovered button is filled three pixels inside its island, in white, at 28 of 255 by
/// the share of light that it has.
pub proof fn law_how_the_indicator_looks(geom: Geom, density: int, i: int, slot: Slot)
    requires
        0 <= i < 3,
        0 <= density <= u32::MAX,
        geom.buttons > 0,
        slot.hover > 0,
        island_of(geom, density, i).w > 12_000 * density,
        island_of(geom, density, i).h > 12_000 * density,
        island_of(geom, density, i).w <= FAR,
        island_of(geom, density, i).h <= FAR,
    ensures
        indicator_of(geom, density, i, slot).len() == 1,
        indicator_of(geom, density, i, slot)[0] matches Shape::Fill { rect, ink } && {
            &&& rect.w == island_of(geom, density, i).w - 12_000 * density
            &&& rect.h == island_of(geom, density, i).h - 12_000 * density
            &&& ink.color == Rgb(255, 255, 255)
            &&& ink.alpha == alpha(28 * hover_of(geom, slot), 1_000_000_000_000)
        },
        slot.hover * geom.buttons <= 1_000_000_000_000 ==> hover_of(geom, slot) == slot.hover
            * geom.buttons,
        slot.hover * geom.buttons > 1_000_000_000_000 ==> hover_of(geom, slot)
            == 1_000_000_000_000,
{
    assert(scaled(INDICATOR_INSET as int, density) == 6_000 * density) by (nonlinear_arith)
        requires
            INDICATOR_INSET == 3_000,
    ;
    assert(slot.hover * geom.buttons > 0) by (nonlinear_arith)
        requires
            slot.hover > 0,
            geom.buttons > 0,
    ;
}

/// Confirm is the filled one and stands on the right; cancel is barely there and stands on
/// the left. Both are discs of twenty pixels, seventeen from the ends of the body.
pub proof fn law_how_cancel_and_confirm_look(geom: Geom, density: int)
    requires
        0 <= density <= u32::MAX,
    ensures
        disc_of(0) == 100,
        disc_of(1) == 940,
        check_x(geom, density, 1) == geom.w * density - 34_000 * density,
        check_x(geom, density, 0) == 0 - check_x(geom, density, 1),
        geom.check <= 0 ==> checks(geom, density).len() == 0,
        geom.check > 0 ==> checks(geom, density).len() == 4,
        geom.check > 0 ==> (checks(geom, density)[1] matches Shape::Glyph { icon, side, ink, .. }
            && icon == Icon::X && side == 20 && ink.color == Rgb(255, 255, 255)),
        geom.check > 0 ==> (checks(geom, density)[3] matches Shape::Glyph { icon, side, ink, .. }
            && icon == Icon::Check && side == 20 && ink.color == geom.fill),
        geom.check >= 1000 ==> (checks(geom, density)[2] matches Shape::Fill { rect, ink }
            && rect.w == 40_000 * density && rect.h == 40_000 * density && ink.alpha == 239),
        geom.check >= 1000 ==> (checks(geom, density)[0] matches Shape::Fill { ink, .. }
            && ink.alpha == 25),
{
    assert(scaled(CHECK_INSET * UNIT, density) == 34_000 * density) by (nonlinear_arith)
        requires
            CHECK_INSET == 17,
            UNIT == 1000,
    ;
    assert(scaled(CHECK_BUTTON * UNIT, density) == 40_000 * density) by (nonlinear_arith)
        requires
            CHECK_BUTTON == 20,
            UNIT == 1000,
    ;
}

/// The bars are white at 235 of 255, by the row's opacity, and drawn where the body has
/// room for any and the row has light.
pub proof fn law_how_the_row_is_drawn(geom: Geom, density: int, count: int)
    ensures
        bars_of(geom) == (Shape::Bars {
            alpha: alpha(235 * opacity_of(geom.bars as int), 1000),
        }),
        geom.bars <= 0 ==> !has_row(geom, density, count),
        count <= 0 ==> !has_row(geom, density, count),
        has_row(geom, density, count) ==> inner(geom.w as int, geom, density) > 0 && inner(
            geom.h as int,
            geom,
            density,
        ) > 0,
{
}

/// A frame is built from the back: what lies behind the body, then its fill and its edge,
/// then the bars, then cancel and confirm, and then what is on the buttons.
pub proof fn law_a_frame_is_built_from_the_back(
    geom: Geom,
    density: int,
    count: int,
    slots: Seq<Slot>,
)
    requires
        0 <= density <= u32::MAX,
        inner(geom.w as int, geom, density) > 0,
        inner(geom.h as int, geom, density) > 0,
    ensures
        ({
            let all = pill_of(geom, density, count, slots);
            let n = back_of(geom, density).len() as int;
            let m = if has_row(geom, density, count) {
                n + 3
            } else {
                n + 2
            };
            &&& all.len() >= m
            &&& all[n] matches Shape::Fill { rect, ink } && rect == island_of(geom, density, 1)
                && ink.color == geom.fill
            &&& all[n + 1] matches Shape::Edge { rect, ink, .. } && rect == island_of(
                geom,
                density,
                1,
            ) && ink.color == geom.border
            &&& has_row(geom, density, count) ==> all[n + 2] is Bars
            &&& all.take(n) == back_of(geom, density)
            &&& geom.buttons <= 0 ==> all.skip(m) == checks(geom, density)
            &&& geom.buttons > 0 && geom.check <= 0 ==> all.skip(m) == fronts(
                geom,
                density,
                slots,
                3,
            )
        }),
{
    lemma_inner_is_near(geom.w, geom, density);
    lemma_inner_is_near(geom.h, geom, density);
    law_the_body_is_the_middle_button(geom, density);
    let all = pill_of(geom, density, count, slots);
    let n = back_of(geom, density).len() as int;
    let m = if has_row(geom, density, count) {
        n + 3
    } else {
        n + 2
    };
    assert(all.take(n) =~= back_of(geom, density));
    if geom.buttons <= 0 {
        assert(all.skip(m) =~= checks(geom, density));
    } else if geom.check <= 0 {
        assert(all.skip(m) =~= fronts(geom, density, slots, 3));
    }
}

/// A text stands about its own middle: its start is as far to the left of it as half the
/// text is wide, its end is at the other side, and a later glyph is never further left.
pub proof fn law_a_text_stands_about_its_middle(run: Run, density: int, pen: int, later: int)
    requires
        run.units_per_em > 0,
        0 <= density,
        0 <= pen <= later,
    ensures
        ({
            let width = run.width * scaled(11_500, density) / run.units_per_em as int;
            &&& spot_of(run, density, 0) == 0 - width / 2
            &&& spot_of(run, density, run.width as int) == width - width / 2
            &&& spot_of(run, density, pen) <= spot_of(run, density, later)
        }),
{
    let em = scaled(LABEL_PX as int, density);
    let units = run.units_per_em as int;
    assert(0 * em == 0) by (nonlinear_arith);
    vstd::arithmetic::div_mod::lemma_div_basics(units);
    assert(em >= 0) by (nonlinear_arith)
        requires
            em == 2 * (11_500 * density),
            density >= 0,
    ;
    assert(pen * em <= later * em) by (nonlinear_arith)
        requires
            pen <= later,
            em >= 0,
    ;
    vstd::arithmetic::div_mod::lemma_div_is_ordered(pen * em, later * em, units);
}

/// The baseline lies half a capital below the middle, rounded towards it.
pub proof fn law_the_baseline_is_half_a_capital_down(run: Run, density: int)
    requires
        run.units_per_em > 0,
        0 <= density,
        run.cap_tenths >= 0,
    ensures
        ({
            let y = baseline_of(run, density);
            y * (20 * run.units_per_em) <= run.cap_tenths * scaled(11_500, density) < (y + 1) * (20
                * run.units_per_em)
        }),
{
    lemma_floor(run.cap_tenths * scaled(11_500, density), 20 * run.units_per_em);
}

/// A button's icon stands in the middle of its island, in white, in a box of 22 pixels, at
/// its own strength by how far the bar has unfolded.
pub proof fn law_how_an_icon_is_drawn(geom: Geom, density: int, i: int, slot: Slot)
    requires
        0 <= i < 3,
    ensures
        glyph_of(geom, density, i, slot) matches Shape::Glyph { icon, x, side, ink } && {
            &&& icon == (if i == 0 {
                Icon::Copy
            } else if i == 1 {
                Icon::Mic
            } else {
                Icon::Sliders
            })
            &&& x == island_x(geom, density, i) as i128
            &&& side == 22
            &&& ink.color == Rgb(255, 255, 255)
            &&& ink.alpha == alpha(
                255 * (emphasis_of(slot) * opacity_of(geom.buttons as int)),
                1_000_000_000_000_000,
            )
        },
{
}

/// A panel is its fill and then its edge, each in its colour and at its strength by the
/// opacity.
pub proof fn law_how_a_panel_is_drawn(geom: Geom, density: int, rect: RoundRect, o: int)
    ensures
        panel(geom, density, rect, o).len() == 2,
        panel(geom, density, rect, o)[0] == (Shape::Fill {
            rect,
            ink: Ink { color: geom.fill, alpha: alpha(geom.fill_a * o, 1_000_000) },
        }),
        panel(geom, density, rect, o)[1] == (Shape::Edge {
            rect,
            width: border_of(geom, density) as i128,
            ink: Ink { color: geom.border, alpha: alpha(geom.border_a * o, 1_000_000) },
        }),
{
}

/// Beside the body stand the left button and then the right one, where there is any of
/// them to see; the middle one is the body itself.
pub proof fn law_which_buttons_flank_the_body(geom: Geom, density: int)
    ensures
        ({
            let (left, right) = (island_of(geom, density, 0), island_of(geom, density, 2));
            let o = opacity_of(geom.buttons as int);
            let none = Seq::<Shape>::empty();
            flankers(geom, density, 3) == (if left.w > 0 && left.h > 0 {
                panel(geom, density, left, o)
            } else {
                none
            }) + (if right.w > 0 && right.h > 0 {
                panel(geom, density, right, o)
            } else {
                none
            })
        }),
{
    reveal_with_fuel(flankers, 4);
    let (left, right) = (island_of(geom, density, 0), island_of(geom, density, 2));
    let o = opacity_of(geom.buttons as int);
    let none = Seq::<Shape>::empty();
    let a = if left.w > 0 && left.h > 0 {
        panel(geom, density, left, o)
    } else {
        none
    };
    let b = if right.w > 0 && right.h > 0 {
        panel(geom, density, right, o)
    } else {
        none
    };
    assert(none + panel(geom, density, left, o) =~= panel(geom, density, left, o));
    assert(flankers(geom, density, 1) =~= a);
    assert(flankers(geom, density, 2) =~= a);
    assert(flankers(geom, density, 3) =~= a + b);
}

/// On each button lies its indicator, where it has one, and its icon on that. A button that
/// nothing is said of is unlit and can be pressed.
pub proof fn law_what_lies_on_the_buttons(geom: Geom, density: int, slots: Seq<Slot>, n: int)
    requires
        0 <= n,
    ensures
        fronts(geom, density, slots, n + 1) == fronts(geom, density, slots, n) + indicator_of(
            geom,
            density,
            n,
            slot_at(slots, n),
        ).push(glyph_of(geom, density, n, slot_at(slots, n))),
        fronts(geom, density, slots, 0).len() == 0,
        n < slots.len() ==> slot_at(slots, n) == slots[n],
        n >= slots.len() ==> slot_at(slots, n) == (Slot { hover: 0, enabled: true }),
{
}

/// The side buttons are as large as the bar has them, inside the edge, and round.
pub proof fn law_how_large_the_side_buttons_are(geom: Geom, density: int, i: int)
    requires
        i == 0 || i == 2,
        0 <= density <= u32::MAX,
    ensures
        ({
            let b = island_of(geom, density, i);
            let side = inner(32_000, geom, density);
            &&& b.w == side && b.h == side
            &&& b.r == fitting(32_000 * density, side, side)
            &&& b.y == 0 - side / 2
        }),
{
    lemma_inner_is_near(32_000, geom, density);
    assert(bar::width_of(i) * UNIT == 32_000) by (nonlinear_arith)
        requires
            bar::width_of(i) == 32,
            UNIT == 1000,
    ;
    assert(scaled(BAR_H * UNIT / 2, density) == 32_000 * density) by (nonlinear_arith)
        requires
            BAR_H == 32,
            UNIT == 1000,
    ;
}

/// What is left to the bars: the whole body, less 39 pixels for each of cancel and confirm
/// by how strong they are, and never less than nothing.
pub proof fn law_what_is_left_to_the_bars(geom: Geom, density: int, count: int)
    ensures
        ({
            let left = 2 * (geom.w * density) - 156 * (opacity_of(geom.check as int) * density);
            &&& left >= 0 ==> row_span(geom, density) == left
            &&& left < 0 ==> row_span(geom, density) == 0
        }),
        row_in(geom, density, count) == squeezed(
            row_of(inner(geom.w as int, geom, density), inner(geom.h as int, geom, density)),
            row_span(geom, density),
            count,
        ),
{
    let o = opacity_of(geom.check as int);
    assert((2 * CHECK_CLAIM) * (2 * (o * density)) == 156 * (o * density)) by (nonlinear_arith)
        requires
            CHECK_CLAIM == 39,
    ;
}

} // verus!
