//! The glyphs of the buttons, as vector paths on a grid of 24 by 24, and the
//! walk along such a path that makes every point of it absolute.
use crate::pill::bar::Icon;
use vstd::prelude::*;

verus! {

/// The path data of each glyph.
pub open spec fn source_of(icon: Icon) -> Seq<char> {
    match icon {
        Icon::Copy => "M10 8h10a2 2 0 0 1 2 2v10a2 2 0 0 1-2 2H10a2 2 0 0 1-2-2V10a2 2 0 0 1 2-2zM4 16c-1.1 0-2-.9-2-2V4c0-1.1.9-2 2-2h10c1.1 0 2 .9 2 2"@,
        Icon::Mic => "M9 5a3 3 0 0 1 6 0v7a3 3 0 0 1-6 0zM19 10v2a7 7 0 0 1-14 0v-2M12 19v3"@,
        Icon::Sliders => "M21 4h-7M10 4H3M21 12h-9M8 12H3M21 20h-5M12 20H3M14 2v4M8 10v4M16 18v4"@,
        Icon::X => "M18 6 6 18M6 6l12 12"@,
        Icon::Check => "M20 6 9 17l-5-5"@,
    }
}

/// The path data of a glyph.
pub fn source(icon: Icon) -> (d: &'static str)
    ensures
        d@ == source_of(icon),
{
    match icon {
        Icon::Copy => "M10 8h10a2 2 0 0 1 2 2v10a2 2 0 0 1-2 2H10a2 2 0 0 1-2-2V10a2 2 0 0 1 2-2zM4 16c-1.1 0-2-.9-2-2V4c0-1.1.9-2 2-2h10c1.1 0 2 .9 2 2",
        Icon::Mic => "M9 5a3 3 0 0 1 6 0v7a3 3 0 0 1-6 0zM19 10v2a7 7 0 0 1-14 0v-2M12 19v3",
        Icon::Sliders => "M21 4h-7M10 4H3M21 12h-9M8 12H3M21 20h-5M12 20H3M14 2v4M8 10v4M16 18v4",
        Icon::X => "M18 6 6 18M6 6l12 12",
        Icon::Check => "M20 6 9 17l-5-5",
    }
}

/// How wide the grid comes out for a glyph in a box of `side` logical pixels, in the
/// ticks of a picture: 72 hundredths of the box, so that the strokes do not touch it.
pub open spec fn grid_of(side: int, density: int) -> int {
    1440 * (side * density)
}

/// How wide the grid comes out.
pub fn grid_width(side: i32, density: u32) -> (w: i128)
    ensures
        w == grid_of(side as int, density as int),
{
    proof {
        lemma_sized(side as int, density as int);
    }
    1440 * (side as i128 * density as i128)
}

/// How wide a stroke comes out, which is two of the grid's 24 steps.
pub fn stroke_width(side: i32, density: u32) -> (w: i128)
    ensures
        12 * w == grid_of(side as int, density as int),
{
    proof {
        lemma_sized(side as int, density as int);
    }
    120 * (side as i128 * density as i128)
}

proof fn lemma_sized(side: int, density: int)
    requires
        -0x8000_0000 <= side <= 0x7fff_ffff,
        0 <= density <= 0xffff_ffff,
    ensures
        -0x8000_0000_0000_0000 <= side * density <= 0x8000_0000_0000_0000,
{
    assert(-0x8000_0000_0000_0000 <= side * density && side * density <= 0x8000_0000_0000_0000)
        by (nonlinear_arith)
        requires
            -0x8000_0000 <= side <= 0x7fff_ffff,
            0 <= density <= 0xffff_ffff,
    ;
}

/// One segment of a path, its numbers in thousandths of a grid step. Where `abs`
/// is false they are offsets from the current point.
#[derive(Clone, Copy, PartialEq, Eq, Debug, Structural)]
pub enum Seg {
    MoveTo { abs: bool, x: i32, y: i32 },
    LineTo { abs: bool, x: i32, y: i32 },
    HorizontalLineTo { abs: bool, x: i32 },
    VerticalLineTo { abs: bool, y: i32 },
    CurveTo { abs: bool, x1: i32, y1: i32, x2: i32, y2: i32, x: i32, y: i32 },
    EllipticalArc {
        abs: bool,
        rx: i32,
        ry: i32,
        x_axis_rotation: i32,
        large_arc: bool,
        sweep: bool,
        x: i32,
        y: i32,
    },
    ClosePath,
    /// Any other kind of segment: no glyph has one.
    Unsupported,
}

/// A point, in thousandths of a grid step.
#[derive(Clone, Copy, PartialEq, Eq, Debug, Structural)]
pub struct Point {
    pub x: i128,
    pub y: i128,
}

/// One stroke of the pen, every point of it absolute.
#[derive(Clone, Copy, PartialEq, Eq, Debug, Structural)]
pub enum Stroke {
    MoveTo(Point),
    LineTo(Point),
    CubicTo(Point, Point, Point),
    ArcTo {
        from: Point,
        rx: i32,
        ry: i32,
        x_axis_rotation: i32,
        large_arc: bool,
        sweep: bool,
        to: Point,
    },
    Close,
}

/// The current point, and the start of the subpath, to which closing returns.
#[derive(Clone, Copy, PartialEq, Eq, Debug, Structural)]
pub struct Pen {
    pub cur: Point,
    pub start: Point,
}

/// The point that `x` and `y` mean: the point itself, or an offset from `cur`.
pub open spec fn place(cur: Point, abs: bool, x: i32, y: i32) -> Point {
    if abs {
        Point { x: x as i128, y: y as i128 }
    } else {
        Point { x: (cur.x + x) as i128, y: (cur.y + y) as i128 }
    }
}

/// Where the pen goes along a segment.
pub open spec fn target(pen: Pen, seg: Seg) -> Point {
    match seg {
        Seg::MoveTo { abs, x, y } => place(pen.cur, abs, x, y),
        Seg::LineTo { abs, x, y } => place(pen.cur, abs, x, y),
        Seg::HorizontalLineTo { abs, x } => Point { x: place(pen.cur, abs, x, 0).x, ..pen.cur },
        Seg::VerticalLineTo { abs, y } => Point { y: place(pen.cur, abs, 0, y).y, ..pen.cur },
        Seg::CurveTo { abs, x, y, .. } => place(pen.cur, abs, x, y),
        Seg::EllipticalArc { abs, x, y, .. } => place(pen.cur, abs, x, y),
        Seg::ClosePath => pen.start,
        Seg::Unsupported => pen.cur,
    }
}

/// The pen behind a segment. A move starts a new subpath.
pub open spec fn moved(pen: Pen, seg: Seg) -> Pen {
    let cur = target(pen, seg);
    Pen {
        cur,
        start: if seg is MoveTo {
            cur
        } else {
            pen.start
        },
    }
}

/// What is drawn along a segment.
pub open spec fn drawn(pen: Pen, seg: Seg) -> Stroke {
    let to = target(pen, seg);
    match seg {
        Seg::MoveTo { .. } => Stroke::MoveTo(to),
        Seg::CurveTo { abs, x1, y1, x2, y2, .. } => Stroke::CubicTo(
            place(pen.cur, abs, x1, y1),
            place(pen.cur, abs, x2, y2),
            to,
        ),
        Seg::EllipticalArc { rx, ry, x_axis_rotation, large_arc, sweep, .. } => Stroke::ArcTo {
            from: pen.cur,
            rx,
            ry,
            x_axis_rotation,
            large_arc,
            sweep,
            to,
        },
        Seg::ClosePath => Stroke::Close,
        _ => Stroke::LineTo(to),
    }
}

/// The pen behind a whole path, which starts at the grid's corner.
pub open spec fn pen_after(segs: Seq<Seg>) -> Pen
    decreases segs.len(),
{
    if segs.len() == 0 {
        Pen { cur: Point { x: 0, y: 0 }, start: Point { x: 0, y: 0 } }
    } else {
        moved(pen_after(segs.drop_last()), segs.last())
    }
}

/// What is drawn along a whole path.
pub open spec fn strokes(segs: Seq<Seg>) -> Seq<Stroke>
    decreases segs.len(),
{
    if segs.len() == 0 {
        Seq::empty()
    } else {
        strokes(segs.drop_last()).push(drawn(pen_after(segs.drop_last()), segs.last()))
    }
}

/// Every segment is of a kind that can be drawn.
pub open spec fn supported(segs: Seq<Seg>) -> bool {
    forall|i: int| 0 <= i < segs.len() ==> !(#[trigger] segs[i] is Unsupported)
}

/// `p` is within `n` segments' reach of the grid's corner.
spec fn reachable(p: Point, n: int) -> bool {
    &&& -0x8000_0000 * n <= p.x <= 0x8000_0000 * n
    &&& -0x8000_0000 * n <= p.y <= 0x8000_0000 * n
}

fn place_at(cur: Point, abs: bool, x: i32, y: i32) -> (p: Point)
    requires
        -0x1_0000_0000_0000_0000_0000_0000_0000 <= cur.x <= 0x1_0000_0000_0000_0000_0000_0000_0000,
        -0x1_0000_0000_0000_0000_0000_0000_0000 <= cur.y <= 0x1_0000_0000_0000_0000_0000_0000_0000,
    ensures
        p == place(cur, abs, x, y),
        abs ==> p.x == x && p.y == y,
        !abs ==> p.x == cur.x + x && p.y == cur.y + y,
{
    if abs {
        Point { x: x as i128, y: y as i128 }
    } else {
        Point { x: cur.x + x as i128, y: cur.y + y as i128 }
    }
}

/// Walks along a path and makes every point of it absolute. A path with a
/// segment of another kind cannot be drawn.
pub fn walk(segs: &Vec<Seg>) -> (r: Option<Vec<Stroke>>)
    ensures
        r is Some <==> supported(segs@),
        r matches Some(s) ==> s@ == strokes(segs@),
{
    let mut pen = Pen { cur: Point { x: 0, y: 0 }, start: Point { x: 0, y: 0 } };
    let mut out: Vec<Stroke> = Vec::new();
    let mut i: usize = 0;
    while i < segs.len()
        invariant
            i <= segs@.len(),
            pen == pen_after(segs@.take(i as int)),
            out@ == strokes(segs@.take(i as int)),
            supported(segs@.take(i as int)),
            reachable(pen.cur, i as int),
            reachable(pen.start, i as int),
        decreases segs.len() - i,
    {
        let seg = segs[i];
        let ghost next = segs@.take(i + 1);
        assert(next.drop_last() =~= segs@.take(i as int));
        assert(next.last() == seg);
        let cur = pen.cur;
        let to = match seg {
            Seg::MoveTo { abs, x, y } => {
                let to = place_at(cur, abs, x, y);
                pen.start = to;
                out.push(Stroke::MoveTo(to));
                to
            },
            Seg::LineTo { abs, x, y } => {
                let to = place_at(cur, abs, x, y);
                out.push(Stroke::LineTo(to));
                to
            },
            Seg::HorizontalLineTo { abs, x } => {
                let to = Point { x: place_at(cur, abs, x, 0).x, y: cur.y };
                out.push(Stroke::LineTo(to));
                to
            },
            Seg::VerticalLineTo { abs, y } => {
                let to = Point { x: cur.x, y: place_at(cur, abs, 0, y).y };
                out.push(Stroke::LineTo(to));
                to
            },
            Seg::CurveTo { abs, x1, y1, x2, y2, x, y } => {
                let to = place_at(cur, abs, x, y);
                out.push(
                    Stroke::CubicTo(place_at(cur, abs, x1, y1), place_at(cur, abs, x2, y2), to),
                );
                to
            },
            Seg::EllipticalArc { abs, rx, ry, x_axis_rotation, large_arc, sweep, x, y } => {
                let to = place_at(cur, abs, x, y);
                out.push(
                    Stroke::ArcTo { from: cur, rx, ry, x_axis_rotation, large_arc, sweep, to },
                );
                to
            },
            Seg::ClosePath => {
                out.push(Stroke::Close);
                pen.start
            },
            Seg::Unsupported => {
                assert(segs@[i as int] is Unsupported);
                return None;
            },
        };
        pen.cur = to;
        assert(forall|k: int| 0 <= k < next.len() ==> !(#[trigger] next[k] is Unsupported)) by {
            assert forall|k: int| 0 <= k < next.len() implies !(#[trigger] next[k] is Unsupported) by {
                if k < i {
                    assert(next[k] == segs@.take(i as int)[k]);
                }
            }
        }
        i += 1;
    }
    assert(segs@.take(segs@.len() as int) =~= segs@);
    Some(out)
}

/// Closing a subpath takes the pen back to where the subpath began.
pub proof fn law_closing_returns_to_the_start(pen: Pen)
    ensures
        moved(pen, Seg::ClosePath).cur == pen.start,
        moved(pen, Seg::ClosePath).start == pen.start,
{
}

/// Where the pen stands does not matter to a line with absolute numbers.
pub proof fn law_absolute_lines_ignore_the_pen(a: Pen, b: Pen, x: i32, y: i32)
    ensures
        drawn(a, Seg::LineTo { abs: true, x, y }) == drawn(b, Seg::LineTo { abs: true, x, y }),
{
}

/// Offsets count from where the pen stands, and absolute numbers from the corner. A
/// horizontal line keeps the height, and a vertical one the place across.
pub proof fn law_where_a_segment_leads(pen: Pen, x: i32, y: i32)
    requires
        -0x1_0000_0000_0000_0000 <= pen.cur.x <= 0x1_0000_0000_0000_0000,
        -0x1_0000_0000_0000_0000 <= pen.cur.y <= 0x1_0000_0000_0000_0000,
    ensures
        ({
            let rel = target(pen, Seg::LineTo { abs: false, x, y });
            let abs = target(pen, Seg::LineTo { abs: true, x, y });
            let (across, down) = (
                target(pen, Seg::HorizontalLineTo { abs: false, x }),
                target(pen, Seg::VerticalLineTo { abs: false, y }),
            );
            &&& rel.x == pen.cur.x + x && rel.y == pen.cur.y + y
            &&& abs.x == x && abs.y == y
            &&& across.x == pen.cur.x + x && across.y == pen.cur.y
            &&& down.x == pen.cur.x && down.y == pen.cur.y + y
            &&& target(pen, Seg::HorizontalLineTo { abs: true, x }).x == x
            &&& target(pen, Seg::HorizontalLineTo { abs: true, x }).y == pen.cur.y
            &&& target(pen, Seg::VerticalLineTo { abs: true, y }).y == y
            &&& target(pen, Seg::VerticalLineTo { abs: true, y }).x == pen.cur.x
            &&& target(pen, Seg::MoveTo { abs: false, x, y }) == rel
            &&& target(pen, Seg::MoveTo { abs: true, x, y }) == abs
        }),
{
}

/// Every segment draws one stroke, to where it leads: a move lifts the pen and starts a
/// subpath, a line of any kind draws a line, and closing closes.
pub proof fn law_each_segment_draws_one_stroke(segs: Seq<Seg>, seg: Seg)
    ensures
        ({
            let pen = pen_after(segs);
            let all = segs.push(seg);
            &&& strokes(all).len() == strokes(segs).len() + 1
            &&& strokes(all).drop_last() == strokes(segs)
            &&& pen_after(all).cur == target(pen, seg)
            &&& seg is MoveTo ==> strokes(all).last() == Stroke::MoveTo(target(pen, seg))
                && pen_after(all).start == target(pen, seg)
            &&& !(seg is MoveTo) ==> pen_after(all).start == pen.start
            &&& seg is LineTo || seg is HorizontalLineTo || seg is VerticalLineTo ==> strokes(
                all,
            ).last() == Stroke::LineTo(target(pen, seg))
            &&& seg is ClosePath ==> strokes(all).last() == Stroke::Close
        }),
{
    assert(segs.push(seg).drop_last() =~= segs);
    assert(strokes(segs.push(seg)).drop_last() =~= strokes(segs));
}

/// A curve's three points are all meant in the same way, and an arc keeps its radii, its
/// tilt and its flags and runs from where the pen stands to where it leads.
pub proof fn law_curves_and_arcs_keep_their_numbers(
    pen: Pen,
    one: (i32, i32),
    two: (i32, i32),
    x: i32,
    y: i32,
    large_arc: bool,
    sweep: bool,
)
    requires
        -0x1_0000_0000_0000_0000 <= pen.cur.x <= 0x1_0000_0000_0000_0000,
        -0x1_0000_0000_0000_0000 <= pen.cur.y <= 0x1_0000_0000_0000_0000,
    ensures
        drawn(
            pen,
            Seg::CurveTo { abs: true, x1: one.0, y1: one.1, x2: two.0, y2: two.1, x, y },
        ) == Stroke::CubicTo(
            Point { x: one.0 as i128, y: one.1 as i128 },
            Point { x: two.0 as i128, y: two.1 as i128 },
            Point { x: x as i128, y: y as i128 },
        ),
        drawn(
            pen,
            Seg::CurveTo { abs: false, x1: one.0, y1: one.1, x2: two.0, y2: two.1, x, y },
        ) == Stroke::CubicTo(
            Point { x: (pen.cur.x + one.0) as i128, y: (pen.cur.y + one.1) as i128 },
            Point { x: (pen.cur.x + two.0) as i128, y: (pen.cur.y + two.1) as i128 },
            Point { x: (pen.cur.x + x) as i128, y: (pen.cur.y + y) as i128 },
        ),
        drawn(
            pen,
            Seg::EllipticalArc {
                abs: false,
                rx: one.0,
                ry: one.1,
                x_axis_rotation: two.0,
                large_arc,
                sweep,
                x,
                y,
            },
        ) == (Stroke::ArcTo {
            from: pen.cur,
            rx: one.0,
            ry: one.1,
            x_axis_rotation: two.0,
            large_arc,
            sweep,
            to: Point { x: (pen.cur.x + x) as i128, y: (pen.cur.y + y) as i128 },
        }),
{
}

/// The pen starts at the corner of the grid.
pub proof fn law_the_pen_starts_at_the_corner()
    ensures
        pen_after(Seq::empty()).cur == (Point { x: 0, y: 0 }),
        pen_after(Seq::empty()).start == (Point { x: 0, y: 0 }),
        strokes(Seq::empty()).len() == 0,
{
}

/// The grid is 72 hundredths of its box, at two thousand ticks to a pixel of the picture.
pub proof fn law_a_glyph_fills_most_of_its_box(side: int, density: int)
    ensures
        100 * grid_of(side, density) == 72 * (2000 * (side * density)),
{
}

/// A path can be drawn where every one of its segments can; a single one that cannot spoils
/// it, wherever it stands.
pub proof fn law_one_bad_segment_spoils_a_path(segs: Seq<Seg>, seg: Seg)
    ensures
        supported(Seq::empty()),
        supported(segs.push(seg)) <==> supported(segs) && !(seg is Unsupported),
{
    let all = segs.push(seg);
    if supported(all) {
        assert forall|i: int| 0 <= i < segs.len() implies !(#[trigger] segs[i] is Unsupported) by {
            assert(!(all[i] is Unsupported));
        }
        assert(!(all[segs.len() as int] is Unsupported));
    }
    if supported(segs) && !(seg is Unsupported) {
        assert forall|i: int| 0 <= i < all.len() implies !(#[trigger] all[i] is Unsupported) by {
            if i < segs.len() {
                assert(!(segs[i] is Unsupported));
            }
        }
    }
}

} // verus!
