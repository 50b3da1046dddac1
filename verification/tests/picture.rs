use draft::clock::{Instant, WHOLE};
use draft::pill::bar::{
    bar_width, button, check_button, island_centre, Action, BAR_GAP, BAR_H, BUTTON_COUNT,
    CHECK_BUTTON, CHECK_INSET, GLYPH_BOX,
};
use draft::pill::geom::{Geom, Slot, CLICK_W, UNIT};
use draft::pill::icons::{grid_width, source, stroke_width, walk, Point, Seg, Stroke as Leg};
use draft::pill::label::Fade;
use draft::pill::picture::{
    body_of, compose, label_baseline, label_centre_y, label_spots, label_width, outline,
    pill_centre_y, row_room, Bars, Caption, Picture, RoundRect, Shape, HIT_A,
    LABEL_GAP, LABEL_H, LOGICAL_DPI, PX,
};
use draft::pill::state::{Origin, PillMode};
use draft::pill::text::{lay_out, run_of, Glyph, Run};
use draft::pill::{BAR_COUNT, ENVELOPE_H, ENVELOPE_W};
use svgtypes::PathSegment as P;
use tiny_skia::{
    Color, FillRule, LineCap, LineJoin, Paint, Path, PathBuilder, Pixmap, PremultipliedColorU8,
    Rect, Stroke, Transform,
};

/// A flat row: what every state but recording draws.
const FLAT: [u64; BAR_COUNT] = [0; BAR_COUNT];

/// Every button live and none of them lit.
const NO_SLOTS: [Slot; BUTTON_COUNT] = [Slot {
    hover: 0,
    enabled: true,
}; BUTTON_COUNT];

const REC: PillMode = PillMode::Recording {
    origin: Origin::Hotkey,
};

const NO_LABEL: Fade = Fade {
    from: None,
    to: None,
    t: WHOLE,
};

fn now() -> Instant {
    Instant::from_millis(0)
}

/// A real face to lay text out in.
fn font() -> Vec<u8> {
    let fonts = egui::FontDefinitions::default();
    fonts.font_data["Ubuntu-Light"].font.to_vec()
}

fn px(ticks: i128) -> f32 {
    (ticks as f64 / PX as f64) as f32
}

fn trace(pb: &mut PathBuilder, rect: &RoundRect) {
    let xy = |p: Point| (px(p.x), px(p.y));
    for leg in outline(rect) {
        match leg {
            Leg::MoveTo(p) => pb.move_to(xy(p).0, xy(p).1),
            Leg::LineTo(p) => pb.line_to(xy(p).0, xy(p).1),
            Leg::CubicTo(a, b, c) => {
                let (a, b, c) = (xy(a), xy(b), xy(c));
                pb.cubic_to(a.0, a.1, b.0, b.1, c.0, c.1);
            }
            Leg::ArcTo { .. } => panic!("a rectangle has no arcs"),
            Leg::Close => pb.close(),
        }
    }
}

fn path_of(rects: &[RoundRect]) -> Option<Path> {
    let mut pb = PathBuilder::new();
    for rect in rects {
        trace(&mut pb, rect);
    }
    pb.finish()
}

fn paint_of(r: u8, g: u8, b: u8, a: u8) -> Paint<'static> {
    let mut paint = Paint::default();
    paint.set_color_rgba8(r, g, b, a);
    paint.anti_alias = true;
    paint
}

/// A number of a path in thousandths.
fn milli(x: f64) -> i32 {
    (x * 1000.0).round() as i32
}

/// An icon's path on a grid of this width, its arcs drawn as straight lines.
fn glyph(d: &str, width: f32) -> Path {
    let segs: Vec<Seg> = svgtypes::PathParser::from(d)
        .map(|s| match s.unwrap() {
            P::MoveTo { abs, x, y } => Seg::MoveTo {
                abs,
                x: milli(x),
                y: milli(y),
            },
            P::LineTo { abs, x, y } | P::EllipticalArc { abs, x, y, .. } => Seg::LineTo {
                abs,
                x: milli(x),
                y: milli(y),
            },
            P::HorizontalLineTo { abs, x } => Seg::HorizontalLineTo { abs, x: milli(x) },
            P::VerticalLineTo { abs, y } => Seg::VerticalLineTo { abs, y: milli(y) },
            P::CurveTo { abs, x, y, .. } => Seg::LineTo {
                abs,
                x: milli(x),
                y: milli(y),
            },
            P::ClosePath { .. } => Seg::ClosePath,
            _ => Seg::Unsupported,
        })
        .collect();
    let mut pb = PathBuilder::new();
    let grid = |p: Point| (p.x as f32 / 1000.0, p.y as f32 / 1000.0);
    for leg in walk(&segs).unwrap() {
        match leg {
            Leg::MoveTo(p) => pb.move_to(grid(p).0, grid(p).1),
            Leg::LineTo(p) => pb.line_to(grid(p).0, grid(p).1),
            Leg::Close => pb.close(),
            other => panic!("{:?}", other),
        }
    }
    let scale = width / 24.0;
    let place = Transform::from_translate(-12.0, -12.0).post_scale(scale, scale);
    pb.finish().unwrap().transform(place).unwrap()
}

struct Outline<'a> {
    pb: &'a mut PathBuilder,
    s: f32,
    dx: f32,
    dy: f32,
}

impl ttf_parser::OutlineBuilder for Outline<'_> {
    fn move_to(&mut self, x: f32, y: f32) {
        self.pb.move_to(self.dx + x * self.s, self.dy - y * self.s);
    }
    fn line_to(&mut self, x: f32, y: f32) {
        self.pb.line_to(self.dx + x * self.s, self.dy - y * self.s);
    }
    fn quad_to(&mut self, _x1: f32, _y1: f32, x: f32, y: f32) {
        self.line_to(x, y);
    }
    fn curve_to(&mut self, _x1: f32, _y1: f32, _x2: f32, _y2: f32, x: f32, y: f32) {
        self.line_to(x, y);
    }
    fn close(&mut self) {
        self.pb.close();
    }
}

/// A text's path, its curves drawn as straight lines. A text without ink has none.
fn words(run: &Run, density: u32) -> Option<Path> {
    let font = font();
    let face = ttf_parser::Face::parse(&font, 0).unwrap();
    let s = 11.5 * density as f32 / LOGICAL_DPI as f32 / run.units_per_em as f32;
    let dy = px(label_baseline(run, density));
    let mut pb = PathBuilder::new();
    for (g, x) in run.glyphs.iter().zip(label_spots(run, density)) {
        let mut outline = Outline {
            pb: &mut pb,
            s,
            dx: px(x),
            dy,
        };
        face.outline_glyph(ttf_parser::GlyphId(g.id), &mut outline);
    }
    pb.finish()
}

fn caption(fade: &Fade, density: u32) -> (Caption, Option<Run>, Option<Run>) {
    let font = font();
    let from = fade.from.and_then(|t| lay_out(&font, t));
    let to = fade.to.and_then(|t| lay_out(&font, t));
    let caption = Caption {
        fade: *fade,
        from: from.as_ref().map(|r| label_width(r, density)),
        to: to.as_ref().map(|r| label_width(r, density)),
    };
    (caption, from, to)
}

/// Draws one frame into a surface.
fn draw(pm: &mut Pixmap, scale: u32, geom: &Geom, bars: &[u64], slots: &[Slot], fade: &Fade) {
    let density = scale * LOGICAL_DPI;
    let (caption, from, to) = caption(fade, density);
    let Picture { shapes, bars } = compose(geom, density, &bars.to_vec(), &slots.to_vec(), &caption);
    pm.fill(Color::TRANSPARENT);
    let cx = pm.width() as f32 / 2.0;
    let cy = px(pill_centre_y(pm.height(), density));
    let centre = Transform::from_translate(cx, cy);
    for shape in shapes {
        match shape {
            Shape::Fill { rect, ink } => {
                let c = ink.color;
                let paint = paint_of(c.0, c.1, c.2, ink.alpha);
                if let Some(path) = path_of(&[rect]) {
                    pm.fill_path(&path, &paint, FillRule::Winding, centre, None);
                }
            }
            Shape::Edge { rect, width, ink } => {
                let c = ink.color;
                let paint = paint_of(c.0, c.1, c.2, ink.alpha);
                let stroke = Stroke {
                    width: px(width),
                    ..Default::default()
                };
                if let Some(path) = path_of(&[rect]) {
                    pm.stroke_path(&path, &paint, &stroke, centre, None);
                }
            }
            Shape::Strip { rect } => {
                let mut paint = Paint::default();
                paint.set_color_rgba8(255, 255, 255, HIT_A);
                let (x, y) = (px(rect.x), px(rect.y));
                let r = Rect::from_xywh(x, y, px(rect.w), px(rect.h)).unwrap();
                pm.fill_rect(r, &paint, centre, None);
            }
            Shape::Bars { alpha } => {
                let paint = paint_of(255, 255, 255, alpha);
                let path = path_of(&bars).unwrap();
                pm.fill_path(&path, &paint, FillRule::Winding, centre, None);
            }
            Shape::Glyph { icon, x, side, ink } => {
                let c = ink.color;
                let stroke = Stroke {
                    width: px(stroke_width(side, density)),
                    line_cap: LineCap::Round,
                    line_join: LineJoin::Round,
                    ..Default::default()
                };
                let at = Transform::from_translate(cx + px(x), cy);
                let paint = paint_of(c.0, c.1, c.2, ink.alpha);
                let path = glyph(source(icon), px(grid_width(side, density)));
                pm.stroke_path(&path, &paint, &stroke, at, None);
            }
            Shape::Words { incoming, y, alpha } => {
                let run = if incoming { &to } else { &from };
                let path = words(run.as_ref().unwrap(), density).unwrap();
                let at = Transform::from_translate(cx, cy + px(y));
                let paint = paint_of(235, 237, 242, alpha);
                pm.fill_path(&path, &paint, FillRule::Winding, at, None);
            }
        }
    }
}

fn envelope() -> Pixmap {
    Pixmap::new(ENVELOPE_W, ENVELOPE_H).unwrap()
}

/// The row through the pill's centre, which is not the surface's middle: the pill sits
/// in a band at the bottom, with the label's room above it.
fn cy(pm: &Pixmap, scale: u32) -> u32 {
    px(pill_centre_y(pm.height(), scale * LOGICAL_DPI)).round() as u32
}

/// A mode drawn into a fresh envelope at its logical size.
fn frame(mode: PillMode, bars: &[u64]) -> Pixmap {
    let mut pm = envelope();
    draw(&mut pm, 1, &Geom::of(mode), bars, &NO_SLOTS, &NO_LABEL);
    pm
}

fn brightest(p: PremultipliedColorU8) -> u8 {
    p.red().max(p.green()).max(p.blue())
}

/// The most saturated pixel across the body's left edge on the row through `y`, and
/// one clear of both that edge and the bar row.
fn edge_and_body(pm: &Pixmap, left: u32, y: u32) -> (u8, u8) {
    let edge = (left..left + 4)
        .map(|x| pm.pixel(x, y).unwrap())
        .max_by_key(|p| brightest(*p))
        .unwrap();
    (brightest(edge), brightest(pm.pixel(left + 8, y).unwrap()))
}

/// The nub is a marker: a body of the settled size, with a light edge, and no bars.
#[test]
fn the_nub_draws_a_small_bare_body_with_a_light_edge() {
    let pm = frame(PillMode::Idle, &FLAT);
    let cy = cy(&pm, 1);
    let left = (ENVELOPE_W - 36) / 2;
    // Outside the nub nothing is drawn: the envelope is not the pill.
    assert_eq!(pm.pixel(1, cy).unwrap().alpha(), 0, "the envelope is padding");
    assert_eq!(pm.pixel(1, 1).unwrap().alpha(), 0);
    let (edge, body) = edge_and_body(&pm, left, cy);
    assert!(edge > 60, "nub edge too dark to separate ({edge})");
    assert!(edge > body * 3, "nub edge ({edge}) barely differs from its body ({body})");
    let centre = pm.pixel(ENVELOPE_W / 2, cy).unwrap();
    assert!(brightest(centre) < 40, "the nub drew a bar row: {centre:?}");
}

/// The nub is 36x10 and no larger, measured off the drawn pixels.
#[test]
fn the_nub_occupies_the_settled_rect() {
    let pm = frame(PillMode::Idle, &FLAT);
    let opaque = |x: u32, y: u32| pm.pixel(x, y).unwrap().alpha() > 8;
    let cy = cy(&pm, 1);
    let cx = ENVELOPE_W / 2;
    let width = (0..ENVELOPE_W).filter(|&x| opaque(x, cy)).count();
    let height = (0..ENVELOPE_H).filter(|&y| opaque(cx, y)).count();
    assert!((34..=36).contains(&width), "nub width {width}");
    assert!((8..=10).contains(&height), "nub height {height}");
}

/// `Hidden` is the nub's shape without light, so it draws nothing at all.
#[test]
fn hidden_draws_nothing() {
    let pm = frame(PillMode::Hidden, &FLAT);
    assert!(
        pm.pixels().iter().all(|p| p.alpha() == 0),
        "Hidden put pixels on screen"
    );
}

/// The near-black body is invisible on a black desktop: every mode carries a light
/// edge, those with an accent of their own too.
#[test]
fn every_mode_draws_a_light_edge_around_a_dark_body() {
    let modes: [(&str, PillMode); 5] = [
        ("idle", PillMode::Idle),
        ("recording", REC),
        ("processing", PillMode::Processing { since: now() }),
        (
            "success",
            PillMode::Done {
                ok: true,
                since: now(),
            },
        ),
        (
            "error",
            PillMode::Done {
                ok: false,
                since: now(),
            },
        ),
    ];
    for (name, mode) in modes {
        let g = Geom::of(mode);
        let pm = frame(mode, &FLAT);
        let left = ((ENVELOPE_W as f32 - g.w as f32 / UNIT as f32) / 2.0).round() as u32;
        let (edge, body) = edge_and_body(&pm, left, cy(&pm, 1));
        assert!(edge > 60, "{name}: edge too dark to separate ({edge})");
        assert!(
            edge > body * 3,
            "{name}: edge ({edge}) barely differs from the body ({body})"
        );
    }
}

/// A frame between two modes draws a body between the two sizes.
#[test]
fn a_frame_mid_morph_draws_a_body_between_the_two_modes() {
    let half = Geom::of(PillMode::Idle).lerp(Geom::of(REC), WHOLE / 2);
    let mut pm = envelope();
    draw(&mut pm, 1, &half, &FLAT, &NO_SLOTS, &NO_LABEL);
    let cy = cy(&pm, 1);
    let width = (0..ENVELOPE_W)
        .filter(|&x| pm.pixel(x, cy).unwrap().alpha() > 8)
        .count();
    assert!((36..=62).contains(&width), "mid-morph width {width}");
    assert!(width > 40 && width < 58, "mid-morph is at an endpoint: {width}");
}

/// Quiet and loud speech stay tellable apart at the shipped size.
#[test]
fn quiet_and_loud_stay_distinguishable_at_the_shipped_size() {
    let body = body_of(&Geom::of(REC), LOGICAL_DPI);
    let bars = Bars::new(body.w, body.h);
    let at = |amp: f32| {
        px(bars.bar_min_h) + amp * (px(bars.bar_max_h) - px(bars.bar_min_h))
    };
    assert!(px(bars.bar_min_h) < px(bars.bar_max_h) * 0.25);
    assert!(at(0.3) - at(0.0) > 1.0);
    assert!(at(1.0) - at(0.3) > 1.0);
}

/// Bars sit inside the body at every size that a transition passes through.
#[test]
fn bars_stay_inside_the_body_at_any_size() {
    for (w, h) in [
        (86, 42),
        (62, 28),
        (43, 21),
        (36, 10),
        (24, 24),
        (120, 30),
        (30, 8),
    ] {
        let g = Bars::new(w * PX, h * PX);
        let side = w * PX - g.span(BAR_COUNT);
        assert!(side >= 0, "{w}x{h}: bars overflow the body horizontally");
        assert!(
            g.bar_max_h <= h * PX,
            "{w}x{h}: bars overflow the body vertically"
        );
        assert!(
            g.bar_w > 0 && g.bar_min_h <= g.bar_max_h,
            "{w}x{h}: bar heights invert"
        );
    }
}

/// A row is five parts in 172 to a bar and to a gap, and keeps that ratio when it is
/// squeezed.
#[test]
fn a_row_is_squeezed_evenly() {
    let row = Bars::new(172 * PX, 42 * PX);
    assert_eq!(
        row,
        Bars {
            bar_w: 5 * PX,
            bar_gap: 5 * PX,
            bar_min_h: 25 * PX / 2,
            bar_max_h: 32 * PX,
        }
    );
    assert_eq!((row.span(0), row.span(1), row.span(7)), (0, 5 * PX, 65 * PX));
    assert_eq!(row.fitted(65 * PX, 7), row);
    let tight = row.fitted(13 * PX, 7);
    assert_eq!(tight, Bars { bar_w: PX, bar_gap: PX, ..row });
    assert_eq!(tight.span(7), 13 * PX);
}

/// Twice the density is the same pill at twice the size.
#[test]
fn the_body_scales_with_the_dpi_factor() {
    let g = Geom::of(PillMode::Idle);
    let mut one = Pixmap::new(ENVELOPE_W, ENVELOPE_H).unwrap();
    let mut two = Pixmap::new(ENVELOPE_W * 2, ENVELOPE_H * 2).unwrap();
    draw(&mut one, 1, &g, &FLAT, &NO_SLOTS, &NO_LABEL);
    draw(&mut two, 2, &g, &FLAT, &NO_SLOTS, &NO_LABEL);
    let count = |pm: &Pixmap, y: u32| {
        (0..pm.width())
            .filter(|&x| pm.pixel(x, y).unwrap().alpha() > 8)
            .count()
    };
    let (a, b) = (count(&one, cy(&one, 1)), count(&two, cy(&two, 2)));
    assert!(
        (b as i32 - 2 * a as i32).abs() <= 3,
        "1x drew {a} px, 2x drew {b}"
    );
}

/// The expanded bar at its logical size.
fn bar(slots: &[Slot]) -> Pixmap {
    let mut pm = envelope();
    let geom = Geom::of(PillMode::Expanded);
    draw(&mut pm, 1, &geom, &FLAT, slots, &NO_LABEL);
    pm
}

/// Runs of drawn pixels across a row.
fn runs(pm: &Pixmap, y: u32) -> Vec<(u32, u32)> {
    let mut out: Vec<(u32, u32)> = Vec::new();
    for x in 0..pm.width() {
        if pm.pixel(x, y).unwrap().alpha() > 8 {
            match out.last_mut() {
                Some(run) if run.1 + 1 >= x => run.1 = x,
                _ => out.push((x, x)),
            }
        }
    }
    out
}

/// Three islands with bare desktop between them, not one wide body.
#[test]
fn the_expanded_bar_draws_three_islands_over_bare_desktop() {
    let pm = bar(&NO_SLOTS);
    let runs = runs(&pm, cy(&pm, 1));
    assert_eq!(runs.len(), 3, "{runs:?}");
    let widths: Vec<u32> = runs.iter().map(|(a, b)| b - a + 1).collect();
    for (got, want) in widths.iter().zip([32, 48, 32]) {
        assert!(
            (got.abs_diff(want)) <= 2,
            "island widths {widths:?} against [32, 48, 32]"
        );
    }
    let span = runs[2].1 - runs[0].0 + 1;
    assert!(span.abs_diff(bar_width() as u32) <= 2, "bar span {span}");
}

/// Mid-fold-out the flankers are behind the centre, and they arrive by the end.
#[test]
fn the_flankers_slide_out_from_behind_the_centre() {
    let expanded = Geom::of(PillMode::Expanded);
    let at = |t: u64| {
        let mut pm = envelope();
        let geom = Geom::of(PillMode::Idle).lerp(expanded, t);
        draw(&mut pm, 1, &geom, &FLAT, &NO_SLOTS, &NO_LABEL);
        runs(&pm, cy(&pm, 1))
    };
    let early = at(WHOLE / 4);
    assert_eq!(early.len(), 1, "the flankers left the body early: {early:?}");
    assert_eq!(at(WHOLE).len(), 3);
}

/// The indicator lights the hovered button and nothing else.
#[test]
fn the_hover_indicator_lights_only_the_hovered_button() {
    let mut slots = NO_SLOTS;
    let dark = bar(&slots);
    slots[0].hover = WHOLE;
    let lit = bar(&slots);
    let cy = cy(&lit, 1);
    // Inside the Copy island, clear of its glyph: the indicator's fill.
    let x = ENVELOPE_W as i32 / 2 + island_centre(0);
    let inside = |pm: &Pixmap, dx: i32| brightest(pm.pixel((x + dx) as u32, cy).unwrap());
    assert!(
        inside(&lit, -12) > inside(&dark, -12),
        "the hovered button did not light"
    );
    for i in [1usize, 2] {
        let ox = (ENVELOPE_W as i32 / 2 + island_centre(i)) as u32;
        let (a, b) = (
            brightest(lit.pixel(ox - 12, cy).unwrap()),
            brightest(dark.pixel(ox - 12, cy).unwrap()),
        );
        assert_eq!(a, b, "button {i} lit with the cursor on another");
    }
}

/// A disabled Copy is drawn faint.
#[test]
fn a_disabled_button_draws_a_faint_glyph() {
    let live = bar(&NO_SLOTS);
    let mut slots = NO_SLOTS;
    slots[0].enabled = false;
    let dead = bar(&slots);
    let cx = (ENVELOPE_W as i32 / 2 + island_centre(0)) as u32;
    let cy = cy(&live, 1);
    // The brightest pixel anywhere in the glyph box, which is the glyph.
    let glyph = |pm: &Pixmap| {
        (cx - 11..cx + 11)
            .flat_map(|x| (cy - 11..cy + 11).map(move |y| (x, y)))
            .map(|(x, y)| brightest(pm.pixel(x, y).unwrap()))
            .max()
            .unwrap()
    };
    assert!(
        (glyph(&dead) as f32) < glyph(&live) as f32 * 0.6,
        "disabled {} against live {}",
        glyph(&dead),
        glyph(&live)
    );
    assert!(glyph(&dead) > 20, "the disabled glyph vanished");
    // And only that button dims: Settings is untouched.
    let sx = (ENVELOPE_W as i32 / 2 + island_centre(2)) as u32;
    let settings = |pm: &Pixmap| {
        (sx - 11..sx + 11)
            .flat_map(|x| (cy - 11..cy + 11).map(move |y| (x, y)))
            .map(|(x, y)| brightest(pm.pixel(x, y).unwrap()))
            .max()
            .unwrap()
    };
    assert_eq!(settings(&dead), settings(&live));
}

/// The gaps between islands are drawn, faintly, and survive being halved twice on the
/// way to the screen: an alpha of zero would be a hole that the mouse falls through.
#[test]
fn the_gaps_between_islands_are_not_holes() {
    const SS: u32 = 4;
    let mut hi = Pixmap::new(ENVELOPE_W * SS, ENVELOPE_H * SS).unwrap();
    let geom = Geom::of(PillMode::Expanded);
    draw(&mut hi, SS, &geom, &FLAT, &NO_SLOTS, &NO_LABEL);
    let paint = tiny_skia::PixmapPaint {
        quality: tiny_skia::FilterQuality::Bilinear,
        ..Default::default()
    };
    let half = Transform::from_scale(0.5, 0.5);
    let mut mid = Pixmap::new(ENVELOPE_W * 2, ENVELOPE_H * 2).unwrap();
    mid.draw_pixmap(0, 0, hi.as_ref(), &paint, half, None);
    let mut out = Pixmap::new(ENVELOPE_W, ENVELOPE_H).unwrap();
    out.draw_pixmap(0, 0, mid.as_ref(), &paint, half, None);

    let cy = cy(&out, 1);
    for i in 0..BUTTON_COUNT - 1 {
        let mid_x = island_centre(i) as f32
            + button(i).w as f32 / 2.0
            + BAR_GAP as f32 / 2.0
            + ENVELOPE_W as f32 / 2.0;
        let p = out.pixel(mid_x.round() as u32, cy).unwrap();
        assert!(p.alpha() > 0, "gap {i} is a hole: {p:?}");
        assert!(p.alpha() < 16, "gap {i} is visible: {p:?}");
    }
    // Past the last island, the end padding stays a hole.
    let outside = (ENVELOPE_W as f32 / 2.0 + bar_width() as f32 / 2.0 + 1.0) as u32;
    assert_eq!(out.pixel(outside, cy).unwrap().alpha(), 0);
}

/// Nothing but the nub is drawn where there are no buttons.
#[test]
fn the_nub_draws_no_buttons() {
    let pm = frame(PillMode::Idle, &FLAT);
    assert_eq!(runs(&pm, cy(&pm, 1)).len(), 1);
}

/// The expanded bar with the label saying `fade`.
fn with_label(fade: &Fade) -> Pixmap {
    let mut pm = envelope();
    let geom = Geom::of(PillMode::Expanded);
    draw(&mut pm, 1, &geom, &FLAT, &NO_SLOTS, fade);
    pm
}

/// One settled text, fully faded in.
fn showing(text: &'static str) -> Fade {
    Fade {
        from: None,
        to: Some(text),
        t: WHOLE,
    }
}

/// The drawn extent of a row, left to right.
fn rows_x(pm: &Pixmap, y: u32) -> (u32, u32) {
    let r = runs(pm, y);
    (r[0].0, r.last().unwrap().1)
}

/// Where the button bar begins.
fn bar_top(pm: &Pixmap) -> f32 {
    px(pill_centre_y(pm.height(), LOGICAL_DPI)) - BAR_H as f32 / 2.0
}

/// The rows above the button bar on which anything is drawn.
fn label_rows(pm: &Pixmap) -> Vec<u32> {
    let bar_top = bar_top(pm);
    (0..bar_top as u32)
        .filter(|&y| (0..pm.width()).any(|x| pm.pixel(x, y).unwrap().alpha() > 8))
        .collect()
}

/// The row through the label's middle.
fn label_cy(pm: &Pixmap) -> f32 {
    let body_h = Geom::of(PillMode::Expanded).h;
    px(label_centre_y(pm.height(), LOGICAL_DPI, body_h))
}

/// With nothing hovered there are no pixels above the pill at all.
#[test]
fn no_hover_draws_no_label() {
    let pm = bar(&NO_SLOTS);
    assert!(label_rows(&pm).is_empty(), "{:?}", label_rows(&pm));
    let pm = with_label(&NO_LABEL);
    assert!(label_rows(&pm).is_empty(), "{:?}", label_rows(&pm));
}

/// A hovered button's name is a chip above the bar, clear of it.
#[test]
fn a_hovered_button_draws_a_chip_above_the_bar() {
    let pm = with_label(&showing("Settings"));
    let rows = label_rows(&pm);
    assert!(!rows.is_empty(), "the label drew nothing");
    let want = label_cy(&pm);
    let half = LABEL_H as f32 / 2000.0;
    let (top, bottom) = (rows[0] as f32, *rows.last().unwrap() as f32);
    assert!(
        (top - (want - half)).abs() <= 2.0 && (bottom - (want + half)).abs() <= 2.0,
        "chip spans {top}..{bottom}, wanted {want} +- {half}"
    );
    assert!(bottom < bar_top(&pm), "the chip touches the bar");
    // Dark body, light text.
    let cy = want.round() as u32;
    let ink = (cy - 4..cy + 4)
        .flat_map(|y| (0..ENVELOPE_W).map(move |x| (x, y)))
        .map(|(x, y)| brightest(pm.pixel(x, y).unwrap()))
        .max()
        .unwrap();
    assert!(ink > 120, "no light text in the chip ({ink})");
    let body = brightest(pm.pixel(rows_x(&pm, cy).0 + 3, cy).unwrap());
    assert!(body < 60, "the chip's body is not dark ({body})");
}

/// The chip is sized to the text it holds.
#[test]
fn the_chip_is_sized_to_its_text() {
    let extent = |text: &'static str| {
        let pm = with_label(&showing(text));
        rows_x(&pm, label_cy(&pm).round() as u32)
    };
    let (s0, s1) = extent("Settings");
    let (c0, c1) = extent("Copy last transcript");
    assert!(c1 - c0 > s1 - s0, "the chip ignored its text");
    // Both centred on the pill, and inside the envelope.
    for (lo, hi) in [(s0, s1), (c0, c1)] {
        let centre = (lo + hi) as f32 / 2.0;
        assert!((centre - ENVELOPE_W as f32 / 2.0).abs() <= 2.0, "off centre");
        assert!(hi < ENVELOPE_W, "the chip overflows the envelope");
    }
}

/// Mid-crossfade there is one chip, not two dissolving through each other.
#[test]
fn the_crossfade_draws_one_chip() {
    let fade = Fade {
        from: Some("Settings"),
        to: Some("Copy last transcript"),
        t: WHOLE / 2,
    };
    let pm = with_label(&fade);
    // The chip's own row, above the text's ink: one continuous run.
    let edge = (label_cy(&pm).round() - LABEL_H as f32 / 2000.0 + 2.0) as u32;
    assert_eq!(runs(&pm, edge).len(), 1, "{:?}", runs(&pm, edge));
    // And its width is between the two texts' own.
    let span = |f: &Fade| {
        let (lo, hi) = rows_x(&with_label(f), edge);
        hi - lo
    };
    let narrow = span(&showing("Settings"));
    let wide = span(&showing("Copy last transcript"));
    let mid = span(&fade);
    assert!(narrow < mid && mid < wide, "{narrow} {mid} {wide}");
}

const CLICK_REC: PillMode = PillMode::Recording {
    origin: Origin::Click,
};

/// How far the check button at `i` is from the middle of the settled body.
fn check_centre(i: usize) -> f32 {
    let reach = CLICK_W as f32 / 2.0 - CHECK_INSET as f32;
    if check_button(i).action == Action::Cancel {
        -reach
    } else {
        reach
    }
}

/// The click-started pill is one body, 112 wide: not the bar's three islands, and not
/// the 62 that the hotkey pill is.
#[test]
fn the_click_started_pill_draws_one_body_at_its_settled_width() {
    let pm = frame(CLICK_REC, &FLAT);
    let body = runs(&pm, cy(&pm, 1));
    assert_eq!(body.len(), 1, "{body:?}");
    let width = body[0].1 - body[0].0 + 1;
    assert!(width.abs_diff(112) <= 2, "body width {width}");
    // And the hotkey pill is untouched beside it.
    let bare = runs(&frame(REC, &FLAT), cy(&pm, 1));
    assert_eq!(bare.len(), 1);
    assert!((bare[0].1 - bare[0].0 + 1).abs_diff(62) <= 2);
}

/// Confirm is a filled disc and cancel is not.
#[test]
fn confirm_is_a_filled_disc_and_cancel_is_barely_one() {
    let pm = frame(CLICK_REC, &FLAT);
    let cy = cy(&pm, 1);
    let cx = ENVELOPE_W as f32 / 2.0;
    // The brightest and darkest pixel inside each disc, over a box that holds the
    // middle of the 20px circle and nothing outside it.
    let box_at = |i: usize| -> (u8, u8) {
        let dx = cx + check_centre(i);
        let px: Vec<u8> = (-7i32..=7)
            .flat_map(|x| (-7i32..=7).map(move |y| (x, y)))
            .map(|(x, y)| {
                brightest(
                    pm.pixel((dx as i32 + x) as u32, (cy as i32 + y) as u32)
                        .unwrap(),
                )
            })
            .collect();
        (*px.iter().min().unwrap(), *px.iter().max().unwrap())
    };
    let (cancel_lo, cancel_hi) = box_at(0);
    let (confirm_lo, confirm_hi) = box_at(1);
    assert!(confirm_hi > 200, "confirm is not a filled disc ({confirm_hi})");
    assert!(
        confirm_lo < confirm_hi / 3,
        "the check is not knocked out ({confirm_lo} in {confirm_hi})"
    );
    assert!(cancel_hi > 150, "cancel has no glyph on it ({cancel_hi})");
    assert!(
        cancel_lo < 60 && cancel_lo < confirm_hi / 3,
        "cancel's disc reads as filled ({cancel_lo})"
    );
}

/// The discs of a frame, by where their middles are and how strong they are.
fn discs(p: &Picture) -> Vec<(f32, u8)> {
    p.shapes
        .iter()
        .filter_map(|s| match s {
            Shape::Fill { rect, ink } if rect.w == CHECK_BUTTON as i128 * PX => {
                Some((px(rect.x + rect.w / 2), ink.alpha))
            }
            _ => None,
        })
        .collect()
}

/// The buttons are inside the body, with the waveform between them.
#[test]
fn the_check_sits_inside_the_body_with_the_row_between() {
    let g = Geom::of(CLICK_REC);
    assert_eq!((check_centre(0), check_centre(1)), (-39.0, 39.0));
    let (none, _, _) = caption(&NO_LABEL, LOGICAL_DPI);
    let loud = vec![WHOLE; BAR_COUNT];
    let p = compose(&g, LOGICAL_DPI, &loud, &NO_SLOTS.to_vec(), &none);
    assert_eq!(discs(&p), vec![(-39.0, 25), (39.0, 239)]);
    // The row is the 34 that the layout leaves it, and it clears both discs.
    assert_eq!(row_room(&g, LOGICAL_DPI), 34 * PX);
    let last = p.bars[BAR_COUNT - 1];
    let span = px(last.x + last.w - p.bars[0].x);
    assert!((span - 34.0).abs() < 0.001, "{span}");
    let pm = frame(CLICK_REC, &loud);
    let cy = cy(&pm, 1);
    let cx = ENVELOPE_W as f32 / 2.0;
    // Halfway between a disc and the row is body, not a bar and not a disc.
    for dx in [-27.0f32, 27.0] {
        let p = brightest(pm.pixel((cx + dx) as u32, cy).unwrap());
        assert!(p < 60, "the row or a disc reached {dx} ({p})");
    }
}

/// The waveform is squeezed into the gap that the check leaves it.
#[test]
fn the_row_is_fitted_between_the_two_buttons() {
    let settled = Geom::of(CLICK_REC);
    let body = body_of(&settled, LOGICAL_DPI);
    let natural = Bars::new(body.w, body.h).span(BAR_COUNT);
    assert!(natural > 34 * PX, "the fit had nothing to do ({natural})");
    let row = Bars::new(body.w, body.h)
        .fitted(row_room(&settled, LOGICAL_DPI), BAR_COUNT)
        .span(BAR_COUNT);
    let inner = check_centre(1) - CHECK_BUTTON as f32 / 2.0;
    assert!(px(row) / 2.0 <= inner, "the row reached the check");
    // And that is what is drawn: 34, not the 42 that the body would have given.
    let pm = frame(CLICK_REC, &[WHOLE; BAR_COUNT]);
    let cy = cy(&pm, 1);
    let cx = ENVELOPE_W / 2;
    let bright: Vec<u32> = (cx - 20..cx + 20)
        .filter(|&x| brightest(pm.pixel(x, cy).unwrap()) > 150)
        .collect();
    let drawn = bright.last().unwrap() - bright[0] + 1;
    assert!((30..=34).contains(&drawn), "the row spans {drawn}");
}

/// A fully-rounded corner is a real circular arc.
#[test]
fn full_radius_corners_are_circular() {
    let mut pm = Pixmap::new(40, 40).unwrap();
    let disc = RoundRect {
        x: 0,
        y: 0,
        w: 40 * PX,
        h: 40 * PX,
        r: 20 * PX,
    };
    let path = path_of(&[disc]).unwrap();
    let paint = paint_of(255, 255, 255, 255);
    pm.fill_path(&path, &paint, FillRule::Winding, Transform::identity(), None);

    // 45-degree ray from the centre: inside the circle stays filled, beyond it must
    // be empty.
    let at = |dist: f32| {
        let d = dist / std::f32::consts::SQRT_2;
        pm.pixel((20.0 + d).floor() as u32, (20.0 - d).floor() as u32)
            .unwrap()
            .alpha()
    };
    assert!(at(18.0) > 200, "inside the circle should be filled");
    assert!(at(20.8) < 40, "corner bulges past the circle");
}

/// Corners of no more than half a pixel are sharp, and a rectangle that is inside out
/// is nothing.
#[test]
fn small_corners_are_sharp() {
    let rect = RoundRect {
        x: PX,
        y: -PX,
        w: 4 * PX,
        h: 2 * PX,
        r: PX / 2,
    };
    let p = |x: i128, y: i128| Point { x, y };
    assert_eq!(
        outline(&rect),
        vec![
            Leg::MoveTo(p(PX, -PX)),
            Leg::LineTo(p(5 * PX, -PX)),
            Leg::LineTo(p(5 * PX, PX)),
            Leg::LineTo(p(PX, PX)),
            Leg::Close,
        ]
    );
    assert_eq!(outline(&RoundRect { w: -1, ..rect }), vec![]);
    assert_eq!(outline(&RoundRect { r: PX, ..rect }).len(), 10);
}

/// What a frame is made of, from the back to the front.
#[test]
fn a_frame_is_composed_from_back_to_front() {
    let (none, _, _) = caption(&NO_LABEL, LOGICAL_DPI);
    let mut slots = NO_SLOTS.to_vec();
    slots[1].hover = WHOLE;
    slots[2].enabled = false;
    let geom = Geom::of(PillMode::Expanded);
    let p = compose(&geom, LOGICAL_DPI, &FLAT.to_vec(), &slots, &none);
    let names: Vec<char> = p
        .shapes
        .iter()
        .map(|s| match s {
            Shape::Fill { .. } => 'f',
            Shape::Edge { .. } => 'e',
            Shape::Strip { .. } => 's',
            Shape::Bars { .. } => 'b',
            Shape::Glyph { .. } => 'g',
            Shape::Words { .. } => 'w',
        })
        .collect();
    // The strip, the two flankers, the body, and then the icons, one of them on an
    // indicator.
    assert_eq!(names.iter().collect::<String>(), "sfefefegfgg");
    assert!(p.bars.is_empty());
    let alphas: Vec<u8> = p
        .shapes
        .iter()
        .filter_map(|s| match s {
            Shape::Glyph { ink, .. } => Some(ink.alpha),
            _ => None,
        })
        .collect();
    assert_eq!(alphas, vec![178, 255, 89]);
    let xs: Vec<i128> = p
        .shapes
        .iter()
        .filter_map(|s| match s {
            Shape::Glyph { x, .. } => Some(*x / PX),
            _ => None,
        })
        .collect();
    assert_eq!(xs, vec![-43, 0, 43]);

    let row = compose(&Geom::of(REC), LOGICAL_DPI, &vec![WHOLE; BAR_COUNT], &slots, &none);
    assert_eq!(row.shapes.len(), 3);
    assert_eq!(row.shapes[2], Shape::Bars { alpha: 235 });
    assert_eq!(row.bars.len(), BAR_COUNT);
    // A body of 59 by 25 pixels.
    assert_eq!(body_of(&Geom::of(REC), LOGICAL_DPI).w, 59 * PX);
    assert_eq!(row.bars[0].h, 25 * PX * 32 / 42);
    assert_eq!(row.bars[0].w, 59 * PX * 5 / 172);

    // Nothing is left of a body that its edge takes up.
    let thin = Geom { h: 3 * UNIT, ..geom };
    assert!(compose(&thin, LOGICAL_DPI, &FLAT.to_vec(), &slots, &none).shapes.is_empty());
}

/// A label whose em is `em` device pixels: its path and its width.
fn label(text: &str, em: f32) -> Option<(Path, f32)> {
    let density = (em / 11.5 * LOGICAL_DPI as f32).round() as u32;
    let run = lay_out(&font(), text)?;
    let path = words(&run, density)?;
    Some((path, px(label_width(&run, density))))
}

/// There is a face to draw with, and a text comes back as ink.
#[test]
fn a_label_becomes_a_path() {
    let (path, width) = label("Settings", 23.0).expect("no label face");
    assert!(width > 0.0);
    assert!(!path.bounds().width().is_nan());
}

/// Centred on the origin, both ways.
#[test]
fn a_label_is_centred_on_the_origin() {
    let (path, width) = label("Copy last transcript", 46.0).unwrap();
    let b = path.bounds();
    let cx = (b.left() + b.right()) / 2.0;
    let cy = (b.top() + b.bottom()) / 2.0;
    assert!(cx.abs() < width * 0.03, "off centre horizontally: {cx}");
    assert!(cy.abs() < 46.0 * 0.15, "off centre vertically: {cy}");
}

/// The label scales with the density.
#[test]
fn a_label_scales_with_its_size() {
    let (_, one) = label("Copied", 23.0).unwrap();
    let (_, two) = label("Copied", 46.0).unwrap();
    assert!((two - one * 2.0).abs() < 0.5, "{two} against {one}");
}

/// A text with no ink is nothing, not an empty path.
#[test]
fn a_blank_label_has_no_path() {
    assert!(label("", 23.0).is_none());
    assert!(label("   ", 23.0).is_none());
}

/// Each glyph stands where the pen was, counted from the middle, and the baseline is
/// half a capital down.
#[test]
fn glyphs_are_counted_from_the_middle() {
    let run = run_of(
        1000,
        Some(700),
        &vec![
            Some(Glyph {
                id: 1,
                advance: Some(600),
            }),
            Some(Glyph {
                id: 2,
                advance: Some(400),
            }),
        ],
    );
    // An em of 11.5 pixels.
    assert_eq!(label_width(&run, LOGICAL_DPI), PX * 23 / 2);
    assert_eq!(
        label_spots(&run, LOGICAL_DPI),
        vec![-PX * 23 / 4, PX * 69 / 10 - PX * 23 / 4]
    );
    assert_eq!(label_baseline(&run, LOGICAL_DPI), PX * 161 / 40);
    let low = Run {
        cap_tenths: -7000,
        ..run
    };
    assert_eq!(label_baseline(&low, LOGICAL_DPI), -PX * 161 / 40);
}

/// The grid is 72 hundredths of the glyph's box, and the stroke two of its steps.
#[test]
fn the_grid_maps_onto_the_settled_share_of_the_glyph_box() {
    assert!((px(grid_width(GLYPH_BOX, LOGICAL_DPI)) - 15.84).abs() < 1e-4);
    assert!((px(stroke_width(GLYPH_BOX, LOGICAL_DPI)) - 1.32).abs() < 1e-4);
    assert_eq!(grid_width(GLYPH_BOX, LOGICAL_DPI) * 100, 1584 * PX);
    assert_eq!(stroke_width(GLYPH_BOX, LOGICAL_DPI) * 100, 132 * PX);
}

/// The pill's centre is half its band above the bottom, and the label's middle half a
/// body, the gap and half a chip above that.
#[test]
fn the_pill_sits_in_its_band() {
    assert_eq!(pill_centre_y(ENVELOPE_H, LOGICAL_DPI), (64 - 18) * PX);
    assert_eq!(pill_centre_y(ENVELOPE_H * 4, 4 * LOGICAL_DPI), 4 * (64 - 18) * PX);
    assert_eq!(label_centre_y(ENVELOPE_H, LOGICAL_DPI, 32 * UNIT), (46 - 33) * PX);
    assert_eq!(label_centre_y(ENVELOPE_H, LOGICAL_DPI, 10 * UNIT), (46 - 22) * PX);
}
