//! The label's text as a run of glyphs: which ones, and where each one starts.
//! There is no shaping: the characters go left to right, each by its own advance,
//! and one that the face has no glyph for is left out.
//!
//! Positions are counted in font units, [`Run::units_per_em`] of them to the em.
use crate::text::chars_of;
use vstd::prelude::*;

verus! {

/// What `Face::parse` and `Face::units_per_em` make of a font file.
pub uninterp spec fn em_units(font: Seq<u8>) -> Option<u16>;

/// Calls `ttf_parser::Face::parse` on the first face of a font file and
/// `Face::units_per_em` on the face, which keeps it within 16 and 16384. `None`
/// where the file has no such face. The result depends on the file alone and goes
/// by the name [`em_units`].
#[verifier::external_body]
fn face_units_per_em(font: &Vec<u8>) -> (r: Option<u16>)
    ensures
        r == em_units(font@),
        r is Some ==> 16 <= r.unwrap() <= 16384,
{
    let face = ttf_parser::Face::parse(font, 0).ok()?;
    Some(face.units_per_em())
}

/// What `Face::capital_height` makes of a font file.
pub uninterp spec fn capital_units(font: Seq<u8>) -> Option<i16>;

/// Calls `ttf_parser::Face::capital_height` on the first face of a font file:
/// the height of its capitals, where the file has a face that says so. The result
/// depends on the file alone and goes by the name [`capital_units`].
#[verifier::external_body]
fn face_capital_height(font: &Vec<u8>) -> (r: Option<i16>)
    ensures
        r == capital_units(font@),
{
    let face = ttf_parser::Face::parse(font, 0).ok()?;
    face.capital_height()
}

/// What `Face::glyph_index` makes of a font file and a character.
pub uninterp spec fn glyph_of(font: Seq<u8>, c: char) -> Option<u16>;

/// Calls `ttf_parser::Face::glyph_index` on the first face of a font file: the
/// number of the glyph of a character, where the face has one. The result depends
/// on the file and the character alone and goes by the name [`glyph_of`].
#[verifier::external_body]
fn face_glyph_index(font: &Vec<u8>, c: char) -> (r: Option<u16>)
    ensures
        r == glyph_of(font@, c),
{
    let face = ttf_parser::Face::parse(font, 0).ok()?;
    let id = face.glyph_index(c)?;
    Some(id.0)
}

/// What `Face::glyph_hor_advance` makes of a font file and a glyph.
pub uninterp spec fn advance_of(font: Seq<u8>, glyph: u16) -> Option<u16>;

/// Calls `ttf_parser::Face::glyph_hor_advance` on the first face of a font file:
/// how far a glyph moves the pen, where the face says so. The result depends on
/// the file and the glyph alone and goes by the name [`advance_of`].
#[verifier::external_body]
fn face_advance(font: &Vec<u8>, glyph: u16) -> (r: Option<u16>)
    ensures
        r == advance_of(font@, glyph),
{
    let face = ttf_parser::Face::parse(font, 0).ok()?;
    face.glyph_hor_advance(ttf_parser::GlyphId(glyph))
}

/// A glyph, and how far it moves the pen where the face says so.
#[derive(Clone, Copy, Debug, PartialEq, Eq)]
pub struct Glyph {
    pub id: u16,
    pub advance: Option<u16>,
}

/// A glyph in its place.
#[derive(Clone, Copy, Debug, PartialEq, Eq, Structural)]
pub struct Placed {
    pub id: u16,
    /// Where the pen stands when it is drawn.
    pub pen: u128,
}

/// A text laid out.
#[derive(Clone, Debug, PartialEq, Eq)]
pub struct Run {
    pub units_per_em: u16,
    /// The height of a capital, in tenths of a unit. The run is centred on it, so
    /// that texts with and without descenders sit on the same line.
    pub cap_tenths: i32,
    pub glyphs: Vec<Placed>,
    /// Where the pen ends up.
    pub width: u128,
}

/// How far a glyph moves the pen; a character without one does not move it.
pub open spec fn step(g: Option<Glyph>) -> nat {
    match g {
        Some(g) => match g.advance {
            Some(a) => a as nat,
            None => 0,
        },
        None => 0,
    }
}

/// How wide some glyphs are, one behind the other.
pub open spec fn width_of(glyphs: Seq<Option<Glyph>>) -> nat
    decreases glyphs.len(),
{
    if glyphs.len() == 0 {
        0
    } else {
        width_of(glyphs.drop_last()) + step(glyphs.last())
    }
}

/// The glyphs that are there, each where the ones before it end.
pub open spec fn placed(glyphs: Seq<Option<Glyph>>) -> Seq<Placed>
    decreases glyphs.len(),
{
    if glyphs.len() == 0 {
        Seq::empty()
    } else {
        let before = placed(glyphs.drop_last());
        match glyphs.last() {
            Some(g) => before.push(
                Placed { id: g.id, pen: width_of(glyphs.drop_last()) as u128 },
            ),
            None => before,
        }
    }
}

/// The height of a capital in tenths of a unit: seven tenths of the em where the
/// face does not say.
pub open spec fn capitals(units_per_em: u16, cap: Option<i16>) -> int {
    match cap {
        Some(c) => c * 10,
        None => units_per_em * 7,
    }
}

/// Lays out the glyphs of a text.
pub fn run_of(units_per_em: u16, cap: Option<i16>, glyphs: &Vec<Option<Glyph>>) -> (r: Run)
    ensures
        r.units_per_em == units_per_em,
        r.cap_tenths == capitals(units_per_em, cap),
        r.glyphs@ == placed(glyphs@),
        r.width == width_of(glyphs@),
        forall|k: int| 0 <= k < r.glyphs@.len() ==> (#[trigger] r.glyphs@[k]).pen <= r.width,
{
    let mut out: Vec<Placed> = Vec::new();
    let mut pen: u128 = 0;
    let mut i: usize = 0;
    assert(glyphs@.take(0) =~= Seq::empty());
    while i < glyphs.len()
        invariant
            i <= glyphs@.len(),
            out@ == placed(glyphs@.take(i as int)),
            pen == width_of(glyphs@.take(i as int)),
            pen <= i * 0xffff,
            forall|k: int| 0 <= k < out@.len() ==> (#[trigger] out@[k]).pen <= pen,
        decreases glyphs.len() - i,
    {
        let ghost next = glyphs@.take(i + 1);
        assert(next.drop_last() =~= glyphs@.take(i as int));
        assert(next.last() == glyphs@[i as int]);
        if let Some(g) = glyphs[i] {
            out.push(Placed { id: g.id, pen });
            if let Some(a) = g.advance {
                pen = pen + a as u128;
            }
        }
        i += 1;
    }
    assert(glyphs@.take(glyphs@.len() as int) =~= glyphs@);
    let cap_tenths: i32 = match cap {
        Some(c) => c as i32 * 10,
        None => units_per_em as i32 * 7,
    };
    Run { units_per_em, cap_tenths, glyphs: out, width: pen }
}

/// The glyph of a character in a font file.
pub open spec fn glyph_in(font: Seq<u8>, c: char) -> Option<Glyph> {
    match glyph_of(font, c) {
        Some(id) => Some(Glyph { id, advance: advance_of(font, id) }),
        None => None,
    }
}

/// The glyphs of a text in a font file.
pub open spec fn glyphs_in(font: Seq<u8>, text: Seq<char>) -> Seq<Option<Glyph>> {
    Seq::new(text.len(), |i: int| glyph_in(font, text[i]))
}

/// Lays out a text in the first face of a font file, where it has one.
pub fn lay_out(font: &Vec<u8>, text: &str) -> (r: Option<Run>)
    ensures
        match em_units(font@) {
            Some(units) => r matches Some(run) && run.units_per_em == units && run.cap_tenths
                == capitals(units, capital_units(font@)) && run.glyphs@ == placed(
                glyphs_in(font@, text@),
            ) && run.width == width_of(glyphs_in(font@, text@)),
            None => r is None,
        },
        r matches Some(run) ==> 16 <= run.units_per_em <= 16384,
        r matches Some(run) ==> forall|k: int|
            0 <= k < run.glyphs@.len() ==> (#[trigger] run.glyphs@[k]).pen <= run.width,
{
    let units_per_em: u16 = face_units_per_em(font)?;
    let cap = face_capital_height(font);
    let chars = chars_of(text);
    let mut glyphs: Vec<Option<Glyph>> = Vec::new();
    let mut i: usize = 0;
    while i < chars.len()
        invariant
            i <= chars@.len(),
            chars@ == text@,
            glyphs@ == glyphs_in(font@, text@.take(i as int)),
        decreases chars.len() - i,
    {
        let glyph = match face_glyph_index(font, chars[i]) {
            Some(id) => Some(Glyph { id, advance: face_advance(font, id) }),
            None => None,
        };
        glyphs.push(glyph);
        i += 1;
        assert(glyphs@ =~= glyphs_in(font@, text@.take(i as int)));
    }
    assert(text@.take(i as int) =~= text@);
    Some(run_of(units_per_em, cap, &glyphs))
}

/// Laying out a longer text only adds to it: what was there stays in its place, and
/// the run gets no narrower.
pub proof fn law_a_longer_text_only_adds(glyphs: Seq<Option<Glyph>>, more: Option<Glyph>)
    ensures
        placed(glyphs).is_prefix_of(placed(glyphs.push(more))),
        width_of(glyphs.push(more)) == width_of(glyphs) + step(more),
{
    assert(glyphs.push(more).drop_last() =~= glyphs);
}

/// A text that the face has no glyphs for draws nothing and takes no room.
pub proof fn law_unmapped_text_is_nothing(glyphs: Seq<Option<Glyph>>)
    requires
        forall|i: int| 0 <= i < glyphs.len() ==> #[trigger] glyphs[i] is None,
    ensures
        placed(glyphs) == Seq::<Placed>::empty(),
        width_of(glyphs) == 0,
    decreases glyphs.len(),
{
    if glyphs.len() > 0 {
        assert forall|i: int| 0 <= i < glyphs.drop_last().len() implies #[trigger] glyphs.drop_last()[i]
            is None by {
            assert(glyphs[i] is None);
        }
        law_unmapped_text_is_nothing(glyphs.drop_last());
        assert(glyphs[glyphs.len() - 1] is None);
    }
}

/// A glyph stands where the ones before it end and moves the pen by its own advance; a
/// character that the face has no glyph for leaves everything as it is.
pub proof fn law_each_glyph_stands_behind_the_last(
    glyphs: Seq<Option<Glyph>>,
    id: u16,
    advance: u16,
)
    requires
        width_of(glyphs) <= u128::MAX,
    ensures
        ({
            let one = glyphs.push(Some(Glyph { id, advance: Some(advance) }));
            let still = glyphs.push(Some(Glyph { id, advance: None }));
            let pen = width_of(glyphs) as u128;
            &&& placed(one) == placed(glyphs).push(Placed { id, pen })
            &&& pen == width_of(glyphs)
            &&& width_of(one) == width_of(glyphs) + advance
            &&& placed(still) == placed(glyphs).push(Placed { id, pen })
            &&& width_of(still) == width_of(glyphs)
            &&& placed(glyphs.push(None)) == placed(glyphs)
            &&& width_of(glyphs.push(None)) == width_of(glyphs)
            &&& width_of(Seq::empty()) == 0
        }),
{
    assert(glyphs.push(Some(Glyph { id, advance: Some(advance) })).drop_last() =~= glyphs);
    assert(glyphs.push(Some(Glyph { id, advance: None })).drop_last() =~= glyphs);
    assert(glyphs.push(None).drop_last() =~= glyphs);
}

/// Capitals are as high as the face says, and seven tenths of the em where it does not,
/// both in tenths of a unit.
pub proof fn law_how_high_capitals_are(units_per_em: u16, cap: i16)
    ensures
        capitals(units_per_em, Some(cap)) == 10 * cap,
        10 * capitals(units_per_em, None) == 7 * (10 * units_per_em),
{
}

/// The characters of a text become glyphs one for one, in their order: each the glyph that
/// the face has for it, with the advance of that glyph.
pub proof fn law_characters_become_glyphs(font: Seq<u8>, text: Seq<char>, i: int)
    requires
        0 <= i < text.len(),
    ensures
        glyphs_in(font, text).len() == text.len(),
        glyph_of(font, text[i]) is None ==> glyphs_in(font, text)[i] is None,
        glyph_of(font, text[i]) matches Some(id) ==> glyphs_in(font, text)[i] == Some(
            Glyph { id, advance: advance_of(font, id) },
        ),
{
}

} // verus!
