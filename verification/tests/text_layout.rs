use draft::pill::bar::Icon;
use draft::pill::icons::source;
use draft::pill::kept::Kept;
use draft::pill::text::{lay_out, run_of, Glyph, Placed, Run};
use std::sync::Arc;

/// A real face to lay text out in.
fn font() -> Vec<u8> {
    let fonts = egui::FontDefinitions::default();
    fonts.font_data["Ubuntu-Light"].font.to_vec()
}

fn glyph(id: u16, advance: Option<u16>) -> Option<Glyph> {
    Some(Glyph { id, advance })
}

/// Each glyph starts where the ones before it end; a missing one is left out and a
/// missing advance moves nothing.
#[test]
fn glyphs_stand_one_behind_the_other() {
    let run = run_of(1000, Some(700), &vec![
        glyph(5, Some(600)),
        None,
        glyph(6, None),
        glyph(7, Some(40)),
    ]);
    assert_eq!(
        run.glyphs,
        vec![
            Placed { id: 5, pen: 0 },
            Placed { id: 6, pen: 600 },
            Placed { id: 7, pen: 600 },
        ]
    );
    assert_eq!((run.width, run.units_per_em, run.cap_tenths), (640, 1000, 7000));
}

/// A face that does not say how high its capitals are is taken at seven tenths.
#[test]
fn an_unknown_capital_height_is_seven_tenths_of_the_em() {
    assert_eq!(run_of(2048, None, &vec![]).cap_tenths, 2048 * 7);
    assert_eq!(run_of(2048, Some(-1), &vec![]).cap_tenths, -10);
}

/// What a face says is what is laid out.
#[test]
fn a_text_is_laid_out_in_the_face_of_a_file() {
    let font = font();
    let face = ttf_parser::Face::parse(&font, 0).unwrap();
    let run = lay_out(&font, "Copied").unwrap();
    assert_eq!(run.units_per_em, face.units_per_em());
    let ids: Vec<u16> = "Copied".chars().map(|c| face.glyph_index(c).unwrap().0).collect();
    assert_eq!(run.glyphs.iter().map(|g| g.id).collect::<Vec<u16>>(), ids);
    let mut pen: u128 = 0;
    for (g, id) in run.glyphs.iter().zip(&ids) {
        assert_eq!(g.pen, pen);
        pen += face.glyph_hor_advance(ttf_parser::GlyphId(*id)).unwrap() as u128;
    }
    assert_eq!(run.width, pen);
    let cap = face.capital_height().map_or(run.units_per_em as i32 * 7, |c| c as i32 * 10);
    assert_eq!(run.cap_tenths, cap);
}

/// Two different strings are two different widths: a measurement that ignored the
/// text would size every label the same.
#[test]
fn a_longer_label_is_wider() {
    let font = font();
    let short = lay_out(&font, "Settings").unwrap();
    let long = lay_out(&font, "Copy last transcript").unwrap();
    assert!(long.width * 2 > short.width * 3, "{} vs {}", long.width, short.width);
}

/// Characters that the face lacks are nothing, and a file that is no font has no
/// layout.
#[test]
fn what_the_face_lacks_is_left_out() {
    let font = font();
    let run = lay_out(&font, "\u{10ffff}\u{e000}").unwrap();
    assert_eq!((run.glyphs.len(), run.width), (0, 0));
    assert_eq!(lay_out(&vec![1, 2, 3], "a"), None);
    assert_eq!(lay_out(&vec![], "a"), None);
}

/// A label at a size, laid out where it is not kept yet.
fn label(kept: &mut Kept<Option<Arc<Run>>>, text: &'static str, px: f32) -> Option<Arc<Run>> {
    if kept.find(text, px.to_bits()).is_none() {
        let run = lay_out(&font(), text).map(Arc::new);
        kept.keep(text, px.to_bits(), run);
    }
    kept.find(text, px.to_bits()).unwrap().clone()
}

/// What is kept is handed back rather than read from the face again.
#[test]
fn a_label_is_built_once_per_size() {
    let mut kept = Kept::new();
    let a = label(&mut kept, "Settings", 23.0).unwrap();
    let b = label(&mut kept, "Settings", 23.0).unwrap();
    assert!(Arc::ptr_eq(&a, &b));
    // And a different size is a different entry.
    let c = label(&mut kept, "Settings", 24.0).unwrap();
    assert!(!Arc::ptr_eq(&a, &c));
}

/// The first value handed in stays, and another glyph or another size is another
/// entry. That nothing came of it is kept too.
#[test]
fn the_first_one_kept_stays() {
    let mut kept: Kept<Option<u8>> = Kept::new();
    assert_eq!(kept.find(source(Icon::Mic), 22), None);
    kept.keep(source(Icon::Mic), 22, Some(1));
    kept.keep(source(Icon::Mic), 22, Some(2));
    kept.keep(source(Icon::Mic), 44, Some(3));
    kept.keep(source(Icon::Copy), 22, None);
    assert_eq!(kept.find(source(Icon::Mic), 22), Some(&Some(1)));
    assert_eq!(kept.find(source(Icon::Mic), 44), Some(&Some(3)));
    assert_eq!(kept.find(source(Icon::Copy), 22), Some(&None));
    assert_eq!(kept.find(source(Icon::Copy), 44), None);
}
