use harfbuzz::ot::{
    get_attach_points, get_glyph_class, get_glyphs_in_class, get_ligature_carets,
    has_glyph_classes, has_positioning, has_substitution, table_find_script,
    table_get_script_tags, GlyphClass, GlyphList, Layout, NO_SCRIPT_INDEX, TAG_GPOS, TAG_GSUB,
};
use harfbuzz::unicode::CodepointRange;
use harfbuzz::{Blob, Face, Tag};

fn tag(name: &[u8; 4]) -> Tag {
    Tag::from_bytes(*name)
}

fn face_with_layout() -> Face {
    let mut layout = Layout::new();
    layout.glyph_classes = Some(vec![
        CodepointRange { first: 1, last: 3, value: GlyphClass::BaseGlyph },
        CodepointRange { first: 5, last: 5, value: GlyphClass::Mark },
        CodepointRange { first: 2, last: 9, value: GlyphClass::Ligature },
    ]);
    layout.attach_points = vec![GlyphList { glyph: 2, values: vec![4, 7, 9] }];
    layout.ligature_carets = vec![GlyphList { glyph: 8, values: vec![-100, 250] }];
    layout.substitution_scripts = Some(vec![tag(b"arab"), tag(b"DFLT"), tag(b"latn")]);
    let mut face = Face::new(Blob::from_vec(Vec::new()), 0);
    face.set_glyph_count(8);
    face.set_layout(layout);
    face
}

#[test]
fn tags_of_the_layout_tables() {
    assert_eq!(TAG_GSUB, tag(b"GSUB").value);
    assert_eq!(TAG_GPOS, tag(b"GPOS").value);
    assert_eq!(GlyphClass::default(), GlyphClass::Unclassified);
}

#[test]
fn glyph_classes() {
    let face = face_with_layout();
    assert!(has_glyph_classes(&face));
    assert_eq!(get_glyph_class(&face, 0), GlyphClass::Unclassified);
    assert_eq!(get_glyph_class(&face, 2), GlyphClass::BaseGlyph);
    assert_eq!(get_glyph_class(&face, 4), GlyphClass::Ligature);
    assert_eq!(get_glyph_class(&face, 5), GlyphClass::Mark);
    assert_eq!(get_glyphs_in_class(&face, GlyphClass::BaseGlyph), vec![1, 2, 3]);
    assert_eq!(get_glyphs_in_class(&face, GlyphClass::Ligature), vec![4, 6, 7]);
    assert_eq!(get_glyphs_in_class(&face, GlyphClass::Component), Vec::<u32>::new());
    let bare = Face::new(Blob::from_vec(Vec::new()), 0);
    assert!(!has_glyph_classes(&bare));
    assert_eq!(get_glyph_class(&bare, 2), GlyphClass::Unclassified);
}

#[test]
fn attach_points_and_carets_from_an_offset() {
    let face = face_with_layout();
    assert_eq!(get_attach_points(&face, 2, 0), vec![4, 7, 9]);
    assert_eq!(get_attach_points(&face, 2, 2), vec![9]);
    assert_eq!(get_attach_points(&face, 2, 3), Vec::<u32>::new());
    assert_eq!(get_attach_points(&face, 2, 9), Vec::<u32>::new());
    assert_eq!(get_attach_points(&face, 3, 0), Vec::<u32>::new());
    assert_eq!(get_ligature_carets(&face, 8, 1), vec![250]);
    assert_eq!(get_ligature_carets(&face, 1, 0), Vec::<i32>::new());
}

#[test]
fn scripts_of_a_table() {
    let face = face_with_layout();
    assert!(has_substitution(&face));
    assert!(!has_positioning(&face));
    assert_eq!(
        table_get_script_tags(&face, tag(b"GSUB"), 1),
        vec![tag(b"DFLT"), tag(b"latn")]
    );
    assert_eq!(table_get_script_tags(&face, tag(b"GPOS"), 0), Vec::<Tag>::new());
    assert_eq!(table_find_script(&face, tag(b"GSUB"), tag(b"latn")), (true, 2));
    assert_eq!(table_find_script(&face, tag(b"GSUB"), tag(b"grek")), (false, 1));
    assert_eq!(table_find_script(&face, tag(b"GPOS"), tag(b"latn")), (false, NO_SCRIPT_INDEX));
    assert_eq!(table_find_script(&face, tag(b"head"), tag(b"latn")), (false, NO_SCRIPT_INDEX));
}
