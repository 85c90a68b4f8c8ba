use harfbuzz::blob::Blob;
use harfbuzz::buffer::{Buffer, BufferContentType, GlyphPosition};
use harfbuzz::common::{Direction, Script, Tag};
use harfbuzz::face::Face;
use harfbuzz::font::{Font, FontFuncs, Table};
use harfbuzz::shape::{
    list_shapers, shape, shape_full, Feature, FeatureError, Shaper, ShaperList,
};

fn bare_font() -> Font {
    Font::new(Face::new(Blob::from_vec(Vec::new()), 0))
}

#[test]
fn feature_parse_plain_tag() {
    let f = Feature::parse("liga").unwrap();
    assert_eq!(f.tag.to_string(), "liga");
    assert_eq!((f.value, f.start, f.end), (1, 0, u32::MAX));
}

#[test]
fn feature_parse_signs() {
    assert_eq!(Feature::parse("-liga").unwrap().value, 0);
    assert_eq!(Feature::parse("+liga").unwrap().value, 1);
    assert_eq!(Feature::parse("-liga=3").unwrap().value, 3);
}

#[test]
fn feature_parse_value_and_range() {
    let f = Feature::parse("liga=2[3:7]").unwrap();
    assert_eq!(f.tag, Tag::from_bytes(*b"liga"));
    assert_eq!((f.value, f.start, f.end), (2, 3, 7));
    let f = Feature::parse("kern[3:7]").unwrap();
    assert_eq!((f.value, f.start, f.end), (1, 3, 7));
    let f = Feature::parse("kern=0[3:]").unwrap();
    assert_eq!((f.value, f.start, f.end), (0, 3, u32::MAX));
    let f = Feature::parse("kern=5[:9]").unwrap();
    assert_eq!((f.value, f.start, f.end), (5, 0, 9));
    let f = Feature::parse("ss01=4294967295").unwrap();
    assert_eq!(f.value, u32::MAX);
}

#[test]
fn feature_parse_short_tag_is_padded() {
    let f = Feature::parse("xx").unwrap();
    assert_eq!(f.tag.to_bytes(), *b"xx  ");
    assert_eq!(f.tag.to_string(), "xx  ");
}

#[test]
fn feature_parse_errors() {
    assert_eq!(Feature::parse(""), Err(FeatureError::Tag));
    assert_eq!(Feature::parse("-"), Err(FeatureError::Tag));
    assert_eq!(Feature::parse("ligax"), Err(FeatureError::Tag));
    assert_eq!(Feature::parse("liga="), Err(FeatureError::Value));
    assert_eq!(Feature::parse("liga=x"), Err(FeatureError::Value));
    assert_eq!(Feature::parse("liga=4294967296"), Err(FeatureError::Value));
    assert_eq!(Feature::parse("liga[3"), Err(FeatureError::Indices));
    assert_eq!(Feature::parse("liga[3:x]"), Err(FeatureError::Indices));
    assert_eq!(Feature::parse("liga[a:3]"), Err(FeatureError::Indices));
    assert_eq!(Feature::parse("liga[4294967296:]"), Err(FeatureError::Indices));
    assert_eq!(Feature::parse("liga[1:2]x"), Err(FeatureError::Trailing));
    assert_eq!(Feature::parse("liga x"), Err(FeatureError::Trailing));
    assert_eq!(Feature::from_str("liga=1"), Feature::parse("liga=1"));
}

#[test]
fn shapers_are_listed_in_order() {
    assert_eq!(list_shapers(), vec!["ot", "fallback"]);
    assert_eq!(Shaper::from_name("ot"), Some(Shaper::Ot));
    assert_eq!(Shaper::from_name("fallback"), Some(Shaper::Fallback));
    assert_eq!(Shaper::from_name("graphite2"), None);
    let list = ShaperList::from_names(&["nothing", "fallback", "ot"]);
    assert_eq!(list.shapers, vec![Shaper::Fallback, Shaper::Ot]);
}

#[test]
fn shape_with_font_without_tables_gives_one_glyph_for_each_codepoint() {
    let font = bare_font();
    let mut buffer = Buffer::new();
    buffer.extend("abc", 0, -1);
    buffer.set_direction(Direction::Ltr);
    buffer.set_script(Script::Latin);
    shape(&font, &mut buffer, &[]);
    assert_eq!(buffer.content_type(), BufferContentType::Glyphs);
    assert_eq!(buffer.len(), 3);
    let infos = buffer.glyph_infos();
    assert_eq!(
        infos.iter().map(|i| (i.codepoint, i.mask, i.cluster)).collect::<Vec<_>>(),
        vec![(0x61, 1, 0), (0x62, 1, 1), (0x63, 1, 2)]
    );
    let zero = GlyphPosition { x_advance: 0, y_advance: 0, x_offset: 0, y_offset: 0 };
    assert_eq!(buffer.glyph_positions(), &[zero, zero, zero]);
}

fn font_with_tables() -> Font {
    let mut funcs = FontFuncs::new();
    let mut glyphs: Table<u32> = Table::new();
    glyphs.set(0x61, 0, 10);
    glyphs.set(0x62, 0, 11);
    funcs.set_glyph_func(glyphs);
    let mut advances: Table<i32> = Table::constant(500);
    advances.set(11, 0, 620);
    funcs.set_glyph_h_advance_func(advances);
    let mut origins: Table<(i32, i32)> = Table::new();
    origins.set(10, 0, (5, -7));
    funcs.set_glyph_h_origin_func(origins);
    let mut font = bare_font();
    font.set_funcs(funcs);
    font
}

#[test]
fn shape_by_tables_maps_glyphs_and_positions() {
    let font = font_with_tables();
    let mut buffer = Buffer::new();
    buffer.extend("abz", 0, -1);
    buffer.set_direction(Direction::Ltr);
    shape(&font, &mut buffer, &[]);
    let glyphs: Vec<u32> = buffer.glyph_infos().iter().map(|i| i.codepoint).collect();
    assert_eq!(glyphs, vec![10, 11, 0]);
    assert_eq!(
        buffer.glyph_positions(),
        &[
            GlyphPosition { x_advance: 500, y_advance: 0, x_offset: -5, y_offset: 7 },
            GlyphPosition { x_advance: 620, y_advance: 0, x_offset: 0, y_offset: 0 },
            GlyphPosition { x_advance: 500, y_advance: 0, x_offset: 0, y_offset: 0 }
        ]
    );
}

#[test]
fn shape_backward_run_reverses_glyphs_and_keeps_clusters() {
    let font = font_with_tables();
    let mut buffer = Buffer::new();
    buffer.extend("abz", 0, -1);
    buffer.set_direction(Direction::Rtl);
    shape(&font, &mut buffer, &[]);
    let glyphs: Vec<(u32, u32)> =
        buffer.glyph_infos().iter().map(|i| (i.codepoint, i.cluster)).collect();
    assert_eq!(glyphs, vec![(0, 2), (11, 1), (10, 0)]);
    assert_eq!(buffer.glyph_positions()[1].x_advance, 620);
}

#[test]
fn shape_vertical_run_uses_vertical_advances() {
    let font = font_with_tables();
    let mut buffer = Buffer::new();
    buffer.extend("a", 0, -1);
    buffer.set_direction(Direction::Ttb);
    shape(&font, &mut buffer, &[]);
    assert_eq!(
        buffer.glyph_positions(),
        &[GlyphPosition { x_advance: 0, y_advance: 0, x_offset: 0, y_offset: 0 }]
    );
}

#[test]
fn shape_applies_features_to_their_ranges() {
    let font = bare_font();
    let mut buffer = Buffer::new();
    buffer.extend("abcd", 0, -1);
    buffer.set_direction(Direction::Ltr);
    let features = [
        Feature::parse("liga[1:3]").unwrap(),
        Feature::parse("-kern").unwrap(),
        Feature::parse("smcp=2[2:]").unwrap(),
    ];
    shape(&font, &mut buffer, &features);
    let masks: Vec<u32> = buffer.glyph_infos().iter().map(|i| i.mask).collect();
    assert_eq!(masks, vec![0b0001, 0b0011, 0b1011, 0b1001]);
}

#[test]
fn shape_full_fails_when_no_named_shaper_can_shape() {
    let font = bare_font();
    let mut buffer = Buffer::new();
    buffer.extend("abc", 0, -1);
    buffer.set_direction(Direction::Ltr);
    let list = ShaperList::from_names(&["ot", "uniscribe"]);
    assert!(!shape_full(&font, &mut buffer, &[], &list));
    assert_eq!(buffer.content_type(), BufferContentType::Unicode);
    assert_eq!(buffer.len(), 3);
    assert_eq!(buffer.glyph_infos()[0].codepoint, 0x61);
    let list = ShaperList::from_names(&["ot", "fallback"]);
    assert!(shape_full(&font, &mut buffer, &[], &list));
    assert_eq!(buffer.content_type(), BufferContentType::Glyphs);
}

#[test]
fn shape_full_takes_first_able_shaper_of_the_list() {
    let font = font_with_tables();
    let mut buffer = Buffer::new();
    buffer.extend("a", 0, -1);
    buffer.set_direction(Direction::Ltr);
    let list = ShaperList::from_names(&["fallback", "ot"]);
    assert!(shape_full(&font, &mut buffer, &[], &list));
    assert_eq!(buffer.glyph_infos()[0].codepoint, 0x61);
    assert_eq!(ShaperList::all().shapers, vec![Shaper::Ot, Shaper::Fallback]);
}

#[test]
fn shape_of_empty_buffer_gives_empty_glyphs() {
    let font = bare_font();
    let mut buffer = Buffer::new();
    buffer.set_direction(Direction::Ltr);
    shape(&font, &mut buffer, &[]);
    assert_eq!(buffer.content_type(), BufferContentType::Glyphs);
    assert_eq!(buffer.len(), 0);
}

#[test]
fn feature_as_text_and_back() {
    for text in ["liga", "-kern", "ss01=3", "smcp[2:5]", "-c2sc[:7]", "aalt=2[3:]", "xx", "a=4294967295[1:4294967294]"] {
        let feature = Feature::parse(text).unwrap();
        assert_eq!(feature.to_string(), text);
        assert_eq!(Feature::parse(&feature.to_string()), Ok(feature));
    }
    assert_eq!(Feature::parse("+liga=1[0:]").unwrap().to_string(), "liga");
    assert_eq!(Feature::parse("kern=0").unwrap().to_string(), "-kern");
    assert_eq!(
        Feature { tag: Tag::from_bytes([0xFF, 0x20, 0x20, 0x20]), value: 1, start: 0, end: u32::MAX }
            .to_string(),
        ""
    );
}
