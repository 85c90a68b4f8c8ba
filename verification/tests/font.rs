use harfbuzz::blob::{Blob, MemoryMode};
use harfbuzz::common::{Direction, Tag};
use harfbuzz::face::{Face, TableRecord};
use harfbuzz::font::{Font, FontFuncs, GlyphExtents, GlyphName, Table};

fn plain_font() -> Font {
    Font::new(Face::new(Blob::from_vec(vec![1, 2, 3]), 0))
}

#[test]
fn sub_font_takes_advance_from_parent() {
    let mut funcs = FontFuncs::new();
    funcs.set_glyph_h_advance_func(Table::constant(100));
    let mut parent = plain_font();
    parent.set_funcs(funcs);
    parent.set_scale(2048, 1024);
    parent.set_ppem(12, 13);
    let child = parent.create_sub_font();
    assert_eq!(child.get_glyph_h_advance(7), 100);
    assert_eq!(child.scale(), (2048, 1024));
    assert_eq!(child.ppem(), (12, 13));
    assert!(child.parent().unwrap().is_immutable());
    assert_eq!(child.face().blob().data(), &[1, 2, 3]);
    let grandchild = child.create_sub_font();
    assert_eq!(grandchild.get_glyph_h_advance(9), 100);
}

#[test]
fn table_of_child_masks_that_of_parent_for_that_table_only() {
    let mut funcs = FontFuncs::new();
    funcs.set_glyph_h_advance_func(Table::constant(100));
    funcs.set_glyph_v_advance_func(Table::constant(-40));
    let mut parent = plain_font();
    parent.set_funcs(funcs);
    let mut child = parent.create_sub_font();
    let mut own = FontFuncs::new();
    let mut advances: Table<i32> = Table::new();
    advances.set(1, 0, 77);
    own.set_glyph_h_advance_func(advances);
    child.set_funcs(own);
    assert_eq!(child.get_glyph_h_advance(1), 77);
    assert_eq!(child.get_glyph_h_advance(2), 0);
    assert_eq!(child.get_glyph_v_advance(2), -40);
}

#[test]
fn font_without_tables_answers_with_nothing_or_zero() {
    let font = plain_font();
    assert_eq!(font.get_glyph('a', '\0'), None);
    assert_eq!(font.get_glyph_h_advance(1), 0);
    assert_eq!(font.get_glyph_v_advance(1), 0);
    assert_eq!(font.get_glyph_h_origin(1), None);
    assert_eq!(font.get_glyph_v_origin(1), None);
    assert_eq!(font.get_glyph_h_kerning(1, 2), 0);
    assert_eq!(font.get_glyph_v_kerning(1, 2), 0);
    assert_eq!(font.get_glyph_extents(1), None);
    assert_eq!(font.get_glyph_contour_point(1, 0), None);
    assert_eq!(font.get_glyph_advance_for_direction(1, Direction::Ltr), (0, 0));
    assert_eq!(font.get_glyph_origin_for_direction(1, Direction::Ttb), (0, 0));
    assert_eq!(font.get_glyph_kerning_for_direction(1, 2, Direction::Rtl), (0, 0));
    assert_eq!(font.get_glyph_extents_for_origin(1, Direction::Ltr), None);
    assert_eq!(font.get_glyph_contour_point_for_origin(1, 0, Direction::Ltr), None);
    assert!(font.parent().is_none());
    assert_eq!(font.scale(), (0, 0));
    assert_eq!(font.ppem(), (0, 0));
}

fn full_font() -> Font {
    let mut funcs = FontFuncs::new();
    let mut glyphs: Table<u32> = Table::new();
    glyphs.set(0x41, 0, 5);
    glyphs.set(0x41, 0xFE00, 6);
    funcs.set_glyph_func(glyphs);
    funcs.set_glyph_h_advance_func(Table::constant(600));
    funcs.set_glyph_v_advance_func(Table::constant(-1000));
    let mut h_origin: Table<(i32, i32)> = Table::new();
    h_origin.set(5, 0, (10, 20));
    funcs.set_glyph_h_origin_func(h_origin);
    let mut v_origin: Table<(i32, i32)> = Table::new();
    v_origin.set(5, 0, (300, 800));
    funcs.set_glyph_v_origin_func(v_origin);
    let mut kern: Table<i32> = Table::new();
    kern.set(5, 6, -30);
    funcs.set_glyph_h_kerning_func(kern);
    let mut vkern: Table<i32> = Table::new();
    vkern.set(5, 6, 12);
    funcs.set_glyph_v_kerning_func(vkern);
    let mut extents: Table<GlyphExtents> = Table::new();
    extents.set(5, 0, GlyphExtents { x_bearing: 50, y_bearing: 700, width: 500, height: -700 });
    funcs.set_glyph_extents_func(extents);
    let mut points: Table<(i32, i32)> = Table::new();
    points.set(5, 2, (40, 60));
    funcs.set_glyph_contour_point_func(points);
    funcs.set_glyph_name_func(vec![
        GlyphName { glyph: 5, name: b"A".to_vec() },
        GlyphName { glyph: 6, name: b"A.alt".to_vec() },
    ]);
    let mut font = plain_font();
    font.set_funcs(funcs);
    font
}

#[test]
fn glyph_lookup_with_and_without_variation_selector() {
    let font = full_font();
    assert_eq!(font.get_glyph('A', '\0'), Some(5));
    assert_eq!(font.get_glyph('A', '\u{FE00}'), Some(6));
    assert_eq!(font.get_glyph('B', '\0'), None);
}

#[test]
fn direction_picks_horizontal_or_vertical_values() {
    let font = full_font();
    assert_eq!(font.get_glyph_advance_for_direction(5, Direction::Ltr), (600, 0));
    assert_eq!(font.get_glyph_advance_for_direction(5, Direction::Rtl), (600, 0));
    assert_eq!(font.get_glyph_advance_for_direction(5, Direction::Ttb), (0, -1000));
    assert_eq!(font.get_glyph_advance_for_direction(5, Direction::Btt), (0, -1000));
    assert_eq!(font.get_glyph_origin_for_direction(5, Direction::Ltr), (10, 20));
    assert_eq!(font.get_glyph_origin_for_direction(5, Direction::Ttb), (300, 800));
    assert_eq!(font.get_glyph_origin_for_direction(6, Direction::Ttb), (0, 0));
    assert_eq!(font.get_glyph_kerning_for_direction(5, 6, Direction::Ltr), (-30, 0));
    assert_eq!(font.get_glyph_kerning_for_direction(5, 6, Direction::Btt), (0, 12));
    assert_eq!(font.get_glyph_kerning_for_direction(6, 5, Direction::Ltr), (0, 0));
}

#[test]
fn origin_is_added_and_subtracted() {
    let font = full_font();
    let (mut x, mut y) = (100, 200);
    font.add_glyph_origin_for_direction(5, Direction::Ltr, &mut x, &mut y);
    assert_eq!((x, y), (110, 220));
    font.subtract_glyph_origin_for_direction(5, Direction::Ttb, &mut x, &mut y);
    assert_eq!((x, y), (-190, -580));
    let (mut x, mut y) = (i32::MAX, i32::MIN);
    font.add_glyph_origin_for_direction(5, Direction::Ltr, &mut x, &mut y);
    assert_eq!((x, y), (i32::MIN + 9, i32::MIN + 20));
    assert_eq!(
        font.get_glyph_extents_for_origin(5, Direction::Ltr),
        Some(GlyphExtents { x_bearing: 40, y_bearing: 680, width: 500, height: -700 })
    );
    assert_eq!(font.get_glyph_contour_point_for_origin(5, 2, Direction::Ttb), Some((-260, -740)));
    assert_eq!(font.get_glyph_contour_point(5, 3), None);
}

#[test]
fn glyph_names_and_the_two_written_forms() {
    let font = full_font();
    assert_eq!(font.glyph_to_string(5), "A");
    assert_eq!(font.glyph_to_string(6), "A.alt");
    assert_eq!(font.glyph_to_string(1234), "gid1234");
    assert_eq!(font.glyph_from_string("A.alt"), Some(6));
    assert_eq!(font.glyph_from_string("gid42"), Some(42));
    assert_eq!(font.glyph_from_string("gid4294967295"), Some(u32::MAX));
    assert_eq!(font.glyph_from_string("gid4294967296"), None);
    assert_eq!(font.glyph_from_string("gid"), None);
    assert_eq!(font.glyph_from_string("gid4x"), None);
    assert_eq!(font.glyph_from_string("uni0041"), Some(5));
    assert_eq!(font.glyph_from_string("uni41"), Some(5));
    assert_eq!(font.glyph_from_string("uni0042"), None);
    assert_eq!(font.glyph_from_string("uniXYZ"), None);
    assert_eq!(font.glyph_from_string("B"), None);
    assert_eq!(plain_font().glyph_from_string("gid7"), Some(7));
    assert_eq!(plain_font().glyph_to_string(0), "gid0");
}

#[test]
fn immutable_font_and_tables_do_not_change() {
    let mut font = plain_font();
    font.make_immutable();
    font.set_scale(10, 10);
    font.set_ppem(1, 1);
    font.set_funcs(FontFuncs::new());
    assert_eq!(font.scale(), (0, 0));
    assert_eq!(font.ppem(), (0, 0));
    let mut funcs = FontFuncs::new();
    funcs.make_immutable();
    funcs.set_glyph_h_advance_func(Table::constant(1));
    assert!(funcs.is_immutable());
    assert!(funcs.glyph_h_advance.is_none());
    assert!(Font::get_empty().is_immutable());
    assert!(FontFuncs::get_empty().is_immutable());
}

#[test]
fn blob_parts_and_writing() {
    let blob = Blob::from_vec(vec![1, 2, 3, 4, 5]);
    assert_eq!(blob.len(), 5);
    assert_eq!(blob.create_sub_blob(1, 3).data(), &[2, 3, 4]);
    assert_eq!(blob.create_sub_blob(3, 10).data(), &[4, 5]);
    assert_eq!(blob.create_sub_blob(5, 1).len(), 0);
    let mut readonly = Blob::from_slice(&[1, 2]);
    assert!(readonly.data_mut().is_none());
    assert!(!readonly.write(0, 9));
    let mut duplicate = Blob::new(vec![1, 2], MemoryMode::Duplicate);
    assert!(duplicate.data_mut().is_none());
    let mut writable = Blob::new(vec![1, 2], MemoryMode::Writable);
    writable.data_mut().unwrap()[1] = 7;
    assert_eq!(writable.data(), &[1, 7]);
    let mut promotable = Blob::new(vec![1, 2], MemoryMode::ReadonlyMayMakeWritable);
    assert!(promotable.write(0, 8));
    assert!(!promotable.write(2, 8));
    assert_eq!(promotable.mode(), MemoryMode::Writable);
    assert_eq!(promotable.data(), &[8, 2]);
    promotable.make_immutable();
    assert!(promotable.is_immutable());
    assert!(promotable.data_mut().is_none());
    assert!(Blob::get_empty().is_immutable());
}

#[test]
fn face_tables_and_settings() {
    let blob = Blob::from_vec((0u8..20).collect());
    let gsub = Tag::from_bytes(*b"GSUB");
    let head = Tag::from_bytes(*b"head");
    let mut face = Face::create_for_tables(
        blob,
        2,
        vec![
            TableRecord { tag: head, offset: 4, length: 3 },
            TableRecord { tag: gsub, offset: 18, length: 8 },
            TableRecord { tag: head, offset: 0, length: 1 },
        ],
    );
    assert_eq!(face.table(head).data(), &[4, 5, 6]);
    assert_eq!(face.table(gsub).data(), &[18, 19]);
    assert_eq!(face.table(Tag::from_bytes(*b"GPOS")).len(), 0);
    assert_eq!(face.index(), 2);
    assert_eq!(face.upem(), 1000);
    assert_eq!(face.glyph_count(), 0);
    face.set_index(1);
    face.set_upem(2048);
    face.set_glyph_count(300);
    assert_eq!((face.index(), face.upem(), face.glyph_count()), (1, 2048, 300));
    face.make_immutable();
    face.set_upem(1);
    assert_eq!(face.upem(), 2048);
    assert!(face.is_immutable());
    assert_eq!(face.blob().len(), 20);
    assert!(Face::get_empty().is_immutable());
    assert_eq!(Face::new(Blob::from_vec(vec![0]), 0).table(head).len(), 0);
}

#[test]
fn blob_conversions() {
    let from_vec = Blob::from(vec![1u8, 2, 3]);
    assert_eq!(from_vec.data(), &[1, 2, 3]);
    assert_eq!(from_vec.mode(), MemoryMode::Readonly);
    static BYTES: [u8; 2] = [9, 8];
    let from_static = Blob::from(&BYTES[..]);
    assert_eq!(from_static.data(), &[9, 8]);
}
