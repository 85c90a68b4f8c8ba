use harfbuzz::blob::Blob;
use harfbuzz::buffer::{Buffer, BufferContentType, GlyphInfo, GlyphPosition};
use harfbuzz::common::Direction;
use harfbuzz::face::Face;
use harfbuzz::font::{Font, FontFuncs, GlyphExtents, GlyphName, Table};
use harfbuzz::serialize::{
    BufferSerializeFlags, BufferSerializeFormat, BUFFER_SERIALIZE_FLAG_GLYPH_EXTENTS,
    BUFFER_SERIALIZE_FLAG_NO_CLUSTERS, BUFFER_SERIALIZE_FLAG_NO_GLYPH_NAMES,
    BUFFER_SERIALIZE_FLAG_NO_POSITIONS,
};

fn glyphs() -> Buffer {
    let mut buffer = Buffer::new();
    buffer.replace_with_glyphs(
        vec![
            GlyphInfo { codepoint: 5, mask: 0, cluster: 0 },
            GlyphInfo { codepoint: 6, mask: 0, cluster: 1 },
            GlyphInfo { codepoint: 4000000000, mask: 0, cluster: 4 },
        ],
        vec![
            GlyphPosition { x_advance: 600, y_advance: 0, x_offset: 0, y_offset: 0 },
            GlyphPosition { x_advance: -20, y_advance: 7, x_offset: 3, y_offset: -4 },
            GlyphPosition {
                x_advance: i32::MIN,
                y_advance: i32::MAX,
                x_offset: 0,
                y_offset: 1,
            },
        ],
    );
    buffer
}

fn named_font() -> Font {
    let mut funcs = FontFuncs::new();
    funcs.set_glyph_name_func(vec![
        GlyphName { glyph: 5, name: b"A".to_vec() },
        GlyphName { glyph: 6, name: b"quote\"d".to_vec() },
    ]);
    let mut extents: Table<GlyphExtents> = Table::new();
    extents.set(5, 0, GlyphExtents { x_bearing: 1, y_bearing: 2, width: 3, height: -4 });
    funcs.set_glyph_extents_func(extents);
    let mut font = Font::new(Face::new(Blob::from_vec(Vec::new()), 0));
    font.set_funcs(funcs);
    font
}

fn flags(bits: u32) -> BufferSerializeFlags {
    BufferSerializeFlags::from_bits_truncate(bits)
}

#[test]
fn format_names() {
    assert_eq!(BufferSerializeFormat::from_str("text"), BufferSerializeFormat::Text);
    assert_eq!(BufferSerializeFormat::from_str("JSON"), BufferSerializeFormat::Json);
    assert_eq!(BufferSerializeFormat::from_str("Textual"), BufferSerializeFormat::Text);
    assert_eq!(BufferSerializeFormat::from_str("xml"), BufferSerializeFormat::Invalid);
    assert_eq!(BufferSerializeFormat::from_str(""), BufferSerializeFormat::Invalid);
    assert_eq!(BufferSerializeFormat::Text.to_string(), "text");
    assert_eq!(BufferSerializeFormat::Json.to_string(), "json");
    assert_eq!(BufferSerializeFormat::Invalid.to_string(), "");
    assert_eq!(BufferSerializeFormat::list_formats(), vec!["text", "json"]);
}

#[test]
fn text_with_default_flags() {
    let mut buffer = glyphs();
    let mut out = String::with_capacity(1024);
    let n = buffer.serialize_glyphs(0, 3, &mut out, None, BufferSerializeFormat::Text, flags(0));
    assert_eq!(n, 3);
    assert_eq!(out, "gid5=0+600 gid6=1@3,-4+-20,7 gid4000000000=4@0,1+-2147483648,2147483647");
}

#[test]
fn text_with_names_of_the_font_and_extents() {
    let mut buffer = glyphs();
    let font = named_font();
    let mut out = String::with_capacity(1024);
    let n = buffer.serialize_glyphs(
        0,
        2,
        &mut out,
        Some(&font),
        BufferSerializeFormat::Text,
        flags(BUFFER_SERIALIZE_FLAG_GLYPH_EXTENTS | BUFFER_SERIALIZE_FLAG_NO_POSITIONS),
    );
    assert_eq!(n, 2);
    assert_eq!(out, "A=0<1,2,3,-4> quote\"d=1<0,0,0,0>");
}

#[test]
fn text_with_everything_left_out() {
    let mut buffer = glyphs();
    let mut out = String::with_capacity(1024);
    let n = buffer.serialize_glyphs(
        1,
        100,
        &mut out,
        None,
        BufferSerializeFormat::Text,
        flags(
            BUFFER_SERIALIZE_FLAG_NO_CLUSTERS
                | BUFFER_SERIALIZE_FLAG_NO_POSITIONS
                | BUFFER_SERIALIZE_FLAG_NO_GLYPH_NAMES,
        ),
    );
    assert_eq!(n, 2);
    assert_eq!(out, " 6 4000000000");
}

#[test]
fn json_with_default_flags() {
    let mut buffer = glyphs();
    let font = named_font();
    let mut out = String::with_capacity(1024);
    let n =
        buffer.serialize_glyphs(0, 2, &mut out, Some(&font), BufferSerializeFormat::Json, flags(0));
    assert_eq!(n, 2);
    assert_eq!(
        out,
        "[{\"g\":\"A\",\"cl\":0,\"dx\":0,\"dy\":0,\"ax\":600,\"ay\":0},{\"g\":\"quote\\\"d\",\"cl\":1,\"dx\":3,\"dy\":-4,\"ax\":-20,\"ay\":7}"
    );
}

#[test]
fn json_closes_the_array_after_the_last_glyph() {
    let mut buffer = glyphs();
    let mut out = String::with_capacity(1024);
    let n = buffer.serialize_glyphs(
        2,
        3,
        &mut out,
        None,
        BufferSerializeFormat::Json,
        flags(
            BUFFER_SERIALIZE_FLAG_NO_GLYPH_NAMES
                | BUFFER_SERIALIZE_FLAG_NO_POSITIONS
                | BUFFER_SERIALIZE_FLAG_GLYPH_EXTENTS,
        ),
    );
    assert_eq!(n, 1);
    assert_eq!(out, ",{\"g\":4000000000,\"cl\":4,\"xb\":0,\"yb\":0,\"w\":0,\"h\":0}]");
}

#[test]
fn serialize_stops_when_the_room_is_used_up() {
    let buffer = glyphs();
    let none = flags(0);
    // "gid5=0+600" has 10 bytes and needs room for 11
    let (bytes, n) =
        buffer.serialize_glyphs_bounded(0, 3, None, BufferSerializeFormat::Text, none, 10);
    assert_eq!((bytes.len(), n), (0, 0));
    let (bytes, n) =
        buffer.serialize_glyphs_bounded(0, 3, None, BufferSerializeFormat::Text, none, 11);
    assert_eq!((bytes, n), (b"gid5=0+600".to_vec(), 1));
    let (bytes, n) =
        buffer.serialize_glyphs_bounded(0, 3, None, BufferSerializeFormat::Text, none, 28);
    assert_eq!((bytes, n), (b"gid5=0+600".to_vec(), 1));
    let (bytes, n) =
        buffer.serialize_glyphs_bounded(0, 3, None, BufferSerializeFormat::Text, none, 29);
    assert_eq!((bytes, n), (b"gid5=0+600 gid6=1@3,-4+-20,7".to_vec(), 2));
    let (bytes, n) =
        buffer.serialize_glyphs_bounded(1, 1, None, BufferSerializeFormat::Text, none, 300);
    assert_eq!((bytes.len(), n), (0, 0));
    let (bytes, n) =
        buffer.serialize_glyphs_bounded(0, 3, None, BufferSerializeFormat::Invalid, none, 300);
    assert_eq!((bytes.len(), n), (0, 0));
}

#[test]
fn serialize_into_text_without_room_writes_nothing() {
    let mut buffer = glyphs();
    let mut out = String::new();
    let n = buffer.serialize_glyphs(0, 3, &mut out, None, BufferSerializeFormat::Text, flags(0));
    assert_eq!(n, 0);
    assert_eq!(out, "");
    let mut out = String::from("what was there before goes away");
    out.reserve(200);
    let n = buffer.serialize_glyphs(0, 1, &mut out, None, BufferSerializeFormat::Text, flags(0));
    assert_eq!(n, 1);
    assert_eq!(out, "gid5=0+600");
}

#[test]
fn serialize_codepoints_has_no_positions() {
    let mut buffer = Buffer::new();
    buffer.extend("ab", 0, -1);
    let mut out = String::with_capacity(100);
    let n = buffer.serialize_glyphs(0, 2, &mut out, None, BufferSerializeFormat::Text, flags(0));
    assert_eq!(n, 2);
    assert_eq!(out, "gid97=0 gid98=1");
}

#[test]
fn text_round_trip_with_default_flags() {
    let mut buffer = glyphs();
    let mut out = String::with_capacity(1024);
    let n = buffer.serialize_glyphs(0, 3, &mut out, None, BufferSerializeFormat::Text, flags(0));
    assert_eq!(n, 3);
    let mut back = Buffer::new();
    assert!(back.deserialize_glyphs(&out, None, BufferSerializeFormat::Text));
    assert_eq!(back.content_type(), BufferContentType::Glyphs);
    assert_eq!(back.glyph_infos(), buffer.glyph_infos());
    assert_eq!(back.glyph_positions(), buffer.glyph_positions());
}

#[test]
fn deserialize_reads_names_numbers_and_defaults() {
    let font = named_font();
    let mut buffer = Buffer::new();
    assert!(buffer.deserialize_glyphs(
        "  A \t 17=3 gid9+5\nuni0041x",
        Some(&font),
        BufferSerializeFormat::Text
    ) == false);
    assert_eq!(buffer.len(), 0);
    assert_eq!(buffer.content_type(), BufferContentType::Invalid);
    assert!(buffer.deserialize_glyphs(
        "  A \t 17=3 gid9+5\nquote@1,2 ",
        Some(&font),
        BufferSerializeFormat::Text
    ) == false);
    assert!(buffer.deserialize_glyphs(
        "  A \t 17=3 gid9+5\nA@1,2 ",
        Some(&font),
        BufferSerializeFormat::Text
    ));
    assert_eq!(
        buffer.glyph_infos(),
        &[
            GlyphInfo { codepoint: 5, mask: 0, cluster: 0 },
            GlyphInfo { codepoint: 17, mask: 0, cluster: 3 },
            GlyphInfo { codepoint: 9, mask: 0, cluster: 0 },
            GlyphInfo { codepoint: 5, mask: 0, cluster: 0 }
        ]
    );
    assert_eq!(
        buffer.glyph_positions(),
        &[
            GlyphPosition { x_advance: 0, y_advance: 0, x_offset: 0, y_offset: 0 },
            GlyphPosition { x_advance: 0, y_advance: 0, x_offset: 0, y_offset: 0 },
            GlyphPosition { x_advance: 5, y_advance: 0, x_offset: 0, y_offset: 0 },
            GlyphPosition { x_advance: 0, y_advance: 0, x_offset: 1, y_offset: 2 }
        ]
    );
    // more glyphs follow those that are there
    assert!(buffer.deserialize_glyphs("1", None, BufferSerializeFormat::Text));
    assert_eq!(buffer.len(), 5);
}

#[test]
fn deserialize_rejects_what_is_malformed() {
    for text in [
        "gid1=", "gid1=x", "gid1=4294967296", "gid1@1", "gid1@1,", "gid1@,2", "gid1+", "gid1+1,",
        "gid1+2147483648", "gid1+-2147483649", "gid1=1=2", "gid1+1@1,2", "=1", "gid1|gid2",
        "4294967296", "unknown", "gid1<1,2,3,4>",
    ] {
        let mut buffer = Buffer::new();
        assert!(!buffer.deserialize_glyphs(text, None, BufferSerializeFormat::Text), "{}", text);
        assert_eq!(buffer.len(), 0);
        assert_eq!(buffer.content_type(), BufferContentType::Invalid);
        assert!(buffer.allocation_successful());
    }
    let mut buffer = Buffer::new();
    assert!(!buffer.deserialize_glyphs("gid1", None, BufferSerializeFormat::Invalid));
    assert!(buffer.deserialize_glyphs("", None, BufferSerializeFormat::Text));
    assert_eq!(buffer.content_type(), BufferContentType::Glyphs);
    assert_eq!(buffer.len(), 0);
}

#[test]
fn shaped_glyphs_round_trip() {
    let font = Font::new(Face::new(Blob::from_vec(Vec::new()), 0));
    let mut buffer = Buffer::new();
    buffer.extend("abc", 0, -1);
    buffer.set_direction(Direction::Rtl);
    harfbuzz::shape::shape(&font, &mut buffer, &[]);
    let mut out = String::with_capacity(256);
    let n =
        buffer.serialize_glyphs(0, 3, &mut out, Some(&font), BufferSerializeFormat::Text, flags(0));
    assert_eq!(n, 3);
    assert_eq!(out, "gid99=2+0 gid98=1+0 gid97=0+0");
    let mut back = Buffer::new();
    assert!(back.deserialize_glyphs(&out, Some(&font), BufferSerializeFormat::Text));
    let clusters: Vec<u32> = back.glyph_infos().iter().map(|i| i.cluster).collect();
    assert_eq!(clusters, vec![2, 1, 0]);
}

#[test]
fn json_round_trip_with_default_flags() {
    let mut buffer = glyphs();
    let font = named_font();
    let mut out = String::with_capacity(1024);
    let n =
        buffer.serialize_glyphs(0, 3, &mut out, Some(&font), BufferSerializeFormat::Json, flags(0));
    assert_eq!(n, 3);
    assert!(out.starts_with("[{\"g\":\"A\"") && out.ends_with("}]"));
    let mut back = Buffer::new();
    assert!(back.deserialize_glyphs(&out, Some(&font), BufferSerializeFormat::Json));
    assert_eq!(back.glyph_infos(), buffer.glyph_infos());
    assert_eq!(back.glyph_positions(), buffer.glyph_positions());
}

#[test]
fn json_is_read_with_space_numbers_and_any_order_of_keys() {
    let mut buffer = Buffer::new();
    assert!(buffer.deserialize_glyphs(
        " [ { \"cl\" : 4 , \"g\" : 12, \"ay\":-3, \"w\": 9 },\n{\"g\":\"gid7\",\"dx\":1,\"dy\":2,\"ax\":3},{} ] ",
        None,
        BufferSerializeFormat::Json
    ));
    assert_eq!(
        buffer.glyph_infos(),
        &[
            GlyphInfo { codepoint: 12, mask: 0, cluster: 4 },
            GlyphInfo { codepoint: 7, mask: 0, cluster: 0 },
            GlyphInfo { codepoint: 0, mask: 0, cluster: 0 }
        ]
    );
    assert_eq!(
        buffer.glyph_positions(),
        &[
            GlyphPosition { x_advance: 0, y_advance: -3, x_offset: 0, y_offset: 0 },
            GlyphPosition { x_advance: 3, y_advance: 0, x_offset: 1, y_offset: 2 },
            GlyphPosition { x_advance: 0, y_advance: 0, x_offset: 0, y_offset: 0 }
        ]
    );
    let mut empty = Buffer::new();
    assert!(empty.deserialize_glyphs("[]", None, BufferSerializeFormat::Json));
    assert!(empty.deserialize_glyphs("", None, BufferSerializeFormat::Json));
    assert_eq!(empty.len(), 0);
    assert_eq!(empty.content_type(), BufferContentType::Glyphs);
}

#[test]
fn json_that_is_malformed_is_rejected() {
    for text in [
        "{", "{\"g\"}", "{\"g\":}", "{\"g\":1,}", "{\"q\":1}", "{\"g\":\"nobody\"}",
        "{\"g\":1}{\"g\":2}", "{\"g\":1},", "[{\"g\":1}]x", "{\"cl\":-1}", "{\"ax\":2147483648}",
        "{\"g\":\"gid1\\n\"}", "{\"g\":\"gid1}", "{g:1}", "]",
    ] {
        let mut buffer = Buffer::new();
        let ok = buffer.deserialize_glyphs(text, None, BufferSerializeFormat::Json);
        if text == "]" {
            assert!(ok);
        } else {
            assert!(!ok, "{}", text);
            assert_eq!(buffer.content_type(), BufferContentType::Invalid);
        }
        assert_eq!(buffer.len(), 0);
    }
}
