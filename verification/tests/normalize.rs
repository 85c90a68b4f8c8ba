use harfbuzz::buffer::{Buffer, BufferContentType, GlyphInfo, GlyphPosition};
use harfbuzz::common::Direction;

fn glyph(codepoint: u32, cluster: u32) -> GlyphInfo {
    GlyphInfo { codepoint, mask: 0, cluster }
}

fn place(x_advance: i32, y_advance: i32, x_offset: i32, y_offset: i32) -> GlyphPosition {
    GlyphPosition { x_advance, y_advance, x_offset, y_offset }
}

fn sample(direction: Direction) -> Buffer {
    let mut buffer = Buffer::new();
    buffer.set_direction(direction);
    buffer.replace_with_glyphs(
        vec![glyph(10, 0), glyph(5, 0), glyph(30, 0), glyph(30, 0), glyph(7, 1), glyph(9, 2), glyph(8, 2)],
        vec![
            place(100, 1, 0, 0),
            place(20, 2, 1, 1),
            place(3, 4, 2, 2),
            place(0, 0, 7, 7),
            place(50, 0, 4, 4),
            place(10, 0, 0, 0),
            place(11, 0, 5, 0),
        ],
    );
    buffer
}

#[test]
fn normalize_forward_run() {
    let mut buffer = sample(Direction::Ltr);
    buffer.normalize_glyphs();
    assert_eq!(buffer.content_type(), BufferContentType::Glyphs);
    assert_eq!(
        buffer.glyph_infos(),
        &[glyph(10, 0), glyph(30, 0), glyph(30, 0), glyph(5, 0), glyph(7, 1), glyph(9, 2), glyph(8, 2)]
    );
    assert_eq!(
        buffer.glyph_positions(),
        &[
            // the first glyph of the cluster has the whole advance
            place(123, 7, 0, 0),
            // 2 + (100 + 20) - 123, 2 + (1 + 2) - 7
            place(0, 0, -1, -2),
            // 7 + (100 + 20 + 3) - 123, 7 + (1 + 2 + 4) - 7
            place(0, 0, 7, 7),
            // 1 + 100 - 123, 1 + 1 - 7
            place(0, 0, -22, -5),
            place(50, 0, 4, 4),
            place(21, 0, 0, 0),
            place(0, 0, -6, 0),
        ]
    );
}

#[test]
fn normalize_backward_run() {
    let mut buffer = sample(Direction::Rtl);
    buffer.normalize_glyphs();
    assert_eq!(
        buffer.glyph_infos(),
        &[glyph(30, 0), glyph(10, 0), glyph(5, 0), glyph(30, 0), glyph(7, 1), glyph(9, 2), glyph(8, 2)]
    );
    assert_eq!(
        buffer.glyph_positions(),
        &[
            place(0, 0, 122, 5),
            place(0, 0, 0, 0),
            place(0, 0, 101, 2),
            // the last glyph of the cluster has the whole advance
            place(123, 7, 130, 14),
            place(50, 0, 4, 4),
            place(0, 0, 0, 0),
            place(21, 0, 15, 0),
        ]
    );
}

#[test]
fn normalize_leaves_codepoints_alone() {
    let mut buffer = Buffer::new();
    buffer.extend("ba", 0, -1);
    buffer.normalize_glyphs();
    assert_eq!(buffer.content_type(), BufferContentType::Unicode);
    assert_eq!(buffer.glyph_infos()[0].codepoint, 0x62);
}

#[test]
fn normalize_wraps_advances() {
    let mut buffer = Buffer::new();
    buffer.set_direction(Direction::Ltr);
    buffer.replace_with_glyphs(
        vec![glyph(1, 0), glyph(2, 0)],
        vec![place(i32::MAX, 0, 0, 0), place(1, 0, 0, 0)],
    );
    buffer.normalize_glyphs();
    assert_eq!(
        buffer.glyph_positions(),
        &[place(i32::MIN, 0, 0, 0), place(0, 0, -1, 0)]
    );
}
