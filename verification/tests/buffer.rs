use harfbuzz::buffer::{
    Buffer, BufferClusterLevel, BufferContentType, BufferFlags, GlyphInfo, SegmentProperties,
    BUFFER_FLAGS_BOT, BUFFER_FLAGS_EOT, BUFFER_MAX_LEN,
};
use harfbuzz::common::{Direction, Language, Script};
use harfbuzz::unicode::{CodepointRange, UnicodeFuncs};

fn codepoints(buffer: &Buffer) -> Vec<u32> {
    buffer.glyph_infos().iter().map(|i| i.codepoint).collect()
}

fn clusters(buffer: &Buffer) -> Vec<u32> {
    buffer.glyph_infos().iter().map(|i| i.cluster).collect()
}

#[test]
fn new_buffer_is_empty_and_unset() {
    let buffer = Buffer::new();
    assert_eq!(buffer.len(), 0);
    assert_eq!(buffer.content_type(), BufferContentType::Invalid);
    assert_eq!(buffer.direction(), Direction::Invalid);
    assert_eq!(buffer.script(), Script::Invalid);
    assert!(!buffer.language().is_valid());
    assert!(buffer.flags().is_empty());
    assert_eq!(buffer.cluster_level(), BufferClusterLevel::MonotoneGraphemes);
    assert_eq!(buffer.replacement_codepoint(), '\u{FFFD}');
    assert!(buffer.allocation_successful());
    assert_eq!(buffer.segment_properties(), SegmentProperties::default());
}

#[test]
fn add_appends_one_codepoint_and_sets_content() {
    let mut buffer = Buffer::new();
    buffer.add('a', 7);
    buffer.add('\u{10FFFF}', 3);
    assert_eq!(buffer.content_type(), BufferContentType::Unicode);
    assert_eq!(
        buffer.glyph_infos(),
        &[
            GlyphInfo { codepoint: 0x61, mask: 0, cluster: 7 },
            GlyphInfo { codepoint: 0x10FFFF, mask: 0, cluster: 3 }
        ]
    );
    assert_eq!(buffer.glyph_positions().len(), 0);
}

#[test]
fn extend_utf8_counts_characters_and_clusters_are_byte_offsets() {
    let mut buffer = Buffer::new();
    buffer.extend("a\u{E9}\u{20AC}\u{1F600}z", 0, -1);
    assert_eq!(codepoints(&buffer), vec![0x61, 0xE9, 0x20AC, 0x1F600, 0x7A]);
    assert_eq!(clusters(&buffer), vec![0, 1, 3, 6, 10]);
}

#[test]
fn extend_utf8_window_cutting_a_character_gives_replacements() {
    let mut buffer = Buffer::new();
    // the window starts in the middle of the euro sign and ends before its end
    buffer.extend("a\u{20AC}b", 2, 2);
    assert_eq!(codepoints(&buffer), vec![0xFFFD, 0xFFFD]);
    assert_eq!(clusters(&buffer), vec![2, 3]);
    let mut buffer = Buffer::new();
    buffer.set_replacement_codepoint('?');
    buffer.extend("a\u{20AC}b", 1, 2);
    assert_eq!(codepoints(&buffer), vec![0x3F, 0x3F]);
    assert_eq!(clusters(&buffer), vec![1, 2]);
}

#[test]
fn extend_window_rules() {
    let mut buffer = Buffer::new();
    buffer.extend("hello", 1, 3);
    assert_eq!(codepoints(&buffer), vec![0x65, 0x6C, 0x6C]);
    assert_eq!(clusters(&buffer), vec![1, 2, 3]);
    buffer.extend("hello", 9, -1);
    assert_eq!(buffer.len(), 3);
    buffer.extend("hello", 3, 100);
    assert_eq!(clusters(&buffer), vec![1, 2, 3, 3, 4]);
    buffer.extend("hello", 0, -5);
    assert_eq!(buffer.len(), 5);
}

#[test]
fn extend_utf16_pairs_and_lonely_surrogates() {
    let mut buffer = Buffer::new();
    let text: [u16; 6] = [0x61, 0xD83D, 0xDE00, 0xDC00, 0xD800, 0x62];
    buffer.extend(&text[..], 0, -1);
    assert_eq!(codepoints(&buffer), vec![0x61, 0x1F600, 0xFFFD, 0xFFFD, 0x62]);
    assert_eq!(clusters(&buffer), vec![0, 1, 3, 4, 5]);
    let mut buffer = Buffer::new();
    // a high surrogate at the end of the window is alone
    buffer.extend(&text[..], 1, 1);
    assert_eq!(codepoints(&buffer), vec![0xFFFD]);
}

#[test]
fn extend_utf32_replaces_what_is_no_scalar_value() {
    let mut buffer = Buffer::new();
    let text: [u32; 5] = [0x61, 0xD800, 0x110000, 0x10FFFF, 0xE000];
    buffer.extend(&text[..], 0, -1);
    assert_eq!(codepoints(&buffer), vec![0x61, 0xFFFD, 0xFFFD, 0x10FFFF, 0xE000]);
    assert_eq!(clusters(&buffer), vec![0, 1, 2, 3, 4]);
}

#[test]
fn extend_latin1_takes_each_byte_as_a_codepoint() {
    let mut buffer = Buffer::new();
    let text: [u8; 3] = [0x41, 0xE9, 0xFF];
    buffer.extend(&text[..], 0, -1);
    assert_eq!(codepoints(&buffer), vec![0x41, 0xE9, 0xFF]);
    assert_eq!(clusters(&buffer), vec![0, 1, 2]);
}

#[test]
fn extend_chars_takes_them_as_they_are() {
    let mut buffer = Buffer::new();
    let text = ['x', '\u{1F600}'];
    buffer.extend(&text[..], 0, -1);
    assert_eq!(codepoints(&buffer), vec![0x78, 0x1F600]);
    assert_eq!(clusters(&buffer), vec![0, 1]);
}

#[test]
fn reverse_twice_is_identity() {
    let mut buffer = Buffer::new();
    buffer.extend("abcde", 0, -1);
    let before = codepoints(&buffer);
    buffer.reverse();
    assert_eq!(codepoints(&buffer), vec![0x65, 0x64, 0x63, 0x62, 0x61]);
    buffer.reverse();
    assert_eq!(codepoints(&buffer), before);
}

#[test]
fn reverse_range_reverses_part() {
    let mut buffer = Buffer::new();
    buffer.extend("abcde", 0, -1);
    buffer.reverse_range(1, 4);
    assert_eq!(codepoints(&buffer), vec![0x61, 0x64, 0x63, 0x62, 0x65]);
    buffer.reverse_range(3, 100);
    assert_eq!(codepoints(&buffer), vec![0x61, 0x64, 0x63, 0x65, 0x62]);
    buffer.reverse_range(4, 2);
    assert_eq!(codepoints(&buffer), vec![0x61, 0x64, 0x63, 0x65, 0x62]);
}

#[test]
fn reverse_clusters_keeps_order_inside_clusters() {
    let mut buffer = Buffer::new();
    buffer.add('a', 0);
    buffer.add('b', 0);
    buffer.add('c', 1);
    buffer.add('d', 2);
    buffer.add('e', 2);
    buffer.add('f', 2);
    buffer.reverse_clusters();
    assert_eq!(codepoints(&buffer), vec![0x64, 0x65, 0x66, 0x63, 0x61, 0x62]);
    assert_eq!(clusters(&buffer), vec![2, 2, 2, 1, 0, 0]);
    let mut sorted = clusters(&buffer);
    sorted.sort();
    assert_eq!(sorted, vec![0, 0, 1, 2, 2, 2]);
}

#[test]
fn reverse_clusters_of_glyphs_moves_positions_too() {
    let mut buffer = Buffer::new();
    buffer.add('a', 0);
    buffer.add('b', 0);
    buffer.add('c', 1);
    buffer.set_content_type(BufferContentType::Glyphs);
    assert_eq!(buffer.glyph_positions().len(), 3);
    buffer.reverse_clusters();
    assert_eq!(codepoints(&buffer), vec![0x63, 0x61, 0x62]);
    assert_eq!(buffer.glyph_positions().len(), 3);
}

#[test]
fn set_length_truncates_and_grows_with_zero_items() {
    let mut buffer = Buffer::new();
    buffer.extend("abc", 0, -1);
    assert!(buffer.set_length(2));
    assert_eq!(codepoints(&buffer), vec![0x61, 0x62]);
    assert!(buffer.set_length(4));
    assert_eq!(codepoints(&buffer), vec![0x61, 0x62, 0, 0]);
    assert!(buffer.set_length(0));
    assert_eq!(buffer.content_type(), BufferContentType::Invalid);
    assert!(!buffer.set_length(BUFFER_MAX_LEN + 1));
    assert!(!buffer.allocation_successful());
}

#[test]
fn failed_buffer_takes_nothing_until_reset() {
    let mut buffer = Buffer::new();
    buffer.extend("ab", 0, -1);
    assert!(!buffer.pre_allocate(BUFFER_MAX_LEN + 1));
    assert!(!buffer.allocation_successful());
    buffer.add('c', 2);
    buffer.extend("def", 0, -1);
    assert_eq!(buffer.len(), 2);
    assert!(!buffer.pre_allocate(1));
    assert!(!buffer.set_length(1));
    buffer.reset();
    assert!(buffer.allocation_successful());
    assert_eq!(buffer.len(), 0);
    buffer.add('c', 2);
    assert_eq!(buffer.len(), 1);
}

#[test]
fn pre_allocate_succeeds_for_room_already_there() {
    let mut buffer = Buffer::new();
    buffer.extend("abc", 0, -1);
    assert!(buffer.pre_allocate(2));
    assert!(buffer.pre_allocate(64));
    assert!(buffer.allocation_successful());
    assert_eq!(buffer.len(), 3);
}

#[test]
fn reset_and_clear_contents() {
    let mut buffer = Buffer::new();
    buffer.extend("abc", 0, -1);
    buffer.set_replacement_codepoint('?');
    buffer.set_direction(Direction::Rtl);
    buffer.set_flags(BufferFlags::from_bits_truncate(BUFFER_FLAGS_BOT | BUFFER_FLAGS_EOT));
    buffer.clear_contents();
    assert_eq!(buffer.len(), 0);
    assert_eq!(buffer.content_type(), BufferContentType::Invalid);
    assert_eq!(buffer.direction(), Direction::Invalid);
    assert_eq!(buffer.replacement_codepoint(), '?');
    buffer.reset();
    assert_eq!(buffer.replacement_codepoint(), '\u{FFFD}');
}

#[test]
fn setters_and_getters() {
    let mut buffer = Buffer::new();
    buffer.set_direction(Direction::Ttb);
    buffer.set_script(Script::Hebrew);
    buffer.set_language(Language { handle: 3 });
    buffer.set_cluster_level(BufferClusterLevel::Characters);
    let props = buffer.segment_properties();
    assert_eq!(props.direction, Direction::Ttb);
    assert_eq!(props.script, Script::Hebrew);
    assert_eq!(props.language, Language { handle: 3 });
    assert_eq!(buffer.cluster_level(), BufferClusterLevel::Characters);
    let other = SegmentProperties {
        direction: Direction::Ltr,
        script: Script::Latin,
        language: Language { handle: 0 },
    };
    buffer.set_segment_properties(&other);
    assert_eq!(buffer.segment_properties(), other);
    assert_eq!(other.hash(), 4 ^ 0x4C61746E);
}

fn latin_and_hebrew() -> UnicodeFuncs {
    let mut funcs = UnicodeFuncs::get_default();
    funcs.set_script_func(vec![
        CodepointRange { first: 0x20, last: 0x40, value: Script::Common },
        CodepointRange { first: 0x41, last: 0x7A, value: Script::Latin },
        CodepointRange { first: 0x300, last: 0x36F, value: Script::Inherited },
        CodepointRange { first: 0x5D0, last: 0x5EA, value: Script::Hebrew },
    ]);
    funcs
}

#[test]
fn guess_takes_first_real_script_and_its_direction() {
    let mut buffer = Buffer::new();
    buffer.set_unicode_funcs(latin_and_hebrew());
    buffer.extend(" \u{301}\u{5D0}a", 0, -1);
    buffer.guess_segment_properties();
    assert_eq!(buffer.script(), Script::Hebrew);
    assert_eq!(buffer.direction(), Direction::Rtl);
}

#[test]
fn guess_keeps_what_is_set() {
    let mut buffer = Buffer::new();
    buffer.set_unicode_funcs(latin_and_hebrew());
    buffer.extend("\u{5D0}", 0, -1);
    buffer.set_direction(Direction::Ttb);
    buffer.guess_segment_properties();
    assert_eq!(buffer.script(), Script::Hebrew);
    assert_eq!(buffer.direction(), Direction::Ttb);
    let mut buffer = Buffer::new();
    buffer.set_unicode_funcs(latin_and_hebrew());
    buffer.extend("\u{5D0}", 0, -1);
    buffer.set_script(Script::Latin);
    buffer.guess_segment_properties();
    assert_eq!(buffer.script(), Script::Latin);
    assert_eq!(buffer.direction(), Direction::Ltr);
}

#[test]
fn guess_without_any_real_script() {
    let mut buffer = Buffer::new();
    buffer.extend("abc", 0, -1);
    buffer.guess_segment_properties();
    assert_eq!(buffer.script(), Script::Invalid);
    assert_eq!(buffer.direction(), Direction::Ltr);
}

#[test]
fn glyph_info_codepoint_as_char() {
    assert_eq!(GlyphInfo { codepoint: 0x61, mask: 0, cluster: 0 }.codepoint(), Some('a'));
    assert_eq!(GlyphInfo { codepoint: 0xD800, mask: 0, cluster: 0 }.codepoint(), None);
    assert_eq!(GlyphInfo { codepoint: 0x110000, mask: 0, cluster: 0 }.codepoint(), None);
}

#[test]
fn guess_takes_the_script_of_most_codepoints() {
    let mut buffer = Buffer::new();
    buffer.set_unicode_funcs(latin_and_hebrew());
    buffer.extend("a \u{5D0}\u{5D1} b\u{5D2}", 0, -1);
    buffer.guess_segment_properties();
    assert_eq!(buffer.script(), Script::Hebrew);
    assert_eq!(buffer.direction(), Direction::Rtl);
    let mut buffer = Buffer::new();
    buffer.set_unicode_funcs(latin_and_hebrew());
    buffer.extend("ab\u{5D0}\u{5D1}", 0, -1);
    buffer.guess_segment_properties();
    assert_eq!(buffer.script(), Script::Latin);
    assert_eq!(buffer.direction(), Direction::Ltr);
}

#[test]
fn buffer_from_text() {
    let buffer = Buffer::from("h\u{E9}");
    assert_eq!(codepoints(&buffer), vec![0x68, 0xE9]);
    assert_eq!(clusters(&buffer), vec![0, 1]);
    assert_eq!(buffer.content_type(), BufferContentType::Unicode);
}
