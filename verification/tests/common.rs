use harfbuzz::common::{Direction, Script, Tag};

#[test]
fn tag_from_bytes_packs_high_byte_first() {
    let tag = Tag::from_bytes(*b"liga");
    assert_eq!(tag.value, 0x6C69_6761);
    assert_eq!(tag.to_bytes(), *b"liga");
}

#[test]
fn tag_text_round_trip() {
    for text in ["liga", "kern", "GSUB", "a b ", "    "] {
        assert_eq!(Tag::from_str(text).to_string(), text);
    }
}

#[test]
fn tag_from_short_text_is_padded_with_spaces() {
    assert_eq!(Tag::from_str("xx").to_bytes(), *b"xx  ");
    assert_eq!(Tag::from_str("").to_bytes(), *b"    ");
    assert_eq!(Tag::from_str("ligature").to_bytes(), *b"liga");
}

#[test]
fn tag_that_is_no_utf8_shows_as_spaces() {
    let tag = Tag::from_bytes([0xFF, 0xFE, 0x41, 0x42]);
    assert_eq!(tag.to_string(), "    ");
    assert_eq!(tag.to_bytes(), [0xFF, 0xFE, 0x41, 0x42]);
}

#[test]
fn direction_predicates() {
    assert!(!Direction::Invalid.is_valid());
    assert!(Direction::Ltr.is_horizontal() && Direction::Rtl.is_horizontal());
    assert!(Direction::Ttb.is_vertical() && Direction::Btt.is_vertical());
    assert!(Direction::Ltr.is_forward() && Direction::Ttb.is_forward());
    assert!(Direction::Rtl.is_backward() && Direction::Btt.is_backward());
    assert_eq!(Direction::Invalid.reverse(), Direction::Invalid);
    assert_eq!(Direction::Ltr.reverse(), Direction::Rtl);
    assert_eq!(Direction::Btt.reverse(), Direction::Ttb);
}

#[test]
fn script_tags() {
    assert_eq!(Script::Latin.to_iso15924_tag().to_string(), "Latn");
    assert_eq!(Script::from_str("arab"), Script::Arabic);
    assert_eq!(Script::from_str("Qaai"), Script::Inherited);
    assert_eq!(Script::from_str("Xxxx"), Script::Unknown);
    assert_eq!(Script::from_iso15924_tag(Tag::none()), Script::Invalid);
    assert_eq!(Script::Arabic.horizontal_direction(), Direction::Rtl);
    assert_eq!(Script::Latin.horizontal_direction(), Direction::Ltr);
}

#[test]
fn tag_conversions() {
    let tag = Tag::from(*b"kern");
    assert_eq!(tag, Tag::from_bytes(*b"kern"));
    let bytes: [u8; 4] = tag.into();
    assert_eq!(bytes, *b"kern");
    assert_eq!(Tag::default(), Tag::none());
    assert_eq!(Tag::none().value, 0);
}
