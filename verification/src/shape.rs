//! Features, and the driver that shapes a buffer.

use crate::buffer::{
    non_decreasing, Buffer, BufferContentType, BufferModel, GlyphInfo, GlyphPosition,
};
use crate::common::{
    lemma_unpack_then_pack, pack_bytes, padded_byte, string_from_utf8, Direction, Tag,
};
use crate::font::{sub_wrapping, wrapping_difference, Font};
use crate::text::{
    decimal_digits, decimal_value, digit_run_end, is_digit, lemma_decimal_digits,
    lemma_digit_run_of_digits, lemma_digit_run_shift, read_u32, write_u32,
};
use vstd::utf8::{decode_utf8, valid_utf8};
use vstd::prelude::*;
use vstd::string::StringSliceAdditionalSpecFns;

verus! {

/// The end of a feature that runs to the end of the text.
pub const FEATURE_GLOBAL_END: u32 = 0xFFFF_FFFF;

/// A feature of a font to apply: which one, with what value, and to which
/// items, from `start` up to `end`.
#[derive(Clone, Copy, Debug, PartialEq, Eq, Hash, Structural)]
pub struct Feature {
    pub tag: Tag,
    pub value: u32,
    pub start: u32,
    pub end: u32,
}

/// Why a text names no feature.
#[derive(Clone, Copy, Debug, PartialEq, Eq, Hash, Structural)]
pub enum FeatureError {
    /// The tag is empty or has more than four letters and digits.
    Tag,
    /// No number follows the equal sign, or one that does not fit in 32
    /// bits.
    Value,
    /// The range is not `[start:end]` with numbers that fit in 32 bits.
    Indices,
    /// Something follows the feature.
    Trailing,
}

/// Whether a byte is an ASCII letter or digit.
pub open spec fn is_alnum(byte: u8) -> bool {
    (0x30 <= byte <= 0x39) || (0x41 <= byte <= 0x5A) || (0x61 <= byte <= 0x7A)
}

/// The place after the letters and digits that start at `pos`.
pub open spec fn alnum_run_end(bytes: Seq<u8>, pos: int) -> int
    decreases bytes.len() - pos,
{
    if 0 <= pos < bytes.len() && is_alnum(bytes[pos]) {
        alnum_run_end(bytes, pos + 1)
    } else {
        pos
    }
}

/// The tag of up to four bytes, with spaces for the bytes that lack.
pub open spec fn tag_of_bytes(bytes: Seq<u8>) -> Tag {
    Tag {
        value: pack_bytes(
            padded_byte(bytes, 0),
            padded_byte(bytes, 1),
            padded_byte(bytes, 2),
            padded_byte(bytes, 3),
        ),
    }
}

/// The number of an index that may be left out: `default` for no digits.
pub open spec fn index_value(digits: Seq<u8>, default: u32) -> nat {
    if digits.len() == 0 {
        default as nat
    } else {
        decimal_value(digits)
    }
}

/// The range that follows a feature's tag and value, from place `pos` on.
/// Nothing stands for the whole text. Else the range is `[start:end]`,
/// where a `start` left out is 0 and an `end` left out is the end of the
/// text, and nothing follows it.
pub open spec fn parsed_indices(bytes: Seq<u8>, pos: int) -> Result<(u32, u32), FeatureError> {
    let start_end = digit_run_end(bytes, pos + 1);
    let end_end = digit_run_end(bytes, start_end + 1);
    let start = index_value(bytes.subrange(pos + 1, start_end), 0);
    let end = index_value(bytes.subrange(start_end + 1, end_end), FEATURE_GLOBAL_END);
    if pos == bytes.len() {
        Ok((0u32, FEATURE_GLOBAL_END))
    } else if bytes[pos] != 0x5B {
        Err(FeatureError::Trailing)
    } else if start > 0xFFFF_FFFF || start_end >= bytes.len() || bytes[start_end] != 0x3A {
        Err(FeatureError::Indices)
    } else if end > 0xFFFF_FFFF || end_end >= bytes.len() || bytes[end_end] != 0x5D {
        Err(FeatureError::Indices)
    } else if end_end + 1 != bytes.len() {
        Err(FeatureError::Trailing)
    } else {
        Ok((start as u32, end as u32))
    }
}

/// The feature that a text names, or why it names none. The text is a
/// sign that may be left out, a tag of one to four letters and digits, a
/// value after an equal sign that may be left out, and a range that may be
/// left out. A minus sign stands for the value 0, and no sign or a plus
/// sign for the value 1; a value that is written counts for more than the
/// sign. No range stands for the whole text.
pub open spec fn parsed_feature(bytes: Seq<u8>) -> Result<Feature, FeatureError> {
    let signed = bytes.len() > 0 && (bytes[0] == 0x2D || bytes[0] == 0x2B);
    let tag_start: int = if signed { 1 } else { 0 };
    let sign_value: u32 = if bytes.len() > 0 && bytes[0] == 0x2D { 0 } else { 1 };
    let tag_end = alnum_run_end(bytes, tag_start);
    let has_value = tag_end < bytes.len() && bytes[tag_end] == 0x3D;
    let value_end = if has_value { digit_run_end(bytes, tag_end + 1) } else { tag_end };
    let written = decimal_value(bytes.subrange(tag_end + 1, value_end));
    if tag_end == tag_start || tag_end - tag_start > 4 {
        Err(FeatureError::Tag)
    } else if has_value && (value_end == tag_end + 1 || written > 0xFFFF_FFFF) {
        Err(FeatureError::Value)
    } else {
        match parsed_indices(bytes, value_end) {
            Ok((start, end)) => Ok(
                Feature {
                    tag: tag_of_bytes(bytes.subrange(tag_start, tag_end)),
                    value: if has_value { written as u32 } else { sign_value },
                    start,
                    end,
                },
            ),
            Err(e) => Err(e),
        }
    }
}

/// Reads the range of a feature from place `pos` on.
fn parse_indices(bytes: &[u8], pos: usize) -> (r: Result<(u32, u32), FeatureError>)
    requires
        pos <= bytes@.len(),
    ensures
        r == parsed_indices(bytes@, pos as int),
{
    let n: usize = bytes.len();
    if pos == n {
        return Ok((0, FEATURE_GLOBAL_END));
    }
    if bytes[pos] != 0x5B {
        return Err(FeatureError::Trailing);
    }
    let (start, start_end) = read_u32(bytes, pos + 1);
    let start: u32 = match start {
        Some(v) => v,
        None => {
            if start_end > pos + 1 {
                return Err(FeatureError::Indices);
            }
            0
        },
    };
    if start_end >= n || bytes[start_end] != 0x3A {
        return Err(FeatureError::Indices);
    }
    let (end, end_end) = read_u32(bytes, start_end + 1);
    let end: u32 = match end {
        Some(v) => v,
        None => {
            if end_end > start_end + 1 {
                return Err(FeatureError::Indices);
            }
            FEATURE_GLOBAL_END
        },
    };
    if end_end >= n || bytes[end_end] != 0x5D {
        return Err(FeatureError::Indices);
    }
    if end_end + 1 != n {
        return Err(FeatureError::Trailing);
    }
    Ok((start, end))
}

impl Feature {
    /// The feature that `text` names: see `parsed_feature`.
    pub fn parse(text: &str) -> (r: Result<Feature, FeatureError>)
        ensures
            r == parsed_feature(text.spec_bytes()),
    {
        let bytes = text.as_bytes();
        let n: usize = bytes.len();
        let mut sign_value: u32 = 1;
        let mut tag_start: usize = 0;
        if n > 0 && bytes[0] == 0x2D {
            sign_value = 0;
            tag_start = 1;
        } else if n > 0 && bytes[0] == 0x2B {
            tag_start = 1;
        }
        let mut tag_end: usize = tag_start;
        while tag_end < n && ((0x30 <= bytes[tag_end] && bytes[tag_end] <= 0x39) || (0x41
            <= bytes[tag_end] && bytes[tag_end] <= 0x5A) || (0x61 <= bytes[tag_end]
            && bytes[tag_end] <= 0x7A))
            invariant
                tag_start <= tag_end <= n,
                n == bytes@.len(),
                alnum_run_end(bytes@, tag_end as int) == alnum_run_end(bytes@, tag_start as int),
            decreases n - tag_end,
        {
            tag_end = tag_end + 1;
        }
        if tag_end == tag_start || tag_end - tag_start > 4 {
            return Err(FeatureError::Tag);
        }
        let len: usize = tag_end - tag_start;
        let b0: u8 = bytes[tag_start];
        let b1: u8 = if len > 1 { bytes[tag_start + 1] } else { 0x20 };
        let b2: u8 = if len > 2 { bytes[tag_start + 2] } else { 0x20 };
        let b3: u8 = if len > 3 { bytes[tag_start + 3] } else { 0x20 };
        let tag = Tag::from_bytes([b0, b1, b2, b3]);
        assert(tag == tag_of_bytes(bytes@.subrange(tag_start as int, tag_end as int)));
        let mut value: u32 = sign_value;
        let mut value_end: usize = tag_end;
        if tag_end < n && bytes[tag_end] == 0x3D {
            let (written, end) = read_u32(bytes, tag_end + 1);
            match written {
                Some(v) => {
                    value = v;
                    value_end = end;
                },
                None => {
                    return Err(FeatureError::Value);
                },
            }
        }
        match parse_indices(bytes, value_end) {
            Ok((start, end)) => Ok(Feature { tag, value, start, end }),
            Err(e) => Err(e),
        }
    }

    /// The feature that `text` names: see `parsed_feature`.
    pub fn from_str(text: &str) -> (r: Result<Feature, FeatureError>)
        ensures
            r == parsed_feature(text.spec_bytes()),
    {
        Feature::parse(text)
    }
}

/// The name of a tag as a feature is written: its bytes without the
/// spaces at its end, but at least its first byte.
pub open spec fn tag_name(tag: Tag) -> Seq<u8> {
    let bytes = tag.bytes();
    if bytes[3] != 0x20 {
        bytes
    } else if bytes[2] != 0x20 {
        bytes.take(3)
    } else if bytes[1] != 0x20 {
        bytes.take(2)
    } else {
        bytes.take(1)
    }
}

/// The range of a feature as it is written: nothing for the whole text,
/// else `[start:end]`, where a `start` of 0 and an `end` at the end of the
/// text are left out.
pub open spec fn range_text(start: u32, end: u32) -> Seq<u8> {
    if start == 0 && end == FEATURE_GLOBAL_END {
        Seq::empty()
    } else {
        seq![0x5Bu8] + index_text(start, 0) + seq![0x3Au8] + index_text(end, FEATURE_GLOBAL_END)
            + seq![0x5Du8]
    }
}

/// The sign of a feature as it is written: a minus sign for the value 0,
/// and nothing for any other value.
pub open spec fn sign_text(value: u32) -> Seq<u8> {
    if value == 0 {
        seq![0x2Du8]
    } else {
        Seq::empty()
    }
}

/// The value of a feature as it is written: the value after an equal sign
/// where it is more than 1, and nothing where the sign says it all.
pub open spec fn value_text(value: u32) -> Seq<u8> {
    if value > 1 {
        seq![0x3Du8] + decimal_digits(value as nat)
    } else {
        Seq::empty()
    }
}

/// A feature as text: its sign, its tag, its value and its range.
pub open spec fn feature_text(feature: Feature) -> Seq<u8> {
    sign_text(feature.value) + tag_name(feature.tag) + value_text(feature.value) + range_text(
        feature.start,
        feature.end,
    )
}

/// Whether a tag can be written in a feature: it is made of letters and
/// digits, with spaces after them as may be.
pub open spec fn is_feature_tag(tag: Tag) -> bool {
    forall|i: int| 0 <= i < tag_name(tag).len() ==> is_alnum(#[trigger] tag_name(tag)[i])
}

/// Writes the name of a tag.
fn write_tag_name(out: &mut Vec<u8>, tag: Tag)
    ensures
        final(out)@ == old(out)@ + tag_name(tag),
{
    let bytes = tag.to_bytes();
    let n: usize = if bytes[3] != 0x20 {
        4
    } else if bytes[2] != 0x20 {
        3
    } else if bytes[1] != 0x20 {
        2
    } else {
        1
    };
    let mut i: usize = 0;
    assert(old(out)@ + tag.bytes().take(0) =~= old(out)@);
    while i < n
        invariant
            i <= n <= 4,
            forall|k: int| 0 <= k < 4 ==> bytes[k] == tag.bytes()[k],
            out@ == old(out)@ + tag.bytes().take(i as int),
        decreases n - i,
    {
        out.push(bytes[i]);
        i = i + 1;
        assert(out@ =~= old(out)@ + tag.bytes().take(i as int));
    }
    assert(tag.bytes().take(4) =~= tag.bytes());
}

/// Writes the range of a feature.
fn write_range(out: &mut Vec<u8>, start: u32, end: u32)
    ensures
        final(out)@ == old(out)@ + range_text(start, end),
{
    if start != 0 || end != FEATURE_GLOBAL_END {
        out.push(0x5B);
        if start != 0 {
            write_u32(out, start);
        }
        out.push(0x3A);
        if end != FEATURE_GLOBAL_END {
            write_u32(out, end);
        }
        out.push(0x5D);
    }
    assert(out@ =~= old(out)@ + range_text(start, end));
}

impl Feature {
    /// The feature as text: see `feature_text`. A tag that is no
    /// well-formed UTF-8 gives no text.
    pub fn to_string(&self) -> (text: String)
        ensures
            text@ == (if valid_utf8(feature_text(*self)) {
                decode_utf8(feature_text(*self))
            } else {
                Seq::empty()
            }),
    {
        let mut out: Vec<u8> = Vec::new();
        if self.value == 0 {
            out.push(0x2D);
        }
        assert(out@ =~= sign_text(self.value));
        write_tag_name(&mut out, self.tag);
        let ghost named = out@;
        if self.value > 1 {
            out.push(0x3D);
            write_u32(&mut out, self.value);
        }
        assert(out@ =~= named + value_text(self.value));
        write_range(&mut out, self.start, self.end);
        match string_from_utf8(out) {
            Some(text) => text,
            None => String::new(),
        }
    }
}

/// The place after the letters and digits at a place of a text is the
/// place after them in the text without what stands before it.
proof fn lemma_alnum_run_shift(prefix: Seq<u8>, text: Seq<u8>, pos: int)
    requires
        0 <= pos <= text.len(),
    ensures
        alnum_run_end(prefix + text, prefix.len() + pos) == prefix.len() + alnum_run_end(text, pos),
    decreases text.len() - pos,
{
    let all = prefix + text;
    if pos < text.len() {
        assert(all[prefix.len() + pos] == text[pos]);
        if is_alnum(text[pos]) {
            lemma_alnum_run_shift(prefix, text, pos + 1);
        }
    }
}

/// Letters and digits that are followed by what is neither, or by nothing,
/// are read whole.
proof fn lemma_alnum_run_of_name(name: Seq<u8>, rest: Seq<u8>, pos: int)
    requires
        0 <= pos <= name.len(),
        forall|i: int| 0 <= i < name.len() ==> is_alnum(#[trigger] name[i]),
        rest.len() == 0 || !is_alnum(rest[0]),
    ensures
        alnum_run_end(name + rest, pos) == name.len(),
    decreases name.len() - pos,
{
    let all = name + rest;
    if pos < name.len() {
        assert(all[pos] == name[pos]);
        lemma_alnum_run_of_name(name, rest, pos + 1);
    } else if rest.len() > 0 {
        assert(all[pos] == rest[0]);
    }
}

/// Digits that stand before a mark which is no digit are read whole, from
/// the place where they start up to the mark.
proof fn lemma_digits_before_mark(head: Seq<u8>, digits: Seq<u8>, mark: u8, tail: Seq<u8>)
    requires
        forall|i: int| 0 <= i < digits.len() ==> is_digit(digits[i]),
        !is_digit(mark),
    ensures
        digit_run_end(head + digits + seq![mark] + tail, head.len() as int) == head.len()
            + digits.len(),
        (head + digits + seq![mark] + tail).subrange(
            head.len() as int,
            (head.len() + digits.len()) as int,
        ) == digits,
        (head + digits + seq![mark] + tail)[(head.len() + digits.len()) as int] == mark,
{
    let bytes = head + digits + seq![mark] + tail;
    let rest = seq![mark] + tail;
    assert(bytes =~= head + (digits + rest));
    lemma_digit_run_shift(head, digits + rest, 0);
    assert(rest[0] == mark);
    lemma_digit_run_of_digits(digits, rest, 0);
    assert(bytes.subrange(head.len() as int, (head.len() + digits.len()) as int) =~= digits);
}

/// An index of a range as it is written: its digits, and nothing where it
/// is the index that stands for itself.
pub open spec fn index_text(index: u32, default: u32) -> Seq<u8> {
    if index != default {
        decimal_digits(index as nat)
    } else {
        Seq::empty()
    }
}

/// An index that was written names the index again.
proof fn lemma_index_text(index: u32, default: u32)
    ensures
        index_value(index_text(index, default), default) == index,
        forall|i: int|
            0 <= i < index_text(index, default).len() ==> is_digit(index_text(index, default)[i]),
{
    lemma_decimal_digits(index as nat);
}

/// The range of a feature that was written is read back.
proof fn lemma_range_read_back(before: Seq<u8>, start: u32, end: u32)
    ensures
        parsed_indices(before + range_text(start, end), before.len() as int) == Ok::<
            (u32, u32),
            FeatureError,
        >((start, end)),
{
    let range = range_text(start, end);
    let bytes = before + range;
    let pos = before.len() as int;
    if start == 0 && end == FEATURE_GLOBAL_END {
        assert(bytes =~= before);
    } else {
        let s = index_text(start, 0);
        let e = index_text(end, FEATURE_GLOBAL_END);
        lemma_index_text(start, 0);
        lemma_index_text(end, FEATURE_GLOBAL_END);
        let head = before + seq![0x5Bu8];
        let tail = e + seq![0x5Du8];
        assert(bytes =~= head + s + seq![0x3Au8] + tail);
        assert(bytes[pos] == 0x5B);
        lemma_digits_before_mark(head, s, 0x3A, tail);
        let start_end = pos + 1 + s.len();
        let head2 = head + s + seq![0x3Au8];
        assert(bytes =~= head2 + e + seq![0x5Du8] + Seq::<u8>::empty());
        lemma_digits_before_mark(head2, e, 0x5D, Seq::<u8>::empty());
        let end_end = start_end + 1 + e.len();
        assert(digit_run_end(bytes, pos + 1) == start_end);
        assert(digit_run_end(bytes, start_end + 1) == end_end);
        assert(bytes.subrange(pos + 1, start_end) == s);
        assert(bytes.subrange(start_end + 1, end_end) == e);
        assert(bytes[start_end] == 0x3A);
        assert(bytes[end_end] == 0x5D);
        assert(end_end + 1 == bytes.len());
    }
}

/// The tag of a feature that was written is read back: the letters and
/// digits after the sign are those of its name, and they name the tag.
proof fn lemma_tag_read_back(sign: Seq<u8>, tag: Tag, rest: Seq<u8>)
    requires
        is_feature_tag(tag),
        rest.len() == 0 || !is_alnum(rest[0]),
    ensures
        1 <= tag_name(tag).len() <= 4,
        is_alnum(tag_name(tag)[0]),
        alnum_run_end(sign + tag_name(tag) + rest, sign.len() as int) == sign.len() + tag_name(
            tag,
        ).len(),
        tag_of_bytes(
            (sign + tag_name(tag) + rest).subrange(
                sign.len() as int,
                (sign.len() + tag_name(tag).len()) as int,
            ),
        ) == tag,
{
    let name = tag_name(tag);
    let bytes = sign + name + rest;
    assert(is_alnum(name[0]));
    assert(bytes =~= sign + (name + rest));
    lemma_alnum_run_shift(sign, name + rest, 0);
    lemma_alnum_run_of_name(name, rest, 0);
    assert(bytes.subrange(sign.len() as int, (sign.len() + name.len()) as int) =~= name);
    lemma_unpack_then_pack(tag.value);
    let b = tag.bytes();
    assert forall|i: int| 0 <= i < 4 implies padded_byte(name, i) == b[i] by {
        if i < name.len() {
            assert(name[i] == b[i]);
        }
    }
}

/// The value of a feature that was written is read back: digits follow
/// the equal sign up to the range, and they name the value.
proof fn lemma_value_read_back(head: Seq<u8>, value: u32, range: Seq<u8>)
    requires
        value > 1,
        range.len() == 0 || range[0] == 0x5B,
    ensures
        (head + value_text(value) + range)[head.len() as int] == 0x3D,
        digit_run_end(head + value_text(value) + range, (head.len() + 1) as int) == head.len()
            + value_text(value).len(),
        decimal_value(
            (head + value_text(value) + range).subrange(
                (head.len() + 1) as int,
                (head.len() + value_text(value).len()) as int,
            ),
        ) == value,
        value_text(value).len() > 1,
{
    let digits = decimal_digits(value as nat);
    let bytes = head + value_text(value) + range;
    lemma_decimal_digits(value as nat);
    let head2 = head + seq![0x3Du8];
    assert(bytes =~= head2 + (digits + range));
    lemma_digit_run_shift(head2, digits + range, 0);
    lemma_digit_run_of_digits(digits, range, 0);
    assert(bytes.subrange((head.len() + 1) as int, (head.len() + 1 + digits.len()) as int) =~= digits);
}

/// A feature whose tag is made of letters and digits, as text, names the
/// feature: what `feature_text` writes, `parsed_feature` reads back.
pub proof fn lemma_feature_text_round_trip(feature: Feature)
    requires
        is_feature_tag(feature.tag),
    ensures
        parsed_feature(feature_text(feature)) == Ok::<Feature, FeatureError>(feature),
{
    let sign = sign_text(feature.value);
    let name = tag_name(feature.tag);
    let value = value_text(feature.value);
    let range = range_text(feature.start, feature.end);
    let bytes = feature_text(feature);
    let rest = value + range;
    assert(range.len() == 0 || range[0] == 0x5B);
    assert(rest.len() == 0 || !is_alnum(rest[0])) by {
        if feature.value > 1 {
            assert(rest[0] == 0x3D);
        } else if range.len() > 0 {
            assert(rest[0] == range[0]);
        }
    }
    lemma_tag_read_back(sign, feature.tag, rest);
    assert(bytes =~= sign + name + rest);
    let tag_start = sign.len() as int;
    let tag_end = tag_start + name.len();
    assert(bytes[tag_start] == name[0]);
    assert(bytes[0] == 0x2D <==> feature.value == 0);
    assert(bytes[0] != 0x2B);
    let head = sign + name;
    if feature.value > 1 {
        lemma_value_read_back(head, feature.value, range);
        assert(bytes =~= head + value + range);
        lemma_range_read_back(head + value, feature.start, feature.end);
    } else {
        assert(bytes =~= head + range);
        if range.len() > 0 {
            assert(bytes[tag_end] == range[0]);
        }
        lemma_range_read_back(head, feature.start, feature.end);
    }
}

impl Default for Feature {
    fn default() -> (feature: Feature)
        ensures
            feature == (Feature { tag: Tag { value: 0 }, value: 0, start: 0, end: 0 }),
    {
        Feature { tag: Tag { value: 0 }, value: 0, start: 0, end: 0 }
    }
}

/// A way to shape that this library has.
#[derive(Clone, Copy, Debug, PartialEq, Eq, Hash, Structural)]
pub enum Shaper {
    /// Shapes by the tables of the font: each codepoint becomes the glyph
    /// that the font has for it. It needs a font that has a table of
    /// glyphs.
    Ot,
    /// Shapes without knowing any glyph: each codepoint becomes the glyph
    /// of its own number. It shapes with any font.
    Fallback,
}

/// The ways to shape, in the order in which they are tried.
pub open spec fn all_shapers() -> Seq<Shaper> {
    seq![Shaper::Ot, Shaper::Fallback]
}

impl Shaper {
    /// The name of the way to shape.
    pub open spec fn name(self) -> Seq<char> {
        match self {
            Shaper::Ot => "ot"@,
            Shaper::Fallback => "fallback"@,
        }
    }

    /// The way to shape that bytes name, if they name one.
    pub open spec fn named(name: Seq<u8>) -> Option<Shaper> {
        if name == seq![0x6Fu8, 0x74u8] {
            Some(Shaper::Ot)
        } else if name == seq![0x66u8, 0x61u8, 0x6Cu8, 0x6Cu8, 0x62u8, 0x61u8, 0x63u8, 0x6Bu8] {
            Some(Shaper::Fallback)
        } else {
            None
        }
    }

    /// Whether this way can shape with the font.
    pub open spec fn can_shape(self, font: &Font) -> bool {
        match self {
            Shaper::Ot => font.glyph_table() is Some,
            Shaper::Fallback => true,
        }
    }

    /// The glyph that this way gives a codepoint: by the tables, the glyph
    /// that the font has for the codepoint, and glyph 0 where it has none;
    /// without them, the glyph of the codepoint's own number.
    pub open spec fn glyph_of(self, font: &Font, codepoint: u32) -> u32 {
        match self {
            Shaper::Ot => match font.glyph_for(codepoint, 0) {
                Some(glyph) => glyph,
                None => 0,
            },
            Shaper::Fallback => codepoint,
        }
    }

    /// The name of the way to shape.
    pub fn to_str(self) -> (name: &'static str)
        ensures
            name@ == self.name(),
    {
        match self {
            Shaper::Ot => "ot",
            Shaper::Fallback => "fallback",
        }
    }

    /// The way to shape that a text names, if it names one.
    pub fn from_name(name: &str) -> (shaper: Option<Shaper>)
        ensures
            shaper == Shaper::named(name.spec_bytes()),
    {
        let b = name.as_bytes();
        if b.len() == 2 && b[0] == 0x6F && b[1] == 0x74 {
            assert(b@ =~= seq![0x6Fu8, 0x74u8]);
            Some(Shaper::Ot)
        } else if b.len() == 8 && b[0] == 0x66 && b[1] == 0x61 && b[2] == 0x6C && b[3] == 0x6C
            && b[4] == 0x62 && b[5] == 0x61 && b[6] == 0x63 && b[7] == 0x6B {
            assert(b@ =~= seq![0x66u8, 0x61u8, 0x6Cu8, 0x6Cu8, 0x62u8, 0x61u8, 0x63u8, 0x6Bu8]);
            Some(Shaper::Fallback)
        } else {
            None
        }
    }
}

/// The names of the ways to shape, in the order in which they are tried.
pub fn list_shapers() -> (names: Vec<&'static str>)
    ensures
        names@.len() == all_shapers().len(),
        forall|i: int| 0 <= i < names@.len() ==> names@[i]@ == all_shapers()[i].name(),
{
    let mut names: Vec<&'static str> = Vec::new();
    names.push(Shaper::Ot.to_str());
    names.push(Shaper::Fallback.to_str());
    names
}

/// The ways to shape that a caller wants tried, in order.
pub struct ShaperList {
    pub shapers: Vec<Shaper>,
}

/// The ways to shape that some names name, in order; a name that names
/// none is left out.
pub open spec fn shapers_named(names: Seq<&str>) -> Seq<Shaper>
    decreases names.len(),
{
    if names.len() == 0 {
        Seq::empty()
    } else {
        match Shaper::named(names.last().spec_bytes()) {
            Some(shaper) => shapers_named(names.drop_last()).push(shaper),
            None => shapers_named(names.drop_last()),
        }
    }
}

impl ShaperList {
    /// The list of the ways to shape that the names name.
    pub fn from_names(names: &[&str]) -> (list: ShaperList)
        ensures
            list.shapers@ == shapers_named(names@),
    {
        let mut shapers: Vec<Shaper> = Vec::new();
        let mut i: usize = 0;
        while i < names.len()
            invariant
                i <= names@.len(),
                shapers@ == shapers_named(names@.subrange(0, i as int)),
            decreases names@.len() - i,
        {
            let ghost next = names@.subrange(0, i + 1);
            assert(next.drop_last() =~= names@.subrange(0, i as int));
            assert(next.last() == names@[i as int]);
            match Shaper::from_name(names[i]) {
                Some(shaper) => {
                    shapers.push(shaper);
                },
                None => {},
            }
            i = i + 1;
        }
        assert(names@.subrange(0, i as int) =~= names@);
        ShaperList { shapers }
    }

    /// The list of all the ways to shape, in the order in which they are
    /// tried.
    pub fn all() -> (list: ShaperList)
        ensures
            list.shapers@ == all_shapers(),
    {
        let mut shapers: Vec<Shaper> = Vec::new();
        shapers.push(Shaper::Ot);
        shapers.push(Shaper::Fallback);
        assert(shapers@ =~= all_shapers());
        ShaperList { shapers }
    }
}

/// The first way of a list that can shape with the font, if there is one.
pub open spec fn first_able(shapers: Seq<Shaper>, font: &Font) -> Option<Shaper>
    decreases shapers.len(),
{
    if shapers.len() == 0 {
        None
    } else if shapers[0].can_shape(font) {
        Some(shapers[0])
    } else {
        first_able(shapers.drop_first(), font)
    }
}

/// Whether feature `k` of a list applies to the items of a cluster: its
/// value is not 0 and the cluster lies in its range.
pub open spec fn feature_applies(features: Seq<Feature>, k: int, cluster: u32) -> bool {
    features[k].value != 0 && features[k].start <= cluster < features[k].end
}

/// The mask of the items of a cluster: bit 0, which every glyph has, and
/// bit `k + 1` for each of the first 31 features that applies to the
/// cluster, where `k` is the place of the feature in the list.
pub open spec fn feature_mask(features: Seq<Feature>, cluster: u32) -> u32
    decreases features.len(),
{
    if features.len() == 0 {
        1
    } else {
        let k = features.len() - 1;
        let mask = feature_mask(features.drop_last(), cluster);
        if k < 31 && feature_applies(features, k, cluster) {
            mask | (1u32 << ((k + 1) as u32))
        } else {
            mask
        }
    }
}

/// The mask of the items of a cluster.
fn compute_feature_mask(features: &[Feature], cluster: u32) -> (mask: u32)
    ensures
        mask == feature_mask(features@, cluster),
{
    let mut mask: u32 = 1;
    let mut k: usize = 0;
    while k < features.len()
        invariant
            k <= features@.len(),
            mask == feature_mask(features@.subrange(0, k as int), cluster),
        decreases features@.len() - k,
    {
        let ghost next = features@.subrange(0, k + 1);
        assert(next.drop_last() =~= features@.subrange(0, k as int));
        assert(next.last() == features@[k as int]);
        let f = features[k];
        if k < 31 && f.value != 0 && f.start <= cluster && cluster < f.end {
            mask = mask | (1u32 << ((k + 1) as u32));
        }
        k = k + 1;
    }
    assert(features@.subrange(0, k as int) =~= features@);
    mask
}

/// The position of a glyph that has just been shaped: its advance in text
/// of the direction, and the way back from its origin for its offset.
pub open spec fn shaped_position(font: &Font, glyph: u32, direction: Direction) -> GlyphPosition {
    GlyphPosition {
        x_advance: font.advance_for_direction(glyph, direction).0,
        y_advance: font.advance_for_direction(glyph, direction).1,
        x_offset: wrapping_difference(0, font.origin_for_direction(glyph, direction).0),
        y_offset: wrapping_difference(0, font.origin_for_direction(glyph, direction).1),
    }
}

/// The glyph that an item becomes: the glyph of its codepoint, with the
/// mask of its cluster and the cluster itself.
pub open spec fn shaped_info(
    shaper: Shaper,
    font: &Font,
    features: Seq<Feature>,
    item: GlyphInfo,
) -> GlyphInfo {
    GlyphInfo {
        codepoint: shaper.glyph_of(font, item.codepoint),
        mask: feature_mask(features, item.cluster),
        cluster: item.cluster,
    }
}

/// The glyphs that the items of a run become, in the order of the items.
pub open spec fn shaped_infos(
    shaper: Shaper,
    font: &Font,
    features: Seq<Feature>,
    items: Seq<GlyphInfo>,
) -> Seq<GlyphInfo> {
    Seq::new(items.len(), |i: int| shaped_info(shaper, font, features, items[i]))
}

/// The positions of the glyphs that the items of a run become.
pub open spec fn shaped_positions(
    shaper: Shaper,
    font: &Font,
    items: Seq<GlyphInfo>,
    direction: Direction,
) -> Seq<GlyphPosition> {
    Seq::new(
        items.len(),
        |i: int| shaped_position(font, shaper.glyph_of(font, items[i].codepoint), direction),
    )
}

/// Whether a direction runs backwards: right to left or bottom to top.
pub open spec fn is_backward(direction: Direction) -> bool {
    direction == Direction::Rtl || direction == Direction::Btt
}

/// The buffer after shaping in one way. Each item has become a glyph
/// with its position. In a run that runs backwards the glyphs stand in
/// reverse order, which is the order in which they are drawn.
pub open spec fn shaped(
    buffer: BufferModel,
    shaper: Shaper,
    font: &Font,
    features: Seq<Feature>,
) -> BufferModel {
    let infos = shaped_infos(shaper, font, features, buffer.infos);
    let positions = shaped_positions(shaper, font, buffer.infos, buffer.props.direction);
    BufferModel {
        content_type: BufferContentType::Glyphs,
        infos: if is_backward(buffer.props.direction) {
            infos.reverse()
        } else {
            infos
        },
        positions: if is_backward(buffer.props.direction) {
            positions.reverse()
        } else {
            positions
        },
        ..buffer
    }
}

/// The buffer after an attempt to shape in the ways of a list: shaped in
/// the first way that can shape with the font, and unchanged where none
/// can.
pub open spec fn shaped_by_list(
    buffer: BufferModel,
    shapers: Seq<Shaper>,
    font: &Font,
    features: Seq<Feature>,
) -> BufferModel {
    match first_able(shapers, font) {
        Some(shaper) => shaped(buffer, shaper, font, features),
        None => buffer,
    }
}

/// Whether this way can shape with the font.
fn shaper_can_shape(shaper: Shaper, font: &Font) -> (able: bool)
    ensures
        able == shaper.can_shape(font),
{
    match shaper {
        Shaper::Ot => font.has_glyph_table(),
        Shaper::Fallback => true,
    }
}

/// Shapes the buffer in one way.
fn shape_with(shaper: Shaper, font: &Font, buffer: &mut Buffer, features: &[Feature])
    requires
        old(buffer).wf(),
        old(buffer)@.content_type != BufferContentType::Glyphs,
    ensures
        final(buffer).wf(),
        final(buffer)@ == shaped(old(buffer)@, shaper, font, features@),
{
    let direction = buffer.direction();
    let n: usize = buffer.len() as usize;
    let mut infos: Vec<GlyphInfo> = Vec::new();
    let mut positions: Vec<GlyphPosition> = Vec::new();
    let ghost items = buffer@.infos;
    let ghost all_infos = shaped_infos(shaper, font, features@, items);
    let ghost all_positions = shaped_positions(shaper, font, items, direction);
    let backward: bool = direction.is_backward();
    let mut i: usize = 0;
    while i < n
        invariant
            i <= n,
            n == items.len(),
            buffer@ == old(buffer)@,
            items == buffer@.infos,
            direction == buffer@.props.direction,
            backward == is_backward(direction),
            all_infos == shaped_infos(shaper, font, features@, items),
            all_positions == shaped_positions(shaper, font, items, direction),
            infos@.len() == i,
            positions@.len() == i,
            forall|k: int|
                0 <= k < i ==> infos@[k] == (if backward {
                    all_infos[n - 1 - k]
                } else {
                    all_infos[k]
                }),
            forall|k: int|
                0 <= k < i ==> positions@[k] == (if backward {
                    all_positions[n - 1 - k]
                } else {
                    all_positions[k]
                }),
        decreases n - i,
    {
        let source: usize = if backward { n - 1 - i } else { i };
        let item = buffer.glyph_infos()[source];
        let glyph: u32 = match shaper {
            Shaper::Ot => match font.get_nominal_glyph(item.codepoint) {
                Some(glyph) => glyph,
                None => 0,
            },
            Shaper::Fallback => item.codepoint,
        };
        let advance = font.get_glyph_advance_for_direction(glyph, direction);
        let origin = font.get_glyph_origin_for_direction(glyph, direction);
        infos.push(
            GlyphInfo {
                codepoint: glyph,
                mask: compute_feature_mask(features, item.cluster),
                cluster: item.cluster,
            },
        );
        positions.push(
            GlyphPosition {
                x_advance: advance.0,
                y_advance: advance.1,
                x_offset: sub_wrapping(0, origin.0),
                y_offset: sub_wrapping(0, origin.1),
            },
        );
        i = i + 1;
    }
    proof {
        if backward {
            assert(infos@ =~= all_infos.reverse());
            assert(positions@ =~= all_positions.reverse());
        } else {
            assert(infos@ =~= all_infos);
            assert(positions@ =~= all_positions);
        }
    }
    buffer.replace_with_glyphs(infos, positions);
}

/// Shapes the buffer in the first way of the list that can shape with the
/// font, and says whether there was one. Where there was none the buffer
/// is unchanged.
pub fn shape_full(
    font: &Font,
    buffer: &mut Buffer,
    features: &[Feature],
    shaper_list: &ShaperList,
) -> (done: bool)
    requires
        old(buffer).wf(),
        old(buffer)@.content_type != BufferContentType::Glyphs,
        old(buffer)@.props.direction != Direction::Invalid,
    ensures
        final(buffer).wf(),
        done == (first_able(shaper_list.shapers@, font) is Some),
        final(buffer)@ == shaped_by_list(old(buffer)@, shaper_list.shapers@, font, features@),
{
    let n: usize = shaper_list.shapers.len();
    let mut i: usize = 0;
    assert(shaper_list.shapers@.subrange(0, n as int) =~= shaper_list.shapers@);
    while i < n
        invariant
            i <= n,
            n == shaper_list.shapers@.len(),
            buffer@ == old(buffer)@,
            buffer.wf(),
            buffer@.content_type != BufferContentType::Glyphs,
            first_able(shaper_list.shapers@.subrange(i as int, n as int), font) == first_able(
                shaper_list.shapers@,
                font,
            ),
        decreases n - i,
    {
        let ghost rest = shaper_list.shapers@.subrange(i as int, n as int);
        assert(rest.drop_first() =~= shaper_list.shapers@.subrange(i + 1, n as int));
        assert(rest[0] == shaper_list.shapers@[i as int]);
        let shaper = shaper_list.shapers[i];
        if shaper_can_shape(shaper, font) {
            shape_with(shaper, font, buffer, features);
            return true;
        }
        i = i + 1;
    }
    assert(shaper_list.shapers@.subrange(i as int, n as int).len() == 0);
    false
}

/// The way in which `shape` shapes with a font: by its tables where it
/// has a table of glyphs, and without them otherwise.
pub open spec fn chosen_shaper(font: &Font) -> Shaper {
    if font.glyph_table() is Some {
        Shaper::Ot
    } else {
        Shaper::Fallback
    }
}

/// Shapes the buffer: tries the ways to shape in their order, of which
/// the last can shape with any font. The items become glyphs in any case.
pub fn shape(font: &Font, buffer: &mut Buffer, features: &[Feature])
    requires
        old(buffer).wf(),
        old(buffer)@.content_type != BufferContentType::Glyphs,
        old(buffer)@.props.direction != Direction::Invalid,
    ensures
        final(buffer).wf(),
        final(buffer)@ == shaped(old(buffer)@, chosen_shaper(font), font, features@),
{
    if shaper_can_shape(Shaper::Ot, font) {
        shape_with(Shaper::Ot, font, buffer, features);
    } else {
        shape_with(Shaper::Fallback, font, buffer, features);
    }
}

/// Shaping in all the ways, in their order, is what `shape` does.
pub proof fn lemma_shape_is_shape_full_with_all(
    buffer: BufferModel,
    font: &Font,
    features: Seq<Feature>,
)
    ensures
        first_able(all_shapers(), font) == Some(chosen_shaper(font)),
        shaped_by_list(buffer, all_shapers(), font, features) == shaped(
            buffer,
            chosen_shaper(font),
            font,
            features,
        ),
{
    let rest = all_shapers().drop_first();
    assert(rest.len() == 1);
    assert(rest[0] == Shaper::Fallback);
    assert(all_shapers()[0] == Shaper::Ot);
    assert(first_able(rest, font) == Some(Shaper::Fallback));
}

/// The clusters of the glyphs of a run in the order of the text: as they
/// stand in a run that runs forwards, and in reverse order in one that
/// runs backwards.
pub open spec fn in_text_order(clusters: Seq<u32>, direction: Direction) -> Seq<u32> {
    if is_backward(direction) {
        clusters.reverse()
    } else {
        clusters
    }
}

/// What shaping keeps. The glyphs are as many as the items were, the
/// content is glyphs with one position each, and the clusters are those of
/// the items: in the same order in a run that runs forwards, in reverse
/// order in a run that runs backwards. So every cluster of the items is
/// the cluster of a glyph and the other way round, and clusters that did
/// not decrease from item to item do not decrease from glyph to glyph when
/// the glyphs are read in the order of the text.
pub proof fn lemma_shape_keeps_clusters(
    buffer: BufferModel,
    shaper: Shaper,
    font: &Font,
    features: Seq<Feature>,
)
    requires
        buffer.wf(),
    ensures
        shaped(buffer, shaper, font, features).wf(),
        shaped(buffer, shaper, font, features).content_type == BufferContentType::Glyphs,
        shaped(buffer, shaper, font, features).infos.len() == buffer.infos.len(),
        shaped(buffer, shaper, font, features).clusters() == (if is_backward(
            buffer.props.direction,
        ) {
            buffer.clusters().reverse()
        } else {
            buffer.clusters()
        }),
        shaped(buffer, shaper, font, features).clusters().to_set() == buffer.clusters().to_set(),
        in_text_order(
            shaped(buffer, shaper, font, features).clusters(),
            buffer.props.direction,
        ) == buffer.clusters(),
        non_decreasing(buffer.clusters()) ==> non_decreasing(
            in_text_order(
                shaped(buffer, shaper, font, features).clusters(),
                buffer.props.direction,
            ),
        ),
{
    let after = shaped(buffer, shaper, font, features);
    let c = buffer.clusters();
    assert(c.reverse().reverse() =~= c);
    if is_backward(buffer.props.direction) {
        assert(after.clusters() =~= c.reverse());
        assert(c.reverse().to_set() =~= c.to_set()) by {
            assert forall|x: u32| c.reverse().to_set().contains(x) == c.to_set().contains(x) by {
                if c.reverse().contains(x) {
                    let i = choose|i: int| 0 <= i < c.reverse().len() && c.reverse()[i] == x;
                    assert(c[c.len() - 1 - i] == x);
                }
                if c.contains(x) {
                    let i = choose|i: int| 0 <= i < c.len() && c[i] == x;
                    assert(c.reverse()[c.len() - 1 - i] == x);
                }
            }
        }
    } else {
        assert(after.clusters() =~= c);
    }
}

} // verus!
