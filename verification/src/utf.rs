//! Reading codepoints out of text in UTF-8, UTF-16, UTF-32 and Latin-1.
//!
//! Each reader turns the code units of a window of the text into items, one
//! for each character and one for each code unit that belongs to no
//! well-formed character. The cluster of an item is the place of its first
//! code unit in the text.

use crate::buffer::{is_scalar_value, unicode_item, GlyphInfo};
use vstd::prelude::*;
use vstd::utf8::{
    decode_first_scalar, encode_utf8, length_of_first_scalar, valid_first_scalar,
};

verus! {

/// The largest place in a text that a cluster can name.
pub open spec fn cluster_limit(len: int) -> int {
    if len < 0xFFFF_FFFF {
        len
    } else {
        0xFFFF_FFFF
    }
}

/// Where the window of a text of `len` code units starts: at `item_offset`,
/// or at the end of the text where `item_offset` lies after it.
pub open spec fn window_start(len: int, item_offset: u32) -> int {
    if item_offset <= cluster_limit(len) {
        item_offset as int
    } else {
        cluster_limit(len)
    }
}

/// Where the window ends. A length of -1 asks for the rest of the text, any
/// other negative length for nothing, and a window that would pass the end
/// of the text stops there.
pub open spec fn window_end(len: int, item_offset: u32, item_length: i32) -> int {
    let start = window_start(len, item_offset);
    if item_length == -1 {
        cluster_limit(len)
    } else if item_length < 0 {
        start
    } else if start + item_length <= cluster_limit(len) {
        start + item_length
    } else {
        cluster_limit(len)
    }
}

/// The window of a text of `len` code units that `item_offset` and
/// `item_length` ask for.
pub fn window(len: usize, item_offset: u32, item_length: i32) -> (w: (usize, usize))
    ensures
        w.0 == window_start(len as int, item_offset),
        w.1 == window_end(len as int, item_offset, item_length),
        w.0 <= w.1 <= len,
        w.1 <= 0xFFFF_FFFF,
{
    let limit: usize = if len < 0xFFFF_FFFF { len } else { 0xFFFF_FFFF };
    let start: usize = if item_offset as usize <= limit { item_offset as usize } else { limit };
    let end: usize = if item_length == -1 {
        limit
    } else if item_length < 0 {
        start
    } else if item_length as usize <= limit - start {
        start + item_length as usize
    } else {
        limit
    };
    (start, end)
}

/// How many bytes the first item of a UTF-8 text takes: those of its first
/// character where the text starts with a well-formed one, else one byte.
pub open spec fn utf8_first_len(bytes: Seq<u8>) -> int {
    if valid_first_scalar(bytes) {
        length_of_first_scalar(bytes)
    } else {
        1
    }
}

/// The codepoint of the first item of a UTF-8 text: its first character
/// where the text starts with a well-formed one, else the replacement.
pub open spec fn utf8_first_codepoint(bytes: Seq<u8>, replacement: u32) -> u32 {
    if valid_first_scalar(bytes) {
        decode_first_scalar(bytes)
    } else {
        replacement
    }
}

/// The items of a UTF-8 text whose first byte stands at place `base`.
pub open spec fn utf8_items(bytes: Seq<u8>, base: int, replacement: u32) -> Seq<GlyphInfo>
    decreases bytes.len(),
{
    let n = utf8_first_len(bytes);
    if bytes.len() == 0 || n <= 0 || n > bytes.len() {
        Seq::empty()
    } else {
        seq![unicode_item(utf8_first_codepoint(bytes, replacement), base as u32)] + utf8_items(
            bytes.subrange(n, bytes.len() as int),
            base + n,
            replacement,
        )
    }
}

/// The first item of a UTF-8 text takes between one and four bytes, and no
/// more than the text has.
pub proof fn lemma_utf8_first_len(bytes: Seq<u8>)
    requires
        bytes.len() > 0,
    ensures
        1 <= utf8_first_len(bytes) <= 4,
        utf8_first_len(bytes) <= bytes.len(),
{
}

/// Whether a UTF-16 text starts with a pair of surrogates, a high one and
/// then a low one.
pub open spec fn utf16_starts_with_pair(units: Seq<u16>) -> bool {
    units.len() >= 2 && 0xD800 <= units[0] <= 0xDBFF && 0xDC00 <= units[1] <= 0xDFFF
}

/// How many code units the first item of a UTF-16 text takes.
pub open spec fn utf16_first_len(units: Seq<u16>) -> int {
    if utf16_starts_with_pair(units) {
        2
    } else {
        1
    }
}

/// The codepoint of the first item of a UTF-16 text: the unit itself where
/// it is no surrogate, the character of a pair of surrogates, and the
/// replacement for a surrogate that is alone or out of order.
pub open spec fn utf16_first_codepoint(units: Seq<u16>, replacement: u32) -> u32 {
    if units[0] < 0xD800 || units[0] > 0xDFFF {
        units[0] as u32
    } else if utf16_starts_with_pair(units) {
        (0x1_0000 + (units[0] - 0xD800) * 0x400 + (units[1] - 0xDC00)) as u32
    } else {
        replacement
    }
}

/// The items of a UTF-16 text whose first code unit stands at place `base`.
pub open spec fn utf16_items(units: Seq<u16>, base: int, replacement: u32) -> Seq<GlyphInfo>
    decreases units.len(),
{
    if units.len() == 0 {
        Seq::empty()
    } else {
        let n = utf16_first_len(units);
        seq![unicode_item(utf16_first_codepoint(units, replacement), base as u32)] + utf16_items(
            units.subrange(n, units.len() as int),
            base + n,
            replacement,
        )
    }
}

/// The codepoint that a UTF-32 code unit stands for: itself where it is a
/// Unicode scalar value, else the replacement.
pub open spec fn utf32_codepoint(unit: u32, replacement: u32) -> u32 {
    if is_scalar_value(unit) {
        unit
    } else {
        replacement
    }
}

/// The items of a UTF-32 text whose first code unit stands at place `base`.
pub open spec fn utf32_items(units: Seq<u32>, base: int, replacement: u32) -> Seq<GlyphInfo> {
    Seq::new(
        units.len(),
        |k: int| unicode_item(utf32_codepoint(units[k], replacement), (base + k) as u32),
    )
}

/// The items of a Latin-1 text whose first byte stands at place `base`:
/// each byte is the codepoint of its own number.
pub open spec fn latin1_items(bytes: Seq<u8>, base: int) -> Seq<GlyphInfo> {
    Seq::new(bytes.len(), |k: int| unicode_item(bytes[k] as u32, (base + k) as u32))
}

/// The items of a sequence of characters, the first of which stands at
/// place `base`.
pub open spec fn char_items(chars: Seq<char>, base: int) -> Seq<GlyphInfo> {
    Seq::new(chars.len(), |k: int| unicode_item(chars[k] as u32, (base + k) as u32))
}

/// The codepoints of some items, in order.
pub open spec fn codepoints_of(items: Seq<GlyphInfo>) -> Seq<u32> {
    Seq::new(items.len(), |i: int| items[i].codepoint)
}

/// The numbers of some characters, in order.
pub open spec fn scalars_of(chars: Seq<char>) -> Seq<u32> {
    Seq::new(chars.len(), |i: int| chars[i] as u32)
}

/// The codepoints of items after one more item are its codepoint and then
/// theirs.
proof fn lemma_codepoints_of_prepended(item: GlyphInfo, tail: Seq<GlyphInfo>)
    ensures
        codepoints_of(seq![item] + tail) == seq![item.codepoint] + codepoints_of(tail),
{
    assert(codepoints_of(seq![item] + tail) =~= seq![item.codepoint] + codepoints_of(tail));
}

/// Well-formed UTF-8 gives one item for each character that it encodes,
/// with the character's number for its codepoint: nothing is replaced.
pub proof fn lemma_utf8_items_of_text(chars: Seq<char>, base: int, replacement: u32)
    ensures
        codepoints_of(utf8_items(encode_utf8(chars), base, replacement)) == scalars_of(chars),
    decreases chars.len(),
{
    let bytes = encode_utf8(chars);
    let items = utf8_items(bytes, base, replacement);
    if chars.len() == 0 {
        assert(codepoints_of(items) =~= scalars_of(chars));
    } else {
        vstd::utf8::encode_utf8_first_scalar(chars);
        let n = length_of_first_scalar(bytes);
        let rest = chars.drop_first();
        assert(bytes.subrange(n, bytes.len() as int) =~= encode_utf8(rest));
        lemma_utf8_items_of_text(rest, base + n, replacement);
        let tail = utf8_items(encode_utf8(rest), base + n, replacement);
        let head = seq![unicode_item(chars[0] as u32, base as u32)];
        assert(items == head + tail);
        lemma_codepoints_of_prepended(head[0], tail);
        assert(scalars_of(chars) =~= seq![chars[0] as u32] + scalars_of(rest));
    }
}

/// What holds of the items of any bytes read as UTF-8, well-formed or not.
/// There is at least one item for every four bytes and at most one for
/// each byte. The cluster of an item is the place of a byte of the text.
/// At that place stands what the item was read from: the item holds the
/// first character of the bytes from there on, or the replacement where
/// they start with none, which takes one byte. The next item's cluster is
/// the place after what the item was read from, so the clusters increase.
pub proof fn lemma_utf8_items_clusters(bytes: Seq<u8>, base: int, replacement: u32, i: int)
    requires
        0 <= base,
        base + bytes.len() <= 0x1_0000_0000,
        0 <= i < utf8_items(bytes, base, replacement).len(),
    ensures
        utf8_items(bytes, base, replacement).len() <= bytes.len(),
        bytes.len() <= 4 * utf8_items(bytes, base, replacement).len(),
        base + i <= utf8_items(bytes, base, replacement)[i].cluster < base + bytes.len(),
        utf8_items(bytes, base, replacement)[i].codepoint == utf8_first_codepoint(
            bytes.skip(utf8_items(bytes, base, replacement)[i].cluster - base),
            replacement,
        ),
        i + 1 < utf8_items(bytes, base, replacement).len() ==> utf8_items(
            bytes,
            base,
            replacement,
        )[i + 1].cluster == utf8_items(bytes, base, replacement)[i].cluster + utf8_first_len(
            bytes.skip(utf8_items(bytes, base, replacement)[i].cluster - base),
        ),
    decreases bytes.len(),
{
    let items = utf8_items(bytes, base, replacement);
    let n = utf8_first_len(bytes);
    lemma_utf8_first_len(bytes);
    let rest = bytes.subrange(n, bytes.len() as int);
    let tail = utf8_items(rest, base + n, replacement);
    assert(items == seq![unicode_item(utf8_first_codepoint(bytes, replacement), base as u32)]
        + tail);
    lemma_utf8_items_count(rest, base + n, replacement);
    if i == 0 {
        assert(bytes.skip(0) =~= bytes);
        if tail.len() > 0 {
            assert(items[1] == tail[0]);
            assert(rest.len() > 0);
            lemma_utf8_first_len(rest);
            let n2 = utf8_first_len(rest);
            assert(tail[0] == unicode_item(
                utf8_first_codepoint(rest, replacement),
                (base + n) as u32,
            ));
        }
    } else {
        lemma_utf8_items_clusters(rest, base + n, replacement, i - 1);
        assert(items[i] == tail[i - 1]);
        let p = tail[i - 1].cluster - (base + n);
        assert(rest.skip(p) =~= bytes.skip(p + n));
        if i + 1 < items.len() {
            assert(items[i + 1] == tail[i]);
        }
    }
}

/// Bytes read as UTF-8 give at least one item for every four bytes and at
/// most one for each byte.
pub proof fn lemma_utf8_items_count(bytes: Seq<u8>, base: int, replacement: u32)
    ensures
        utf8_items(bytes, base, replacement).len() <= bytes.len(),
        bytes.len() <= 4 * utf8_items(bytes, base, replacement).len(),
    decreases bytes.len(),
{
    if bytes.len() > 0 {
        let n = utf8_first_len(bytes);
        lemma_utf8_first_len(bytes);
        lemma_utf8_items_count(bytes.subrange(n, bytes.len() as int), base + n, replacement);
    }
}

/// The code units that encode one character in UTF-16.
pub open spec fn encode_utf16_scalar(scalar: u32) -> Seq<u16> {
    if scalar < 0x1_0000 {
        seq![scalar as u16]
    } else {
        seq![
            (0xD800 + (scalar - 0x1_0000) / 0x400) as u16,
            (0xDC00 + (scalar - 0x1_0000) % 0x400) as u16,
        ]
    }
}

/// The code units that encode some characters in UTF-16.
pub open spec fn encode_utf16(chars: Seq<char>) -> Seq<u16>
    decreases chars.len(),
{
    if chars.len() == 0 {
        Seq::empty()
    } else {
        encode_utf16_scalar(chars[0] as u32) + encode_utf16(chars.drop_first())
    }
}

/// Well-formed UTF-16 gives one item for each character that it encodes,
/// with the character's number for its codepoint: nothing is replaced.
pub proof fn lemma_utf16_items_of_text(chars: Seq<char>, base: int, replacement: u32)
    ensures
        codepoints_of(utf16_items(encode_utf16(chars), base, replacement)) == scalars_of(chars),
    decreases chars.len(),
{
    let units = encode_utf16(chars);
    let items = utf16_items(units, base, replacement);
    if chars.len() == 0 {
        assert(codepoints_of(items) =~= scalars_of(chars));
    } else {
        let c = chars[0] as u32;
        let first = encode_utf16_scalar(c);
        let rest = chars.drop_first();
        let n = first.len() as int;
        assert(units == first + encode_utf16(rest));
        assert(units[0] == first[0]);
        vstd::utf8::char_is_scalar(chars[0]);
        assert(c < 0xD800 || (0xDFFF < c && c <= 0x10_FFFF));
        if c >= 0x1_0000 {
            assert(units[1] == first[1]);
            let d = (c - 0x1_0000) as int;
            assert(0 <= d / 0x400 < 0x400 && 0 <= d % 0x400 < 0x400 && d == (d / 0x400) * 0x400
                + d % 0x400);
            assert(first[0] == 0xD800 + d / 0x400);
            assert(first[1] == 0xDC00 + d % 0x400);
        } else {
            assert(first[0] == c);
        }
        assert(n == utf16_first_len(units));
        assert(utf16_first_codepoint(units, replacement) == c);
        assert(units.subrange(n, units.len() as int) =~= encode_utf16(rest));
        lemma_utf16_items_of_text(rest, base + n, replacement);
        let tail = utf16_items(encode_utf16(rest), base + n, replacement);
        let head = seq![unicode_item(c, base as u32)];
        assert(items == head + tail);
        lemma_codepoints_of_prepended(head[0], tail);
        assert(scalars_of(chars) =~= seq![c] + scalars_of(rest));
    }
}

/// Code units read as UTF-16 give at least one item for every two units
/// and at most one for each unit.
pub proof fn lemma_utf16_items_count(units: Seq<u16>, base: int, replacement: u32)
    ensures
        utf16_items(units, base, replacement).len() <= units.len(),
        units.len() <= 2 * utf16_items(units, base, replacement).len(),
    decreases units.len(),
{
    if units.len() > 0 {
        let n = utf16_first_len(units);
        lemma_utf16_items_count(units.subrange(n, units.len() as int), base + n, replacement);
    }
}

/// What holds of the items of any code units read as UTF-16, well-formed
/// or not. The cluster of an item is the place of a code unit of the text.
/// At that place stands what the item was read from: a unit that is no
/// surrogate, a pair of surrogates, or a surrogate alone, for which the
/// replacement stands. The next item's cluster is the place after what the
/// item was read from, so the clusters increase.
pub proof fn lemma_utf16_items_clusters(units: Seq<u16>, base: int, replacement: u32, i: int)
    requires
        0 <= base,
        base + units.len() <= 0x1_0000_0000,
        0 <= i < utf16_items(units, base, replacement).len(),
    ensures
        base + i <= utf16_items(units, base, replacement)[i].cluster < base + units.len(),
        utf16_items(units, base, replacement)[i].codepoint == utf16_first_codepoint(
            units.skip(utf16_items(units, base, replacement)[i].cluster - base),
            replacement,
        ),
        i + 1 < utf16_items(units, base, replacement).len() ==> utf16_items(
            units,
            base,
            replacement,
        )[i + 1].cluster == utf16_items(units, base, replacement)[i].cluster + utf16_first_len(
            units.skip(utf16_items(units, base, replacement)[i].cluster - base),
        ),
    decreases units.len(),
{
    let items = utf16_items(units, base, replacement);
    let n = utf16_first_len(units);
    let rest = units.subrange(n, units.len() as int);
    let tail = utf16_items(rest, base + n, replacement);
    assert(items == seq![unicode_item(utf16_first_codepoint(units, replacement), base as u32)]
        + tail);
    lemma_utf16_items_count(rest, base + n, replacement);
    if i == 0 {
        assert(units.skip(0) =~= units);
        if tail.len() > 0 {
            assert(items[1] == tail[0]);
            assert(rest.len() > 0);
            assert(tail[0] == unicode_item(
                utf16_first_codepoint(rest, replacement),
                (base + n) as u32,
            ));
        }
    } else {
        lemma_utf16_items_clusters(rest, base + n, replacement, i - 1);
        assert(items[i] == tail[i - 1]);
        let p = tail[i - 1].cluster - (base + n);
        assert(rest.skip(p) =~= units.skip(p + n));
        if i + 1 < items.len() {
            assert(items[i + 1] == tail[i]);
        }
    }
}

/// Code units read as UTF-32 give one item each, in order and with the
/// place of the unit for its cluster. A unit that is a Unicode scalar value
/// is the codepoint of its item, and the replacement stands for any other.
pub proof fn lemma_utf32_items(units: Seq<u32>, base: int, replacement: u32, i: int)
    requires
        0 <= base,
        base + units.len() <= 0x1_0000_0000,
        0 <= i < units.len(),
    ensures
        utf32_items(units, base, replacement).len() == units.len(),
        utf32_items(units, base, replacement)[i].cluster == base + i,
        is_scalar_value(units[i]) ==> utf32_items(units, base, replacement)[i].codepoint
            == units[i],
        !is_scalar_value(units[i]) ==> utf32_items(units, base, replacement)[i].codepoint
            == replacement,
{
}

/// Bytes read as Latin-1 give one item each, in order, with the byte's
/// number for its codepoint and the place of the byte for its cluster.
pub proof fn lemma_latin1_items(bytes: Seq<u8>, base: int, i: int)
    requires
        0 <= base,
        base + bytes.len() <= 0x1_0000_0000,
        0 <= i < bytes.len(),
    ensures
        latin1_items(bytes, base).len() == bytes.len(),
        latin1_items(bytes, base)[i].cluster == base + i,
        latin1_items(bytes, base)[i].codepoint == bytes[i],
{
}

/// The clusters of the items of bytes read as UTF-8 increase from each
/// item to every later one.
pub proof fn lemma_utf8_clusters_increase(
    bytes: Seq<u8>,
    base: int,
    replacement: u32,
    i: int,
    j: int,
)
    requires
        0 <= base,
        base + bytes.len() <= 0x1_0000_0000,
        0 <= i < j < utf8_items(bytes, base, replacement).len(),
    ensures
        utf8_items(bytes, base, replacement)[i].cluster < utf8_items(
            bytes,
            base,
            replacement,
        )[j].cluster,
    decreases j - i,
{
    let items = utf8_items(bytes, base, replacement);
    lemma_utf8_items_clusters(bytes, base, replacement, j - 1);
    lemma_utf8_items_clusters(bytes, base, replacement, j);
    let p = items[j - 1].cluster - base;
    lemma_utf8_first_len(bytes.skip(p));
    if i < j - 1 {
        lemma_utf8_clusters_increase(bytes, base, replacement, i, j - 1);
    }
}

/// The clusters of the items of code units read as UTF-16 increase from
/// each item to every later one.
pub proof fn lemma_utf16_clusters_increase(
    units: Seq<u16>,
    base: int,
    replacement: u32,
    i: int,
    j: int,
)
    requires
        0 <= base,
        base + units.len() <= 0x1_0000_0000,
        0 <= i < j < utf16_items(units, base, replacement).len(),
    ensures
        utf16_items(units, base, replacement)[i].cluster < utf16_items(
            units,
            base,
            replacement,
        )[j].cluster,
    decreases j - i,
{
    lemma_utf16_items_clusters(units, base, replacement, j - 1);
    lemma_utf16_items_clusters(units, base, replacement, j);
    if i < j - 1 {
        lemma_utf16_clusters_increase(units, base, replacement, i, j - 1);
    }
}

/// Reads the bytes from `start` up to `end` as UTF-8.
pub fn decode_utf8_window(bytes: &[u8], start: usize, end: usize, replacement: u32) -> (items: Vec<
    GlyphInfo,
>)
    requires
        start <= end <= bytes@.len(),
        end <= 0xFFFF_FFFF,
    ensures
        items@ == utf8_items(bytes@.subrange(start as int, end as int), start as int, replacement),
{
    let mut items: Vec<GlyphInfo> = Vec::new();
    let mut i: usize = start;
    let ghost whole = utf8_items(bytes@.subrange(start as int, end as int), start as int, replacement);
    while i < end
        invariant
            start <= i <= end <= bytes@.len(),
            end <= 0xFFFF_FFFF,
            whole == utf8_items(
                bytes@.subrange(start as int, end as int),
                start as int,
                replacement,
            ),
            items@ + utf8_items(bytes@.subrange(i as int, end as int), i as int, replacement)
                == whole,
        decreases end - i,
    {
        let ghost rest = bytes@.subrange(i as int, end as int);
        let b0: u8 = bytes[i];
        let left: usize = end - i;
        let mut codepoint: u32 = replacement;
        let mut n: usize = 1;
        if b0 <= 0x7F {
            codepoint = (b0 & 0x7F) as u32;
            assert((b0 & 0x7F) as u32 <= 0x7F) by (bit_vector);
        } else if 0xC0 <= b0 && b0 <= 0xDF {
            if left >= 2 && 0x80 <= bytes[i + 1] && bytes[i + 1] <= 0xBF {
                let b1: u8 = bytes[i + 1];
                let c: u32 = ((b0 & 0x1F) as u32) << 6 | ((b1 & 0x3F) as u32);
                assert((((b0 & 0x1F) as u32) << 6 | ((b1 & 0x3F) as u32)) <= 0x7FF)
                    by (bit_vector);
                if c >= 0x80 {
                    codepoint = c;
                    n = 2;
                }
            }
        } else if 0xE0 <= b0 && b0 <= 0xEF {
            if left >= 3 && 0x80 <= bytes[i + 1] && bytes[i + 1] <= 0xBF && 0x80 <= bytes[i + 2]
                && bytes[i + 2] <= 0xBF {
                let b1: u8 = bytes[i + 1];
                let b2: u8 = bytes[i + 2];
                let c: u32 = ((b0 & 0x0F) as u32) << 12 | ((b1 & 0x3F) as u32) << 6 | ((b2
                    & 0x3F) as u32);
                if c >= 0x800 && !(0xD800 <= c && c <= 0xDFFF) {
                    codepoint = c;
                    n = 3;
                }
            }
        } else if 0xF0 <= b0 && b0 <= 0xF7 {
            if left >= 4 && 0x80 <= bytes[i + 1] && bytes[i + 1] <= 0xBF && 0x80 <= bytes[i + 2]
                && bytes[i + 2] <= 0xBF && 0x80 <= bytes[i + 3] && bytes[i + 3] <= 0xBF {
                let b1: u8 = bytes[i + 1];
                let b2: u8 = bytes[i + 2];
                let b3: u8 = bytes[i + 3];
                let c: u32 = ((b0 & 0x07) as u32) << 18 | ((b1 & 0x3F) as u32) << 12 | ((b2
                    & 0x3F) as u32) << 6 | ((b3 & 0x3F) as u32);
                if 0x1_0000 <= c && c <= 0x10_FFFF {
                    codepoint = c;
                    n = 4;
                }
            }
        }
        proof {
            assert(rest.len() == left);
            assert(rest[0] == b0);
            assert(left >= 2 ==> rest[1] == bytes@[i + 1]);
            assert(left >= 3 ==> rest[2] == bytes@[i + 2]);
            assert(left >= 4 ==> rest[3] == bytes@[i + 3]);
            assert(n == utf8_first_len(rest));
            assert(codepoint == utf8_first_codepoint(rest, replacement));
            assert(rest.subrange(n as int, rest.len() as int) =~= bytes@.subrange(
                i + n,
                end as int,
            ));
            let item = unicode_item(codepoint, i as u32);
            let tail = utf8_items(bytes@.subrange(i + n, end as int), i + n, replacement);
            assert(utf8_items(rest, i as int, replacement) == seq![item] + tail);
            assert(items@.push(item) + tail =~= items@ + (seq![item] + tail));
        }
        items.push(GlyphInfo { codepoint, mask: 0, cluster: i as u32 });
        i = i + n;
    }
    assert(items@ =~= whole);
    items
}

/// Reads the code units from `start` up to `end` as UTF-16.
pub fn decode_utf16_window(units: &[u16], start: usize, end: usize, replacement: u32) -> (items:
    Vec<GlyphInfo>)
    requires
        start <= end <= units@.len(),
        end <= 0xFFFF_FFFF,
    ensures
        items@ == utf16_items(
            units@.subrange(start as int, end as int),
            start as int,
            replacement,
        ),
{
    let mut items: Vec<GlyphInfo> = Vec::new();
    let mut i: usize = start;
    let ghost whole = utf16_items(
        units@.subrange(start as int, end as int),
        start as int,
        replacement,
    );
    while i < end
        invariant
            start <= i <= end <= units@.len(),
            end <= 0xFFFF_FFFF,
            items@ + utf16_items(units@.subrange(i as int, end as int), i as int, replacement)
                == whole,
        decreases end - i,
    {
        let ghost rest = units@.subrange(i as int, end as int);
        let c: u16 = units[i];
        let mut codepoint: u32 = replacement;
        let mut n: usize = 1;
        if c < 0xD800 || c > 0xDFFF {
            codepoint = c as u32;
        } else if c <= 0xDBFF && end - i >= 2 {
            let l: u16 = units[i + 1];
            if 0xDC00 <= l && l <= 0xDFFF {
                codepoint = 0x1_0000 + ((c - 0xD800) as u32) * 0x400 + ((l - 0xDC00) as u32);
                n = 2;
            }
        }
        proof {
            assert(rest[0] == c);
            assert(end - i >= 2 ==> rest[1] == units@[i + 1]);
            assert(n == utf16_first_len(rest));
            assert(codepoint == utf16_first_codepoint(rest, replacement));
            assert(rest.subrange(n as int, rest.len() as int) =~= units@.subrange(
                i + n,
                end as int,
            ));
            let item = unicode_item(codepoint, i as u32);
            let tail = utf16_items(units@.subrange(i + n, end as int), i + n, replacement);
            assert(utf16_items(rest, i as int, replacement) == seq![item] + tail);
            assert(items@.push(item) + tail =~= items@ + (seq![item] + tail));
        }
        items.push(GlyphInfo { codepoint, mask: 0, cluster: i as u32 });
        i = i + n;
    }
    assert(items@ =~= whole);
    items
}

/// Reads the code units from `start` up to `end` as UTF-32.
pub fn decode_utf32_window(units: &[u32], start: usize, end: usize, replacement: u32) -> (items:
    Vec<GlyphInfo>)
    requires
        start <= end <= units@.len(),
        end <= 0xFFFF_FFFF,
    ensures
        items@ == utf32_items(
            units@.subrange(start as int, end as int),
            start as int,
            replacement,
        ),
{
    let mut items: Vec<GlyphInfo> = Vec::new();
    let mut i: usize = start;
    while i < end
        invariant
            start <= i <= end <= units@.len(),
            end <= 0xFFFF_FFFF,
            items@ == utf32_items(
                units@.subrange(start as int, i as int),
                start as int,
                replacement,
            ),
        decreases end - i,
    {
        let u: u32 = units[i];
        let codepoint: u32 = if u < 0xD800 || (0xDFFF < u && u <= 0x10_FFFF) {
            u
        } else {
            replacement
        };
        items.push(GlyphInfo { codepoint, mask: 0, cluster: i as u32 });
        i = i + 1;
        assert(items@ =~= utf32_items(
            units@.subrange(start as int, i as int),
            start as int,
            replacement,
        ));
    }
    items
}

/// Reads the bytes from `start` up to `end` as Latin-1.
pub fn decode_latin1_window(bytes: &[u8], start: usize, end: usize) -> (items: Vec<GlyphInfo>)
    requires
        start <= end <= bytes@.len(),
        end <= 0xFFFF_FFFF,
    ensures
        items@ == latin1_items(bytes@.subrange(start as int, end as int), start as int),
{
    let mut items: Vec<GlyphInfo> = Vec::new();
    let mut i: usize = start;
    while i < end
        invariant
            start <= i <= end <= bytes@.len(),
            end <= 0xFFFF_FFFF,
            items@ == latin1_items(bytes@.subrange(start as int, i as int), start as int),
        decreases end - i,
    {
        items.push(GlyphInfo { codepoint: bytes[i] as u32, mask: 0, cluster: i as u32 });
        i = i + 1;
        assert(items@ =~= latin1_items(bytes@.subrange(start as int, i as int), start as int));
    }
    items
}

/// Takes the characters from `start` up to `end` as they are.
pub fn decode_chars_window(chars: &[char], start: usize, end: usize) -> (items: Vec<GlyphInfo>)
    requires
        start <= end <= chars@.len(),
        end <= 0xFFFF_FFFF,
    ensures
        items@ == char_items(chars@.subrange(start as int, end as int), start as int),
{
    let mut items: Vec<GlyphInfo> = Vec::new();
    let mut i: usize = start;
    while i < end
        invariant
            start <= i <= end <= chars@.len(),
            end <= 0xFFFF_FFFF,
            items@ == char_items(chars@.subrange(start as int, i as int), start as int),
        decreases end - i,
    {
        items.push(GlyphInfo { codepoint: chars[i] as u32, mask: 0, cluster: i as u32 });
        i = i + 1;
        assert(items@ =~= char_items(chars@.subrange(start as int, i as int), start as int));
    }
    items
}

} // verus!
