//! Glyphs as text: writing the glyphs of a buffer in the text format and
//! in the JSON format, and reading the text format back.

use crate::buffer::{
    Buffer, BufferContentType, BufferModel, GlyphInfo, GlyphPosition, BUFFER_MAX_LEN,
};
use crate::common::{pack_bytes, padded_byte};
use crate::font::{gid_text, gid_value, parse_gid, Font, GlyphExtents};
use crate::text::{
    all_ascii, ascii_chars, class_run_end, count_leading, decimal_digits, decimal_value,
    digit_run_end, has_digit, in_class, lemma_ascii_is_utf8, lemma_class_run_end,
    is_digit, lemma_class_run_of_prefix, lemma_decimal_digits, lemma_digit_run_end,
    lemma_digit_run_of_digits, lemma_signed_digits_read_back, read_i32, read_u32,
    signed_decimal_digits, signed_decimal_value, signed_run_end, write_i32, write_u32, ByteClass,
};
use vstd::slice::slice_subrange;
use vstd::prelude::*;
use vstd::string::StringExecFns;
use vstd::string::StringSliceAdditionalSpecFns;

verus! {

/// Nothing is left out.
pub const BUFFER_SERIALIZE_FLAG_DEFAULT: u32 = 0x0000_0000;

/// The clusters are left out.
pub const BUFFER_SERIALIZE_FLAG_NO_CLUSTERS: u32 = 0x0000_0001;

/// The positions are left out.
pub const BUFFER_SERIALIZE_FLAG_NO_POSITIONS: u32 = 0x0000_0002;

/// Glyphs are written by their numbers, not by their names.
pub const BUFFER_SERIALIZE_FLAG_NO_GLYPH_NAMES: u32 = 0x0000_0004;

/// The extents of the glyphs are written too.
pub const BUFFER_SERIALIZE_FLAG_GLYPH_EXTENTS: u32 = 0x0000_0008;

/// A set of flags for writing glyphs, one bit each.
#[derive(Clone, Copy, Debug, PartialEq, Eq, Hash, Structural)]
pub struct BufferSerializeFlags {
    pub bits: u32,
}

impl BufferSerializeFlags {
    /// Whether the clusters are left out.
    pub open spec fn no_clusters(self) -> bool {
        self.bits & BUFFER_SERIALIZE_FLAG_NO_CLUSTERS != 0
    }

    /// Whether the positions are left out.
    pub open spec fn no_positions(self) -> bool {
        self.bits & BUFFER_SERIALIZE_FLAG_NO_POSITIONS != 0
    }

    /// Whether glyphs are written by their numbers.
    pub open spec fn no_glyph_names(self) -> bool {
        self.bits & BUFFER_SERIALIZE_FLAG_NO_GLYPH_NAMES != 0
    }

    /// Whether the extents are written.
    pub open spec fn glyph_extents(self) -> bool {
        self.bits & BUFFER_SERIALIZE_FLAG_GLYPH_EXTENTS != 0
    }

    /// The flags whose bits are set in `bits`; bits that are no flag are
    /// dropped.
    pub fn from_bits_truncate(bits: u32) -> (flags: BufferSerializeFlags)
        ensures
            flags.bits == bits & 0x0000_000F,
    {
        BufferSerializeFlags { bits: bits & 0x0000_000F }
    }

    /// No flag: nothing is left out.
    pub fn empty() -> (flags: BufferSerializeFlags)
        ensures
            flags.bits == 0,
    {
        BufferSerializeFlags { bits: 0 }
    }

    /// The bits of the flags.
    pub fn bits(self) -> (bits: u32)
        ensures
            bits == self.bits,
    {
        self.bits
    }

    /// Whether every flag of `other` is set in these.
    pub fn contains(self, other: BufferSerializeFlags) -> (all: bool)
        ensures
            all == (self.bits & other.bits == other.bits),
    {
        self.bits & other.bits == other.bits
    }

    /// The flags of both sets.
    pub fn union(self, other: BufferSerializeFlags) -> (both: BufferSerializeFlags)
        ensures
            both.bits == self.bits | other.bits,
    {
        BufferSerializeFlags { bits: self.bits | other.bits }
    }
}

/// A format in which glyphs are written.
#[derive(Clone, Copy, Debug, PartialEq, Eq, Hash, Structural)]
pub enum BufferSerializeFormat {
    /// One token for each glyph.
    Text,
    /// One JSON object for each glyph.
    Json,
    /// No format.
    Invalid,
}

/// The format that a text names: `text` or `json`, of which the first four
/// bytes count, in any case of the letters; any other text names none.
pub open spec fn format_named(name: Seq<u8>) -> BufferSerializeFormat {
    let tag = pack_bytes(
        padded_byte(name, 0),
        padded_byte(name, 1),
        padded_byte(name, 2),
        padded_byte(name, 3),
    ) & !0x2020_2020u32;
    if tag == 0x5445_5854 {
        BufferSerializeFormat::Text
    } else if tag == 0x4A53_4F4E {
        BufferSerializeFormat::Json
    } else {
        BufferSerializeFormat::Invalid
    }
}

impl BufferSerializeFormat {
    /// The name of the format, and no text for no format.
    pub open spec fn name(self) -> Seq<char> {
        match self {
            BufferSerializeFormat::Text => "text"@,
            BufferSerializeFormat::Json => "json"@,
            BufferSerializeFormat::Invalid => ""@,
        }
    }

    /// The format that `text` names.
    pub fn from_str(text: &str) -> (format: BufferSerializeFormat)
        ensures
            format == format_named(text.spec_bytes()),
    {
        let tag = crate::common::Tag::from_str(text);
        let upper: u32 = tag.value & !0x2020_2020u32;
        if upper == 0x5445_5854 {
            BufferSerializeFormat::Text
        } else if upper == 0x4A53_4F4E {
            BufferSerializeFormat::Json
        } else {
            BufferSerializeFormat::Invalid
        }
    }

    /// The name of the format.
    pub fn to_string(&self) -> (name: String)
        ensures
            name@ == self.name(),
    {
        match self {
            BufferSerializeFormat::Text => String::from_str("text"),
            BufferSerializeFormat::Json => String::from_str("json"),
            BufferSerializeFormat::Invalid => String::from_str(""),
        }
    }

    /// The names of the formats.
    pub fn list_formats() -> (names: Vec<&'static str>)
        ensures
            names@.len() == 2,
            names@[0]@ == BufferSerializeFormat::Text.name(),
            names@[1]@ == BufferSerializeFormat::Json.name(),
    {
        let mut names: Vec<&'static str> = Vec::new();
        names.push("text");
        names.push("json");
        names
    }
}

/// What is written of one glyph.
pub ghost struct WrittenGlyph {
    /// The name of the glyph, or the digits of its number.
    pub name: Seq<u8>,
    /// Whether `name` is a name and not a number.
    pub named: bool,
    /// The cluster, unless it is left out.
    pub cluster: Option<u32>,
    /// The position, unless it is left out.
    pub position: Option<GlyphPosition>,
    /// The extents, where they are asked for.
    pub extents: Option<GlyphExtents>,
}

/// The name under which a glyph is written: the name that the font gives
/// it, and `gid` with its number where there is no font.
pub open spec fn written_name(font: Option<&Font>, glyph: u32) -> Seq<u8> {
    match font {
        Some(font) => font.glyph_text(glyph),
        None => gid_text(glyph),
    }
}

/// The extents that are written of a glyph: those that the font gives it,
/// and extents of 0 where it gives none.
pub open spec fn written_extents(font: Option<&Font>, glyph: u32) -> GlyphExtents {
    let found = match font {
        Some(font) => font.extents(glyph),
        None => None,
    };
    match found {
        Some(extents) => extents,
        None => GlyphExtents { x_bearing: 0, y_bearing: 0, width: 0, height: 0 },
    }
}

/// What is written of item `i` of a buffer under the flags. A buffer that
/// does not hold glyphs has no positions to write.
pub open spec fn written_glyph(
    buffer: BufferModel,
    font: Option<&Font>,
    flags: BufferSerializeFlags,
    i: int,
) -> WrittenGlyph {
    let info = buffer.infos[i];
    WrittenGlyph {
        name: if flags.no_glyph_names() {
            decimal_digits(info.codepoint as nat)
        } else {
            written_name(font, info.codepoint)
        },
        named: !flags.no_glyph_names(),
        cluster: if flags.no_clusters() {
            None
        } else {
            Some(info.cluster)
        },
        position: if flags.no_positions() || buffer.content_type != BufferContentType::Glyphs {
            None
        } else {
            Some(buffer.positions[i])
        },
        extents: if flags.glyph_extents() {
            Some(written_extents(font, info.codepoint))
        } else {
            None
        },
    }
}

/// The offsets of a glyph in the text format: two numbers with a comma
/// between them after `@`, and nothing where both are 0.
pub open spec fn text_of_offsets(p: GlyphPosition) -> Seq<u8> {
    if p.x_offset != 0 || p.y_offset != 0 {
        seq![0x40u8] + signed_decimal_digits(p.x_offset as int) + seq![0x2Cu8]
            + signed_decimal_digits(p.y_offset as int)
    } else {
        Seq::empty()
    }
}

/// The advances of a glyph in the text format: the advance along x after
/// `+`, then the advance along y after a comma where it is not 0.
pub open spec fn text_of_advances(p: GlyphPosition) -> Seq<u8> {
    seq![0x2Bu8] + signed_decimal_digits(p.x_advance as int) + (if p.y_advance != 0 {
        seq![0x2Cu8] + signed_decimal_digits(p.y_advance as int)
    } else {
        Seq::empty()
    })
}

/// The position of a glyph in the text format: its offsets, as far as
/// they are written, and its advances.
pub open spec fn text_of_position(p: GlyphPosition) -> Seq<u8> {
    text_of_offsets(p) + text_of_advances(p)
}

/// The extents of a glyph in the text format: four numbers between `<` and
/// `>`.
pub open spec fn text_of_extents(e: GlyphExtents) -> Seq<u8> {
    seq![0x3Cu8] + signed_decimal_digits(e.x_bearing as int) + seq![0x2Cu8]
        + signed_decimal_digits(e.y_bearing as int) + seq![0x2Cu8] + signed_decimal_digits(
        e.width as int,
    ) + seq![0x2Cu8] + signed_decimal_digits(e.height as int) + seq![0x3Eu8]
}

/// A glyph in the text format: its name, its cluster after `=`, its
/// position and its extents, each as far as it is written.
pub open spec fn text_of_glyph(g: WrittenGlyph) -> Seq<u8> {
    g.name + (match g.cluster {
        Some(cluster) => seq![0x3Du8] + decimal_digits(cluster as nat),
        None => Seq::empty(),
    }) + (match g.position {
        Some(position) => text_of_position(position),
        None => Seq::empty(),
    }) + (match g.extents {
        Some(extents) => text_of_extents(extents),
        None => Seq::empty(),
    })
}

/// A name between double quotes, with a backslash before each double quote
/// and each backslash in it.
pub open spec fn json_string(name: Seq<u8>) -> Seq<u8> {
    seq![0x22u8] + json_escaped(name) + seq![0x22u8]
}

/// A name with a backslash before each double quote and each backslash.
pub open spec fn json_escaped(name: Seq<u8>) -> Seq<u8>
    decreases name.len(),
{
    if name.len() == 0 {
        Seq::empty()
    } else if name.last() == 0x22 || name.last() == 0x5C {
        json_escaped(name.drop_last()) + seq![0x5Cu8, name.last()]
    } else {
        json_escaped(name.drop_last()).push(name.last())
    }
}

/// The start of a glyph in the JSON format: the key `g` with the name
/// between double quotes, or with the number.
pub open spec fn json_name_part(g: WrittenGlyph) -> Seq<u8> {
    seq![0x7Bu8, 0x22u8, 0x67u8, 0x22u8, 0x3Au8] + (if g.named {
        json_string(g.name)
    } else {
        g.name
    })
}

/// The cluster of a glyph in the JSON format: the key `cl`.
pub open spec fn json_cluster_part(g: WrittenGlyph) -> Seq<u8> {
    match g.cluster {
        Some(cluster) => seq![0x2Cu8, 0x22u8, 0x63u8, 0x6Cu8, 0x22u8, 0x3Au8] + decimal_digits(
            cluster as nat,
        ),
        None => Seq::empty(),
    }
}

/// The position of a glyph in the JSON format, as far as it is written.
pub open spec fn json_position_part(g: WrittenGlyph) -> Seq<u8> {
    match g.position {
        Some(p) => json_of_position(p),
        None => Seq::empty(),
    }
}

/// The extents of a glyph in the JSON format, as far as they are written.
pub open spec fn json_extents_part(g: WrittenGlyph) -> Seq<u8> {
    match g.extents {
        Some(e) => json_of_extents(e),
        None => Seq::empty(),
    }
}

/// A glyph in the JSON format: an object with the key `g` for the name or
/// the number, `cl` for the cluster, `dx` and `dy` for the offsets, `ax`
/// and `ay` for the advances, and `xb`, `yb`, `w` and `h` for the extents,
/// each as far as it is written.
pub open spec fn json_of_glyph(g: WrittenGlyph) -> Seq<u8> {
    json_name_part(g) + json_cluster_part(g) + json_position_part(g) + json_extents_part(g)
        + seq![0x7Du8]
}

/// What is written for item `i` of a buffer. In the text format a space
/// stands before every glyph but the first of the buffer. In the JSON
/// format `[` stands before the first glyph of the buffer, a comma before
/// every other, and `]` after the last. No format writes nothing.
pub open spec fn item_text(
    buffer: BufferModel,
    font: Option<&Font>,
    format: BufferSerializeFormat,
    flags: BufferSerializeFlags,
    i: int,
) -> Seq<u8> {
    let g = written_glyph(buffer, font, flags, i);
    match format {
        BufferSerializeFormat::Text => (if i > 0 {
            seq![0x20u8]
        } else {
            Seq::empty()
        }) + text_of_glyph(g),
        BufferSerializeFormat::Json => (if i > 0 {
            seq![0x2Cu8]
        } else {
            seq![0x5Bu8]
        }) + json_of_glyph(g) + (if i + 1 == buffer.infos.len() {
            seq![0x5Du8]
        } else {
            Seq::empty()
        }),
        BufferSerializeFormat::Invalid => Seq::empty(),
    }
}

/// Where the range of items to write ends: at `end`, or after the last
/// item where `end` lies after it.
pub open spec fn range_end(len: int, end: u32) -> int {
    if end < len {
        end as int
    } else {
        len
    }
}

/// Where the range of items to write starts: at `start`, or at the end of
/// the range where `start` lies after it.
pub open spec fn range_start(len: int, start: u32, end: u32) -> int {
    if start < range_end(len, end) {
        start as int
    } else {
        range_end(len, end)
    }
}

/// What is written for each item from `start` up to `end`.
pub open spec fn item_texts(
    buffer: BufferModel,
    font: Option<&Font>,
    format: BufferSerializeFormat,
    flags: BufferSerializeFlags,
    start: u32,
    end: u32,
) -> Seq<Seq<u8>> {
    let first = range_start(buffer.infos.len() as int, start, end);
    let last = range_end(buffer.infos.len() as int, end);
    Seq::new((last - first) as nat, |j: int| item_text(buffer, font, format, flags, first + j))
}

/// Texts written one after the other.
pub open spec fn joined(texts: Seq<Seq<u8>>) -> Seq<u8>
    decreases texts.len(),
{
    if texts.len() == 0 {
        Seq::empty()
    } else {
        joined(texts.drop_last()) + texts.last()
    }
}

/// How many of the texts go into `room` bytes, taken in order: a text goes
/// in where it is shorter than the room that is left, so that one byte of
/// room always stays free.
pub open spec fn fitting_count(texts: Seq<Seq<u8>>, room: int) -> nat
    decreases texts.len(),
{
    if texts.len() == 0 || room <= texts[0].len() {
        0
    } else {
        1 + fitting_count(texts.drop_first(), room - texts[0].len())
    }
}

/// Writes a position in the text format.
fn write_text_position(out: &mut Vec<u8>, p: &GlyphPosition)
    ensures
        final(out)@ == old(out)@ + text_of_position(*p),
        all_ascii(old(out)@) ==> all_ascii(final(out)@),
{
    if p.x_offset != 0 || p.y_offset != 0 {
        out.push(0x40);
        write_i32(out, p.x_offset);
        out.push(0x2C);
        write_i32(out, p.y_offset);
    }
    let ghost middle = out@;
    assert(middle =~= old(out)@ + text_of_offsets(*p));
    out.push(0x2B);
    write_i32(out, p.x_advance);
    if p.y_advance != 0 {
        out.push(0x2C);
        write_i32(out, p.y_advance);
    }
    assert(out@ =~= middle + text_of_advances(*p));
    assert(out@ =~= old(out)@ + text_of_position(*p));
}

/// Writes extents in the text format.
fn write_text_extents(out: &mut Vec<u8>, e: &GlyphExtents)
    ensures
        final(out)@ == old(out)@ + text_of_extents(*e),
        all_ascii(old(out)@) ==> all_ascii(final(out)@),
{
    out.push(0x3C);
    write_i32(out, e.x_bearing);
    out.push(0x2C);
    write_i32(out, e.y_bearing);
    out.push(0x2C);
    write_i32(out, e.width);
    out.push(0x2C);
    write_i32(out, e.height);
    out.push(0x3E);
    assert(out@ =~= old(out)@ + text_of_extents(*e));
}

/// Writes a name between double quotes.
fn write_json_string(out: &mut Vec<u8>, name: &Vec<u8>)
    ensures
        final(out)@ == old(out)@ + json_string(name@),
        all_ascii(old(out)@) && all_ascii(name@) ==> all_ascii(final(out)@),
{
    out.push(0x22);
    let mut i: usize = 0;
    while i < name.len()
        invariant
            i <= name@.len(),
            out@ == old(out)@ + seq![0x22u8] + json_escaped(name@.subrange(0, i as int)),
            all_ascii(old(out)@) && all_ascii(name@) ==> all_ascii(out@),
        decreases name@.len() - i,
    {
        let ghost next = name@.subrange(0, i + 1);
        assert(next.drop_last() =~= name@.subrange(0, i as int));
        assert(next.last() == name@[i as int]);
        let b: u8 = name[i];
        if b == 0x22 || b == 0x5C {
            out.push(0x5C);
        }
        out.push(b);
        i = i + 1;
        assert(out@ =~= old(out)@ + seq![0x22u8] + json_escaped(name@.subrange(0, i as int)));
    }
    assert(name@.subrange(0, i as int) =~= name@);
    out.push(0x22);
    assert(out@ =~= old(out)@ + json_string(name@));
}

/// Writes a key of the JSON format with the comma before it and the colon
/// after it.
fn write_json_key(out: &mut Vec<u8>, first: u8, second: Option<u8>)
    requires
        first < 0x80,
        second is Some ==> second->0 < 0x80,
    ensures
        all_ascii(old(out)@) ==> all_ascii(final(out)@),
        final(out)@ == old(out)@ + (match second {
            Some(s) => seq![0x2Cu8, 0x22u8, first, s, 0x22u8, 0x3Au8],
            None => seq![0x2Cu8, 0x22u8, first, 0x22u8, 0x3Au8],
        }),
{
    out.push(0x2C);
    out.push(0x22);
    out.push(first);
    match second {
        Some(s) => {
            out.push(s);
        },
        None => {},
    }
    out.push(0x22);
    out.push(0x3A);
    assert(out@ =~= old(out)@ + (match second {
        Some(s) => seq![0x2Cu8, 0x22u8, first, s, 0x22u8, 0x3Au8],
        None => seq![0x2Cu8, 0x22u8, first, 0x22u8, 0x3Au8],
    }));
}

/// The position of a glyph in the JSON format.
pub open spec fn json_of_position(p: GlyphPosition) -> Seq<u8> {
    seq![0x2Cu8, 0x22u8, 0x64u8, 0x78u8, 0x22u8, 0x3Au8] + signed_decimal_digits(p.x_offset as int)
        + seq![0x2Cu8, 0x22u8, 0x64u8, 0x79u8, 0x22u8, 0x3Au8] + signed_decimal_digits(
        p.y_offset as int,
    ) + seq![0x2Cu8, 0x22u8, 0x61u8, 0x78u8, 0x22u8, 0x3Au8] + signed_decimal_digits(
        p.x_advance as int,
    ) + seq![0x2Cu8, 0x22u8, 0x61u8, 0x79u8, 0x22u8, 0x3Au8] + signed_decimal_digits(
        p.y_advance as int,
    )
}

/// The extents of a glyph in the JSON format.
pub open spec fn json_of_extents(e: GlyphExtents) -> Seq<u8> {
    seq![0x2Cu8, 0x22u8, 0x78u8, 0x62u8, 0x22u8, 0x3Au8] + signed_decimal_digits(
        e.x_bearing as int,
    ) + seq![0x2Cu8, 0x22u8, 0x79u8, 0x62u8, 0x22u8, 0x3Au8] + signed_decimal_digits(
        e.y_bearing as int,
    ) + seq![0x2Cu8, 0x22u8, 0x77u8, 0x22u8, 0x3Au8] + signed_decimal_digits(e.width as int)
        + seq![0x2Cu8, 0x22u8, 0x68u8, 0x22u8, 0x3Au8] + signed_decimal_digits(e.height as int)
}

/// Writes a position in the JSON format.
fn write_json_position(out: &mut Vec<u8>, p: &GlyphPosition)
    ensures
        final(out)@ == old(out)@ + json_of_position(*p),
        all_ascii(old(out)@) ==> all_ascii(final(out)@),
{
    write_json_key(out, 0x64, Some(0x78));
    write_i32(out, p.x_offset);
    write_json_key(out, 0x64, Some(0x79));
    write_i32(out, p.y_offset);
    write_json_key(out, 0x61, Some(0x78));
    write_i32(out, p.x_advance);
    write_json_key(out, 0x61, Some(0x79));
    write_i32(out, p.y_advance);
    assert(out@ =~= old(out)@ + json_of_position(*p));
}

/// Writes extents in the JSON format.
fn write_json_extents(out: &mut Vec<u8>, e: &GlyphExtents)
    ensures
        final(out)@ == old(out)@ + json_of_extents(*e),
        all_ascii(old(out)@) ==> all_ascii(final(out)@),
{
    write_json_key(out, 0x78, Some(0x62));
    write_i32(out, e.x_bearing);
    write_json_key(out, 0x79, Some(0x62));
    write_i32(out, e.y_bearing);
    write_json_key(out, 0x77, None);
    write_i32(out, e.width);
    write_json_key(out, 0x68, None);
    write_i32(out, e.height);
    assert(out@ =~= old(out)@ + json_of_extents(*e));
}

/// Writes a glyph in the text format.
fn write_text_glyph(
    out: &mut Vec<u8>,
    name: &Vec<u8>,
    named: bool,
    cluster: Option<u32>,
    position: Option<GlyphPosition>,
    extents: Option<GlyphExtents>,
)
    ensures
        final(out)@ == old(out)@ + text_of_glyph(
            WrittenGlyph { name: name@, named, cluster, position, extents },
        ),
        all_ascii(old(out)@) && all_ascii(name@) ==> all_ascii(final(out)@),
{
    crate::text::write_bytes(out, name.as_slice());
    match cluster {
        Some(cluster) => {
            out.push(0x3D);
            write_u32(out, cluster);
        },
        None => {},
    }
    match position {
        Some(p) => {
            write_text_position(out, &p);
        },
        None => {},
    }
    match extents {
        Some(e) => {
            write_text_extents(out, &e);
        },
        None => {},
    }
    assert(out@ =~= old(out)@ + text_of_glyph(
        WrittenGlyph { name: name@, named, cluster, position, extents },
    ));
}

/// Writes the start of a glyph in the JSON format.
fn write_json_name(out: &mut Vec<u8>, name: &Vec<u8>, named: bool)
    ensures
        final(out)@ == old(out)@ + (seq![0x7Bu8, 0x22u8, 0x67u8, 0x22u8, 0x3Au8] + (if named {
            json_string(name@)
        } else {
            name@
        })),
        all_ascii(old(out)@) && all_ascii(name@) ==> all_ascii(final(out)@),
{
    out.push(0x7B);
    out.push(0x22);
    out.push(0x67);
    out.push(0x22);
    out.push(0x3A);
    let ghost o1 = out@;
    assert(o1 =~= old(out)@ + seq![0x7Bu8, 0x22u8, 0x67u8, 0x22u8, 0x3Au8]);
    if named {
        write_json_string(out, name);
    } else {
        crate::text::write_bytes(out, name.as_slice());
    }
    assert(out@ =~= old(out)@ + (seq![0x7Bu8, 0x22u8, 0x67u8, 0x22u8, 0x3Au8] + (if named {
        json_string(name@)
    } else {
        name@
    })));
}

/// Writes the cluster of a glyph in the JSON format.
fn write_json_cluster(out: &mut Vec<u8>, cluster: u32)
    ensures
        final(out)@ == old(out)@ + (seq![0x2Cu8, 0x22u8, 0x63u8, 0x6Cu8, 0x22u8, 0x3Au8]
            + decimal_digits(cluster as nat)),
        all_ascii(old(out)@) ==> all_ascii(final(out)@),
{
    write_json_key(out, 0x63, Some(0x6C));
    write_u32(out, cluster);
    assert(out@ =~= old(out)@ + (seq![0x2Cu8, 0x22u8, 0x63u8, 0x6Cu8, 0x22u8, 0x3Au8]
        + decimal_digits(cluster as nat)));
}

/// Writes a glyph in the JSON format.
fn write_json_glyph(
    out: &mut Vec<u8>,
    name: &Vec<u8>,
    named: bool,
    cluster: Option<u32>,
    position: Option<GlyphPosition>,
    extents: Option<GlyphExtents>,
)
    ensures
        final(out)@ == old(out)@ + json_of_glyph(
            WrittenGlyph { name: name@, named, cluster, position, extents },
        ),
        all_ascii(old(out)@) && all_ascii(name@) ==> all_ascii(final(out)@),
{
    let ghost g = WrittenGlyph { name: name@, named, cluster, position, extents };
    let ghost part_name = json_name_part(g);
    let ghost part_cluster = json_cluster_part(g);
    let ghost part_position = json_position_part(g);
    let ghost part_extents = json_extents_part(g);
    write_json_name(out, name, named);
    let ghost o1 = out@;
    match cluster {
        Some(cluster) => {
            write_json_cluster(out, cluster);
        },
        None => {
            assert(out@ =~= o1 + part_cluster);
        },
    }
    let ghost o2 = out@;
    match position {
        Some(p) => {
            write_json_position(out, &p);
        },
        None => {
            assert(out@ =~= o2 + part_position);
        },
    }
    let ghost o3 = out@;
    match extents {
        Some(e) => {
            write_json_extents(out, &e);
        },
        None => {
            assert(out@ =~= o3 + part_extents);
        },
    }
    let ghost o4 = out@;
    out.push(0x7D);
    proof {
        lemma_join5(old(out)@, part_name, part_cluster, part_position, part_extents, 0x7D);
    }
}

/// Appending four texts and a byte one by one appends them all.
proof fn lemma_join5(base: Seq<u8>, a: Seq<u8>, b: Seq<u8>, c: Seq<u8>, d: Seq<u8>, last: u8)
    ensures
        ((((base + a) + b) + c) + d).push(last) == base + (a + b + c + d + seq![last]),
{
    assert(((((base + a) + b) + c) + d).push(last) =~= base + (a + b + c + d + seq![last]));
}

/// The name under which a glyph is written, or the digits of its number.
fn name_to_write(font: Option<&Font>, flags: BufferSerializeFlags, glyph: u32) -> (name: Vec<u8>)
    ensures
        name@ == (if flags.no_glyph_names() {
            decimal_digits(glyph as nat)
        } else {
            written_name(font, glyph)
        }),
        all_ascii(name@),
{
    if flags.bits & BUFFER_SERIALIZE_FLAG_NO_GLYPH_NAMES == 0 {
        match font {
            Some(font) => font.glyph_name_bytes(glyph),
            None => {
                let mut name: Vec<u8> = Vec::new();
                name.push(0x67);
                name.push(0x69);
                name.push(0x64);
                assert(all_ascii(name@));
                write_u32(&mut name, glyph);
                assert(name@ =~= gid_text(glyph));
                name
            },
        }
    } else {
        let mut name: Vec<u8> = Vec::new();
        write_u32(&mut name, glyph);
        assert(name@ =~= decimal_digits(glyph as nat));
        name
    }
}

/// Writes a glyph with what stands before it and after it in the format.
fn write_in_format(
    format: BufferSerializeFormat,
    first: bool,
    last: bool,
    name: &Vec<u8>,
    named: bool,
    cluster: Option<u32>,
    position: Option<GlyphPosition>,
    extents: Option<GlyphExtents>,
) -> (out: Vec<u8>)
    requires
        all_ascii(name@),
    ensures
        all_ascii(out@),
        out@ == (match format {
            BufferSerializeFormat::Text => (if !first {
                seq![0x20u8]
            } else {
                Seq::empty()
            }) + text_of_glyph(WrittenGlyph { name: name@, named, cluster, position, extents }),
            BufferSerializeFormat::Json => (if !first {
                seq![0x2Cu8]
            } else {
                seq![0x5Bu8]
            }) + json_of_glyph(WrittenGlyph { name: name@, named, cluster, position, extents })
                + (if last {
                seq![0x5Du8]
            } else {
                Seq::empty()
            }),
            BufferSerializeFormat::Invalid => Seq::empty(),
        }),
{
    let mut out: Vec<u8> = Vec::new();
    let ghost g = WrittenGlyph { name: name@, named, cluster, position, extents };
    match format {
        BufferSerializeFormat::Text => {
            if !first {
                out.push(0x20);
            }
            let ghost lead = out@;
            write_text_glyph(&mut out, name, named, cluster, position, extents);
            assert(out@ == lead + text_of_glyph(g));
            assert(lead =~= (if !first {
                seq![0x20u8]
            } else {
                Seq::<u8>::empty()
            }));
        },
        BufferSerializeFormat::Json => {
            if !first {
                out.push(0x2C);
            } else {
                out.push(0x5B);
            }
            let ghost lead = out@;
            assert(lead =~= (if !first {
                seq![0x2Cu8]
            } else {
                seq![0x5Bu8]
            }));
            write_json_glyph(&mut out, name, named, cluster, position, extents);
            let ghost body = out@;
            assert(body == lead + json_of_glyph(g));
            if last {
                out.push(0x5D);
                assert(out@ =~= body + seq![0x5Du8]);
            } else {
                assert(out@ =~= body + Seq::<u8>::empty());
            }
        },
        BufferSerializeFormat::Invalid => {},
    }
    out
}

impl Buffer {
    /// The text of one item, as it is written.
    fn write_item(
        &self,
        font: Option<&Font>,
        format: BufferSerializeFormat,
        flags: BufferSerializeFlags,
        i: usize,
    ) -> (out: Vec<u8>)
        requires
            self.wf(),
            i < self@.infos.len(),
        ensures
            out@ == item_text(self@, font, format, flags, i as int),
            all_ascii(out@),
    {
        let info = self.glyph_infos()[i];
        let glyphs: bool = match self.content_type() {
            BufferContentType::Glyphs => true,
            _ => false,
        };
        let named: bool = flags.bits & BUFFER_SERIALIZE_FLAG_NO_GLYPH_NAMES == 0;
        let name: Vec<u8> = name_to_write(font, flags, info.codepoint);
        let cluster: Option<u32> = if flags.bits & BUFFER_SERIALIZE_FLAG_NO_CLUSTERS == 0 {
            Some(info.cluster)
        } else {
            None
        };
        let position: Option<GlyphPosition> = if flags.bits & BUFFER_SERIALIZE_FLAG_NO_POSITIONS
            == 0 && glyphs {
            Some(self.glyph_positions()[i])
        } else {
            None
        };
        let extents: Option<GlyphExtents> = if flags.bits & BUFFER_SERIALIZE_FLAG_GLYPH_EXTENTS
            != 0 {
            Some(extents_to_write(font, info.codepoint))
        } else {
            None
        };
        let ghost g = written_glyph(self@, font, flags, i as int);
        assert(g.name == name@);
        assert(g.named == named);
        assert(g.cluster == cluster);
        assert(g.position == position);
        assert(g.extents == extents);
        assert(g == (WrittenGlyph { name: name@, named, cluster, position, extents }));
        let last: bool = i + 1 == self.len() as usize;
        write_in_format(format, i == 0, last, &name, named, cluster, position, extents)
    }
}

/// The extents that are written of a glyph.
fn extents_to_write(font: Option<&Font>, glyph: u32) -> (extents: GlyphExtents)
    ensures
        extents == written_extents(font, glyph),
{
    let found = match font {
        Some(font) => font.get_glyph_extents(glyph),
        None => None,
    };
    match found {
        Some(extents) => extents,
        None => GlyphExtents { x_bearing: 0, y_bearing: 0, width: 0, height: 0 },
    }
}

/// How many of the items from `start` up to `end` are written into `room`
/// bytes: as many as go in, taken in order, and none in no format.
pub open spec fn serialized_count(
    buffer: BufferModel,
    font: Option<&Font>,
    format: BufferSerializeFormat,
    flags: BufferSerializeFlags,
    start: u32,
    end: u32,
    room: int,
) -> nat {
    if format == BufferSerializeFormat::Invalid {
        0
    } else {
        fitting_count(item_texts(buffer, font, format, flags, start, end), room)
    }
}

/// What is written of the items from `start` up to `end` into `room`
/// bytes: the texts of the items that go in, one after the other.
pub open spec fn serialized_bytes(
    buffer: BufferModel,
    font: Option<&Font>,
    format: BufferSerializeFormat,
    flags: BufferSerializeFlags,
    start: u32,
    end: u32,
    room: int,
) -> Seq<u8> {
    joined(
        item_texts(buffer, font, format, flags, start, end).take(
            serialized_count(buffer, font, format, flags, start, end, room) as int,
        ),
    )
}

/// `String::capacity` of std: the number of bytes that the text can hold
/// without asking for more memory. Nothing is claimed of it.
#[verifier::external_body]
fn string_capacity(text: &String) -> (capacity: usize) {
    text.capacity()
}

/// `String::clear` of std: the text is empty afterwards.
#[verifier::external_body]
fn string_clear(text: &mut String)
    ensures
        final(text)@ == Seq::<char>::empty(),
{
    text.clear()
}

impl Buffer {
    /// Writes the items from `start` up to `end` as far as they go into
    /// `room` bytes, and gives what was written and the number of items
    /// written. An `end` after the last item counts as the end, and a
    /// `start` after `end` as `end`.
    pub fn serialize_glyphs_bounded(
        &self,
        start: u32,
        end: u32,
        font: Option<&Font>,
        format: BufferSerializeFormat,
        flags: BufferSerializeFlags,
        room: usize,
    ) -> (r: (Vec<u8>, u32))
        requires
            self.wf(),
        ensures
            r.1 == serialized_count(self@, font, format, flags, start, end, room as int),
            r.0@ == serialized_bytes(self@, font, format, flags, start, end, room as int),
            all_ascii(r.0@),
            r.1 <= range_end(self@.infos.len() as int, end) - range_start(
                self@.infos.len() as int,
                start,
                end,
            ),
    {
        let mut out: Vec<u8> = Vec::new();
        let n: usize = self.len() as usize;
        let last: usize = if (end as usize) < n { end as usize } else { n };
        let first: usize = if (start as usize) < last { start as usize } else { last };
        let ghost texts = item_texts(self@, font, format, flags, start, end);
        assert(texts.take(0) =~= Seq::<Seq<u8>>::empty());
        match format {
            BufferSerializeFormat::Invalid => {
                return (out, 0);
            },
            _ => {},
        }
        let mut i: usize = first;
        assert(texts.skip(0) =~= texts);
        while i < last
            invariant
                first <= i <= last <= n,
                n == self@.infos.len(),
                self.wf(),
                first == range_start(self@.infos.len() as int, start, end),
                last == range_end(self@.infos.len() as int, end),
                texts == item_texts(self@, font, format, flags, start, end),
                texts.len() == last - first,
                out@ == joined(texts.take(i - first)),
                all_ascii(out@),
                out@.len() < room || i == first,
                fitting_count(texts.skip(i - first), room - out@.len()) + (i - first)
                    == fitting_count(texts, room as int),
            decreases last - i,
        {
            let item = self.write_item(font, format, flags, i);
            let ghost k = i - first;
            proof {
                assert(texts[k] == item@);
                assert(texts.skip(k)[0] == texts[k]);
                assert(texts.skip(k).drop_first() =~= texts.skip(k + 1));
                assert(texts.take(k + 1).drop_last() =~= texts.take(k));
                assert(texts.take(k + 1).last() == texts[k]);
            }
            if out.len() >= room || item.len() >= room - out.len() {
                proof {
                    assert(fitting_count(texts.skip(k), room - out@.len()) == 0);
                }
                return (out, (i - first) as u32);
            }
            crate::text::write_bytes(&mut out, item.as_slice());
            i = i + 1;
        }
        proof {
            assert(texts.skip(i - first).len() == 0);
            assert(texts.take(i - first) =~= texts);
        }
        (out, (i - first) as u32)
    }

    /// Writes the items from `start` up to `end` into `buf`, in the place
    /// of what it held, as far as they go into the room that `buf` has,
    /// and gives the number of items written. How much room `buf` has is
    /// for its allocator to say, so the number may be any that
    /// `serialized_count` gives for some room; a caller that finds fewer
    /// items written than it asked for goes on from the first item that
    /// is missing, with a text that has more room.
    pub fn serialize_glyphs(
        &mut self,
        start: u32,
        end: u32,
        buf: &mut String,
        font: Option<&Font>,
        format: BufferSerializeFormat,
        flags: BufferSerializeFlags,
    ) -> (count: u32)
        requires
            old(self).wf(),
        ensures
            final(self)@ == old(self)@,
            exists|room: usize|
                count == serialized_count(old(self)@, font, format, flags, start, end, room as int)
                    && final(buf)@ == ascii_chars(
                    #[trigger] serialized_bytes(
                        old(self)@,
                        font,
                        format,
                        flags,
                        start,
                        end,
                        room as int,
                    ),
                ),
    {
        let room: usize = string_capacity(buf);
        let (bytes, count) = self.serialize_glyphs_bounded(start, end, font, format, flags, room);
        let ghost written = bytes@;
        proof {
            lemma_ascii_is_utf8(written);
        }
        string_clear(buf);
        match crate::common::string_from_utf8(bytes) {
            Some(text) => {
                buf.append(text.as_str());
                assert(buf@ =~= ascii_chars(written));
            },
            None => {},
        }
        count
    }
}

/// A glyph that was read, and what follows it in the text.
pub ghost struct ReadGlyph {
    pub info: GlyphInfo,
    pub position: GlyphPosition,
    pub rest: Seq<u8>,
}

/// Whether a text starts with a byte.
pub open spec fn starts_with(s: Seq<u8>, byte: u8) -> bool {
    s.len() > 0 && s[0] == byte
}

/// Reads a number without sign from the start of a text: gives the number
/// and what follows it, or nothing where the text starts with no digit or
/// the number does not fit in 32 bits.
pub open spec fn read_unsigned(s: Seq<u8>) -> Option<(u32, Seq<u8>)> {
    let e = digit_run_end(s, 0);
    if e == 0 || decimal_value(s.subrange(0, e)) > 0xFFFF_FFFF {
        None
    } else {
        Some((decimal_value(s.subrange(0, e)) as u32, s.skip(e)))
    }
}

/// Reads a number that may have a minus sign from the start of a text:
/// gives the number and what follows it, or nothing where there is no
/// digit or the number does not fit in 32 bits with a sign.
pub open spec fn read_signed(s: Seq<u8>) -> Option<(i32, Seq<u8>)> {
    let e = signed_run_end(s, 0);
    let v = signed_decimal_value(s.subrange(0, e));
    if !has_digit(s.subrange(0, e)) || v < -0x8000_0000 || v > 0x7FFF_FFFF {
        None
    } else {
        Some((v as i32, s.skip(e)))
    }
}

/// Reads the cluster of a glyph: the number after `=`, or 0 where the
/// text does not go on with `=`.
pub open spec fn read_cluster(s: Seq<u8>) -> Option<(u32, Seq<u8>)> {
    if starts_with(s, 0x3D) {
        read_unsigned(s.skip(1))
    } else {
        Some((0u32, s))
    }
}

/// Reads the offsets of a glyph: two numbers with a comma between them
/// after `@`, or 0 and 0 where the text does not go on with `@`.
pub open spec fn read_offsets(s: Seq<u8>) -> Option<((i32, i32), Seq<u8>)> {
    if starts_with(s, 0x40) {
        match read_signed(s.skip(1)) {
            Some((x, r)) => if starts_with(r, 0x2C) {
                match read_signed(r.skip(1)) {
                    Some((y, rest)) => Some(((x, y), rest)),
                    None => None,
                }
            } else {
                None
            },
            None => None,
        }
    } else {
        Some(((0i32, 0i32), s))
    }
}

/// Reads the advances of a glyph: after `+` the advance along x and, after
/// a comma, the advance along y, which is 0 where no comma follows; 0 and
/// 0 where the text does not go on with `+`.
pub open spec fn read_advances(s: Seq<u8>) -> Option<((i32, i32), Seq<u8>)> {
    if starts_with(s, 0x2B) {
        match read_signed(s.skip(1)) {
            Some((x, r)) => if starts_with(r, 0x2C) {
                match read_signed(r.skip(1)) {
                    Some((y, rest)) => Some(((x, y), rest)),
                    None => None,
                }
            } else {
                Some(((x, 0i32), r))
            },
            None => None,
        }
    } else {
        Some(((0i32, 0i32), s))
    }
}

/// The glyph that a name in a text of glyphs names. A name of digits only
/// names the glyph of that number. Any other name names what the font says
/// it names, and without a font what `gid` and a number name.
pub open spec fn glyph_named(name: Seq<u8>, font: Option<&Font>) -> Option<u32> {
    if digit_run_end(name, 0) == name.len() {
        if decimal_value(name) <= 0xFFFF_FFFF {
            Some(decimal_value(name) as u32)
        } else {
            None
        }
    } else {
        match font {
            Some(font) => font.glyph_from_text(name),
            None => gid_value(name),
        }
    }
}

/// Reads one glyph from the start of a text: its name, then its cluster,
/// its offsets and its advances, each of which may be left out.
pub open spec fn read_glyph(s: Seq<u8>, font: Option<&Font>) -> Option<ReadGlyph> {
    let n = class_run_end(s, 0, ByteClass::Name);
    if n == 0 {
        None
    } else {
        match glyph_named(s.subrange(0, n), font) {
            Some(glyph) => match read_cluster(s.skip(n)) {
                Some((cluster, r1)) => match read_offsets(r1) {
                    Some((offsets, r2)) => match read_advances(r2) {
                        Some((advances, r3)) => Some(
                            ReadGlyph {
                                info: GlyphInfo { codepoint: glyph, mask: 0, cluster },
                                position: GlyphPosition {
                                    x_advance: advances.0,
                                    y_advance: advances.1,
                                    x_offset: offsets.0,
                                    y_offset: offsets.1,
                                },
                                rest: r3,
                            },
                        ),
                        None => None,
                    },
                    None => None,
                },
                None => None,
            },
            None => None,
        }
    }
}

/// Reads the glyphs of a text: glyphs with white space between them, and
/// white space before the first and after the last as may be. Gives the
/// glyphs and their positions, or nothing where the text is anything else.
pub open spec fn read_glyphs(s: Seq<u8>, font: Option<&Font>) -> Option<
    (Seq<GlyphInfo>, Seq<GlyphPosition>),
>
    decreases s.len(),
{
    let r = s.skip(class_run_end(s, 0, ByteClass::Space));
    if r.len() == 0 {
        Some((Seq::empty(), Seq::empty()))
    } else {
        match read_glyph(r, font) {
            Some(g) => if g.rest.len() >= s.len() || (g.rest.len() > 0 && !in_class(
                g.rest[0],
                ByteClass::Space,
            )) {
                None
            } else {
                match read_glyphs(g.rest, font) {
                    Some((infos, positions)) => Some(
                        (seq![g.info] + infos, seq![g.position] + positions),
                    ),
                    None => None,
                }
            },
            None => None,
        }
    }
}

/// The text without its first `n` bytes.
fn skip_bytes<'a>(s: &'a [u8], n: usize) -> (r: &'a [u8])
    requires
        n <= s@.len(),
    ensures
        r@ == s@.skip(n as int),
{
    slice_subrange(s, n, s.len())
}

/// Reads a number without sign from the start of a text.
fn parse_unsigned<'a>(s: &'a [u8]) -> (r: Option<(u32, &'a [u8])>)
    ensures
        match r {
            Some((v, rest)) => read_unsigned(s@) == Some((v, rest@)),
            None => read_unsigned(s@) is None,
        },
{
    let (value, end) = read_u32(s, 0);
    match value {
        Some(v) => Some((v, skip_bytes(s, end))),
        None => None,
    }
}

/// Reads a number that may have a minus sign from the start of a text.
fn parse_signed<'a>(s: &'a [u8]) -> (r: Option<(i32, &'a [u8])>)
    ensures
        match r {
            Some((v, rest)) => read_signed(s@) == Some((v, rest@)),
            None => read_signed(s@) is None,
        },
{
    let (value, end) = read_i32(s, 0);
    match value {
        Some(v) => Some((v, skip_bytes(s, end))),
        None => None,
    }
}

/// Reads the cluster of a glyph.
fn parse_cluster<'a>(s: &'a [u8]) -> (r: Option<(u32, &'a [u8])>)
    ensures
        match r {
            Some((v, rest)) => read_cluster(s@) == Some((v, rest@)),
            None => read_cluster(s@) is None,
        },
{
    if s.len() > 0 && s[0] == 0x3D {
        parse_unsigned(skip_bytes(s, 1))
    } else {
        Some((0, s))
    }
}

/// Reads two numbers with a comma between them.
fn parse_pair_after<'a>(s: &'a [u8], mark: u8, second_needed: bool) -> (r: Option<
    ((i32, i32), &'a [u8]),
>)
    ensures
        mark == 0x40 && second_needed ==> (match r {
            Some((v, rest)) => read_offsets(s@) == Some((v, rest@)),
            None => read_offsets(s@) is None,
        }),
        mark == 0x2B && !second_needed ==> (match r {
            Some((v, rest)) => read_advances(s@) == Some((v, rest@)),
            None => read_advances(s@) is None,
        }),
{
    if s.len() > 0 && s[0] == mark {
        match parse_signed(skip_bytes(s, 1)) {
            Some((x, r)) => {
                if r.len() > 0 && r[0] == 0x2C {
                    match parse_signed(skip_bytes(r, 1)) {
                        Some((y, rest)) => Some(((x, y), rest)),
                        None => None,
                    }
                } else if second_needed {
                    None
                } else {
                    Some(((x, 0), r))
                }
            },
            None => None,
        }
    } else {
        Some(((0, 0), s))
    }
}

/// Finds the glyph that a name names.
fn parse_glyph_name(name: &[u8], font: Option<&Font>) -> (glyph: Option<u32>)
    ensures
        glyph == glyph_named(name@, font),
{
    let (value, end) = read_u32(name, 0);
    if end == name.len() {
        proof {
            assert(name@.subrange(0, end as int) =~= name@);
            if end == 0 {
                assert(decimal_value(name@) == 0);
            }
        }
        if end == 0 {
            return Some(0);
        }
        return value;
    }
    match font {
        Some(font) => font.glyph_from_bytes(name),
        None => parse_gid(name),
    }
}

/// What was read of one glyph, and what follows it in the text.
struct ParsedGlyph<'a> {
    info: GlyphInfo,
    position: GlyphPosition,
    rest: &'a [u8],
}

/// Reads one glyph from the start of a text.
fn parse_glyph<'a>(s: &'a [u8], font: Option<&Font>) -> (r: Option<ParsedGlyph<'a>>)
    ensures
        match r {
            Some(g) => read_glyph(s@, font) == Some(
                ReadGlyph { info: g.info, position: g.position, rest: g.rest@ },
            ),
            None => read_glyph(s@, font) is None,
        },
{
    let n: usize = count_leading(s, ByteClass::Name);
    if n == 0 {
        return None;
    }
    let glyph: u32 = match parse_glyph_name(slice_subrange(s, 0, n), font) {
        Some(glyph) => glyph,
        None => {
            return None;
        },
    };
    let (cluster, r1) = match parse_cluster(skip_bytes(s, n)) {
        Some(found) => found,
        None => {
            return None;
        },
    };
    let (offsets, r2) = match parse_pair_after(r1, 0x40, true) {
        Some(found) => found,
        None => {
            return None;
        },
    };
    let (advances, r3) = match parse_pair_after(r2, 0x2B, false) {
        Some(found) => found,
        None => {
            return None;
        },
    };
    Some(
        ParsedGlyph {
            info: GlyphInfo { codepoint: glyph, mask: 0, cluster },
            position: GlyphPosition {
                x_advance: advances.0,
                y_advance: advances.1,
                x_offset: offsets.0,
                y_offset: offsets.1,
            },
            rest: r3,
        },
    )
}

/// What follows a glyph in a text is shorter than the text from the glyph
/// on.
pub proof fn lemma_read_glyph_consumes(s: Seq<u8>, font: Option<&Font>)
    requires
        read_glyph(s, font) is Some,
    ensures
        read_glyph(s, font)->0.rest.len() < s.len(),
{
    let n = class_run_end(s, 0, ByteClass::Name);
    lemma_class_run_end(s, 0, ByteClass::Name);
    let r0 = s.skip(n);
    let (cluster, r1) = read_cluster(r0)->0;
    assert(r1.len() <= r0.len()) by {
        if starts_with(r0, 0x3D) {
            lemma_digit_run_end(r0.skip(1), 0);
        }
    }
    let (offsets, r2) = read_offsets(r1)->0;
    assert(r2.len() <= r1.len()) by {
        lemma_read_pair_shrinks(r1);
    }
    let (advances, r3) = read_advances(r2)->0;
    assert(r3.len() <= r2.len()) by {
        lemma_read_pair_shrinks(r2);
    }
}

/// What follows a signed number in a text is no longer than the text.
proof fn lemma_read_signed_shrinks(s: Seq<u8>)
    ensures
        read_signed(s) is Some ==> read_signed(s).unwrap().1.len() <= s.len(),
{
    if starts_with(s, 0x2D) {
        lemma_digit_run_end(s, 1);
    } else {
        lemma_digit_run_end(s, 0);
    }
}

/// What follows the offsets or the advances in a text is no longer than
/// the text.
proof fn lemma_read_pair_shrinks(s: Seq<u8>)
    ensures
        read_offsets(s) is Some ==> read_offsets(s).unwrap().1.len() <= s.len(),
        read_advances(s) is Some ==> read_advances(s).unwrap().1.len() <= s.len(),
{
    if s.len() > 0 {
        lemma_read_signed_shrinks(s.skip(1));
        if read_signed(s.skip(1)) is Some {
            let r = read_signed(s.skip(1)).unwrap().1;
            if r.len() > 0 {
                lemma_read_signed_shrinks(r.skip(1));
            }
        }
    }
}

/// Reads the glyphs of a text.
pub fn parse_glyphs(s: &[u8], font: Option<&Font>) -> (r: Option<
    (Vec<GlyphInfo>, Vec<GlyphPosition>),
>)
    ensures
        match r {
            Some((infos, positions)) => read_glyphs(s@, font) == Some((infos@, positions@)),
            None => read_glyphs(s@, font) is None,
        },
        r is Some ==> r.unwrap().0@.len() == r.unwrap().1@.len(),
{
    let mut infos: Vec<GlyphInfo> = Vec::new();
    let mut positions: Vec<GlyphPosition> = Vec::new();
    let mut rest: &[u8] = s;
    loop
        invariant
            infos@.len() == positions@.len(),
            match read_glyphs(rest@, font) {
                Some((more_infos, more_positions)) => read_glyphs(s@, font) == Some(
                    (infos@ + more_infos, positions@ + more_positions),
                ),
                None => read_glyphs(s@, font) is None,
            },
        decreases rest@.len(),
    {
        let spaces: usize = count_leading(rest, ByteClass::Space);
        let r = skip_bytes(rest, spaces);
        if r.len() == 0 {
            proof {
                assert(read_glyphs(rest@, font) == Some(
                    (Seq::<GlyphInfo>::empty(), Seq::<GlyphPosition>::empty()),
                ));
                assert(infos@ + Seq::<GlyphInfo>::empty() =~= infos@);
                assert(positions@ + Seq::<GlyphPosition>::empty() =~= positions@);
            }
            return Some((infos, positions));
        }
        match parse_glyph(r, font) {
            Some(g) => {
                proof {
                    lemma_read_glyph_consumes(r@, font);
                }
                if g.rest.len() > 0 && !crate::text::is_in_class(g.rest[0], ByteClass::Space) {
                    return None;
                }
                proof {
                    match read_glyphs(g.rest@, font) {
                        Some((more_infos, more_positions)) => {
                            assert(infos@.push(g.info) + more_infos =~= infos@ + (seq![g.info]
                                + more_infos));
                            assert(positions@.push(g.position) + more_positions =~= positions@
                                + (seq![g.position] + more_positions));
                        },
                        None => {},
                    }
                }
                infos.push(g.info);
                positions.push(g.position);
                rest = g.rest;
            },
            None => {
                return None;
            },
        }
    }
}

/// A text without the white space at its start.
pub open spec fn skip_space(s: Seq<u8>) -> Seq<u8> {
    s.skip(class_run_end(s, 0, ByteClass::Space))
}

/// Reads a JSON string from after its opening double quote: gives what it
/// holds and what follows its closing double quote. A backslash stands
/// before a double quote or a backslash that belongs to the string, and
/// before nothing else.
pub open spec fn read_json_text(s: Seq<u8>) -> Option<(Seq<u8>, Seq<u8>)>
    decreases s.len(),
{
    if s.len() == 0 {
        None
    } else if s[0] == 0x22 {
        Some((Seq::empty(), s.skip(1)))
    } else if s[0] == 0x5C {
        if s.len() < 2 || (s[1] != 0x22 && s[1] != 0x5C) {
            None
        } else {
            match read_json_text(s.skip(2)) {
                Some((text, rest)) => Some((seq![s[1]] + text, rest)),
                None => None,
            }
        }
    } else {
        match read_json_text(s.skip(1)) {
            Some((text, rest)) => Some((seq![s[0]] + text, rest)),
            None => None,
        }
    }
}

/// Reads a JSON string from the start of a text.
pub open spec fn read_json_string(s: Seq<u8>) -> Option<(Seq<u8>, Seq<u8>)> {
    if starts_with(s, 0x22) {
        read_json_text(s.skip(1))
    } else {
        None
    }
}

/// The glyph that a name in a JSON string names: what the font says it
/// names, and without a font what `gid` and a number name.
pub open spec fn glyph_of_json_name(name: Seq<u8>, font: Option<&Font>) -> Option<u32> {
    match font {
        Some(font) => font.glyph_from_text(name),
        None => gid_value(name),
    }
}

/// The value of the key `g`: a name between double quotes, or a number.
pub open spec fn read_json_glyph_value(s: Seq<u8>, font: Option<&Font>) -> Option<(u32, Seq<u8>)> {
    if starts_with(s, 0x22) {
        match read_json_string(s) {
            Some((name, rest)) => match glyph_of_json_name(name, font) {
                Some(glyph) => Some((glyph, rest)),
                None => None,
            },
            None => None,
        }
    } else {
        read_unsigned(s)
    }
}

/// A glyph with the value of one key set. The keys are `g` for the glyph,
/// `cl` for the cluster, `dx` and `dy` for the offsets and `ax` and `ay`
/// for the advances; the keys of the extents, `xb`, `yb`, `w` and `h`,
/// set nothing. Any other key is an error, for which 0 stands.
pub open spec fn json_key_kind(key: Seq<u8>) -> int {
    if key == seq![0x67u8] {
        1
    } else if key == seq![0x63u8, 0x6Cu8] {
        2
    } else if key == seq![0x64u8, 0x78u8] {
        3
    } else if key == seq![0x64u8, 0x79u8] {
        4
    } else if key == seq![0x61u8, 0x78u8] {
        5
    } else if key == seq![0x61u8, 0x79u8] {
        6
    } else if key == seq![0x78u8, 0x62u8] || key == seq![0x79u8, 0x62u8] || key == seq![0x77u8]
        || key == seq![0x68u8] {
        7
    } else {
        0
    }
}

/// Reads one member of the object of a glyph, a key with its value, into
/// the glyph.
pub open spec fn read_json_member(
    s: Seq<u8>,
    info: GlyphInfo,
    position: GlyphPosition,
    font: Option<&Font>,
) -> Option<ReadGlyph> {
    match read_json_string(s) {
        Some((key, after_key)) => {
            let colon = skip_space(after_key);
            let value = skip_space(colon.skip(1));
            let kind = json_key_kind(key);
            if !starts_with(colon, 0x3A) || kind == 0 {
                None
            } else if kind == 1 {
                match read_json_glyph_value(value, font) {
                    Some((glyph, rest)) => Some(
                        ReadGlyph { info: GlyphInfo { codepoint: glyph, ..info }, position, rest },
                    ),
                    None => None,
                }
            } else if kind == 2 {
                match read_unsigned(value) {
                    Some((cluster, rest)) => Some(
                        ReadGlyph { info: GlyphInfo { cluster, ..info }, position, rest },
                    ),
                    None => None,
                }
            } else {
                match read_signed(value) {
                    Some((v, rest)) => Some(
                        ReadGlyph {
                            info,
                            position: if kind == 3 {
                                GlyphPosition { x_offset: v, ..position }
                            } else if kind == 4 {
                                GlyphPosition { y_offset: v, ..position }
                            } else if kind == 5 {
                                GlyphPosition { x_advance: v, ..position }
                            } else if kind == 6 {
                                GlyphPosition { y_advance: v, ..position }
                            } else {
                                position
                            },
                            rest,
                        },
                    ),
                    None => None,
                }
            }
        },
        None => None,
    }
}

/// Reads the members of the object of a glyph up to its closing brace.
pub open spec fn read_json_members(
    s: Seq<u8>,
    info: GlyphInfo,
    position: GlyphPosition,
    font: Option<&Font>,
) -> Option<ReadGlyph>
    decreases s.len(),
{
    match read_json_member(s, info, position, font) {
        Some(g) => {
            let r = skip_space(g.rest);
            let next = skip_space(r.skip(1));
            if starts_with(r, 0x7D) {
                Some(ReadGlyph { rest: r.skip(1), ..g })
            } else if starts_with(r, 0x2C) && next.len() < s.len() {
                read_json_members(next, g.info, g.position, font)
            } else {
                None
            }
        },
        None => None,
    }
}

/// The glyph of which nothing has been read yet.
pub open spec fn unread_glyph() -> (GlyphInfo, GlyphPosition) {
    (
        GlyphInfo { codepoint: 0, mask: 0, cluster: 0 },
        GlyphPosition { x_advance: 0, y_advance: 0, x_offset: 0, y_offset: 0 },
    )
}

/// Reads the object of one glyph from the start of a text. What the
/// object does not say of the glyph is 0.
pub open spec fn read_json_object(s: Seq<u8>, font: Option<&Font>) -> Option<ReadGlyph> {
    let r = skip_space(s.skip(1));
    if !starts_with(s, 0x7B) {
        None
    } else if starts_with(r, 0x7D) {
        Some(ReadGlyph { info: unread_glyph().0, position: unread_glyph().1, rest: r.skip(1) })
    } else {
        read_json_members(r, unread_glyph().0, unread_glyph().1, font)
    }
}

/// Whether a text of glyphs in the JSON format is at its end: nothing
/// follows, or `]` and then nothing but white space.
pub open spec fn json_ends(s: Seq<u8>) -> bool {
    s.len() == 0 || (starts_with(s, 0x5D) && skip_space(s.skip(1)).len() == 0)
}

/// Reads the objects of glyphs with commas between them, up to the end of
/// the text.
pub open spec fn read_json_objects(s: Seq<u8>, font: Option<&Font>) -> Option<
    (Seq<GlyphInfo>, Seq<GlyphPosition>),
>
    decreases s.len(),
{
    match read_json_object(s, font) {
        Some(g) => {
            let r = skip_space(g.rest);
            let next = skip_space(r.skip(1));
            if json_ends(r) {
                Some((seq![g.info], seq![g.position]))
            } else if starts_with(r, 0x2C) && next.len() < s.len() {
                match read_json_objects(next, font) {
                    Some((infos, positions)) => Some(
                        (seq![g.info] + infos, seq![g.position] + positions),
                    ),
                    None => None,
                }
            } else {
                None
            }
        },
        None => None,
    }
}

/// Reads the glyphs of a text in the JSON format: objects with commas
/// between them, with `[` before them and `]` after them as may be, and
/// white space wherever it does not part a name or a number.
pub open spec fn read_json_glyphs(s: Seq<u8>, font: Option<&Font>) -> Option<
    (Seq<GlyphInfo>, Seq<GlyphPosition>),
> {
    let start = skip_space(s);
    let r = if starts_with(start, 0x5B) {
        skip_space(start.skip(1))
    } else {
        start
    };
    if json_ends(r) {
        Some((Seq::empty(), Seq::empty()))
    } else {
        read_json_objects(r, font)
    }
}

/// The text without the white space at its start.
fn skip_leading_space<'a>(s: &'a [u8]) -> (r: &'a [u8])
    ensures
        r@ == skip_space(s@),
        r@.len() <= s@.len(),
{
    let n: usize = count_leading(s, ByteClass::Space);
    skip_bytes(s, n)
}

/// Whether a text starts with a byte.
fn begins_with(s: &[u8], byte: u8) -> (is: bool)
    ensures
        is == starts_with(s@, byte),
{
    s.len() > 0 && s[0] == byte
}

/// Reads a JSON string from the start of a text.
fn parse_json_string<'a>(s: &'a [u8]) -> (r: Option<(Vec<u8>, &'a [u8])>)
    ensures
        match r {
            Some((text, rest)) => read_json_string(s@) == Some((text@, rest@)),
            None => read_json_string(s@) is None,
        },
        r is Some ==> r.unwrap().1@.len() < s@.len(),
{
    if !begins_with(s, 0x22) {
        return None;
    }
    let mut text: Vec<u8> = Vec::new();
    let mut rest: &[u8] = skip_bytes(s, 1);
    assert(text@ + Seq::<u8>::empty() =~= text@);
    loop
        invariant
            rest@.len() < s@.len(),
            read_json_string(s@) == read_json_text(s@.skip(1)),
            match read_json_text(rest@) {
                Some((more, after)) => read_json_text(s@.skip(1)) == Some((text@ + more, after)),
                None => read_json_text(s@.skip(1)) is None,
            },
        decreases rest@.len(),
    {
        if rest.len() == 0 {
            return None;
        }
        let b: u8 = rest[0];
        if b == 0x22 {
            assert(text@ + Seq::<u8>::empty() =~= text@);
            return Some((text, skip_bytes(rest, 1)));
        }
        if b == 0x5C {
            if rest.len() < 2 || (rest[1] != 0x22 && rest[1] != 0x5C) {
                return None;
            }
            proof {
                match read_json_text(rest@.skip(2)) {
                    Some((more, after)) => {
                        assert(text@.push(rest@[1]) + more =~= text@ + (seq![rest@[1]] + more));
                    },
                    None => {},
                }
            }
            text.push(rest[1]);
            rest = skip_bytes(rest, 2);
        } else {
            proof {
                match read_json_text(rest@.skip(1)) {
                    Some((more, after)) => {
                        assert(text@.push(b) + more =~= text@ + (seq![b] + more));
                    },
                    None => {},
                }
            }
            text.push(b);
            rest = skip_bytes(rest, 1);
        }
    }
}

/// Which key of the object of a glyph a text is.
fn parse_json_key(key: &Vec<u8>) -> (kind: u8)
    ensures
        kind == json_key_kind(key@),
{
    let n: usize = key.len();
    if n == 1 {
        let k: u8 = key[0];
        if k == 0x67 {
            assert(key@ =~= seq![0x67u8]);
            return 1;
        }
        if k == 0x77 {
            assert(key@ =~= seq![0x77u8]);
            return 7;
        }
        if k == 0x68 {
            assert(key@ =~= seq![0x68u8]);
            return 7;
        }
        assert(key@[0] == k);
        return 0;
    }
    if n == 2 {
        let a: u8 = key[0];
        let b: u8 = key[1];
        assert(key@ =~= seq![a, b]);
        if a == 0x63 && b == 0x6C {
            return 2;
        }
        if a == 0x64 && b == 0x78 {
            return 3;
        }
        if a == 0x64 && b == 0x79 {
            return 4;
        }
        if a == 0x61 && b == 0x78 {
            return 5;
        }
        if a == 0x61 && b == 0x79 {
            return 6;
        }
        if (a == 0x78 || a == 0x79) && b == 0x62 {
            return 7;
        }
        assert(seq![0x63u8, 0x6Cu8][0] == 0x63 && seq![0x63u8, 0x6Cu8][1] == 0x6C);
        assert(seq![0x64u8, 0x78u8][0] == 0x64 && seq![0x64u8, 0x78u8][1] == 0x78);
        assert(seq![0x64u8, 0x79u8][0] == 0x64 && seq![0x64u8, 0x79u8][1] == 0x79);
        assert(seq![0x61u8, 0x78u8][0] == 0x61 && seq![0x61u8, 0x78u8][1] == 0x78);
        assert(seq![0x61u8, 0x79u8][0] == 0x61 && seq![0x61u8, 0x79u8][1] == 0x79);
        assert(seq![0x78u8, 0x62u8][0] == 0x78 && seq![0x78u8, 0x62u8][1] == 0x62);
        assert(seq![0x79u8, 0x62u8][0] == 0x79 && seq![0x79u8, 0x62u8][1] == 0x62);
        return 0;
    }
    0
}

/// Reads the value of the key `g`.
fn parse_json_glyph_value<'a>(s: &'a [u8], font: Option<&Font>) -> (r: Option<(u32, &'a [u8])>)
    ensures
        match r {
            Some((glyph, rest)) => read_json_glyph_value(s@, font) == Some((glyph, rest@)),
            None => read_json_glyph_value(s@, font) is None,
        },
{
    if begins_with(s, 0x22) {
        match parse_json_string(s) {
            Some((name, rest)) => {
                let glyph = match font {
                    Some(font) => font.glyph_from_bytes(name.as_slice()),
                    None => parse_gid(name.as_slice()),
                };
                match glyph {
                    Some(glyph) => Some((glyph, rest)),
                    None => None,
                }
            },
            None => None,
        }
    } else {
        parse_unsigned(s)
    }
}

/// Reads one member of the object of a glyph into the glyph.
fn parse_json_member<'a>(
    s: &'a [u8],
    info: GlyphInfo,
    position: GlyphPosition,
    font: Option<&Font>,
) -> (r: Option<ParsedGlyph<'a>>)
    ensures
        match r {
            Some(g) => read_json_member(s@, info, position, font) == Some(
                ReadGlyph { info: g.info, position: g.position, rest: g.rest@ },
            ),
            None => read_json_member(s@, info, position, font) is None,
        },
{
    let (key, after_key) = match parse_json_string(s) {
        Some(found) => found,
        None => {
            return None;
        },
    };
    let colon = skip_leading_space(after_key);
    let kind: u8 = parse_json_key(&key);
    if !begins_with(colon, 0x3A) || kind == 0 {
        return None;
    }
    let value = skip_leading_space(skip_bytes(colon, 1));
    if kind == 1 {
        match parse_json_glyph_value(value, font) {
            Some((glyph, rest)) => Some(
                ParsedGlyph {
                    info: GlyphInfo { codepoint: glyph, mask: info.mask, cluster: info.cluster },
                    position,
                    rest,
                },
            ),
            None => None,
        }
    } else if kind == 2 {
        match parse_unsigned(value) {
            Some((cluster, rest)) => Some(
                ParsedGlyph {
                    info: GlyphInfo { codepoint: info.codepoint, mask: info.mask, cluster },
                    position,
                    rest,
                },
            ),
            None => None,
        }
    } else {
        match parse_signed(value) {
            Some((v, rest)) => {
                let mut p = position;
                if kind == 3 {
                    p.x_offset = v;
                } else if kind == 4 {
                    p.y_offset = v;
                } else if kind == 5 {
                    p.x_advance = v;
                } else if kind == 6 {
                    p.y_advance = v;
                }
                Some(ParsedGlyph { info, position: p, rest })
            },
            None => None,
        }
    }
}

/// Reads the object of one glyph from the start of a text.
fn parse_json_object<'a>(s: &'a [u8], font: Option<&Font>) -> (r: Option<ParsedGlyph<'a>>)
    ensures
        match r {
            Some(g) => read_json_object(s@, font) == Some(
                ReadGlyph { info: g.info, position: g.position, rest: g.rest@ },
            ),
            None => read_json_object(s@, font) is None,
        },
{
    if !begins_with(s, 0x7B) {
        return None;
    }
    let mut info = GlyphInfo { codepoint: 0, mask: 0, cluster: 0 };
    let mut position = GlyphPosition { x_advance: 0, y_advance: 0, x_offset: 0, y_offset: 0 };
    let mut rest: &[u8] = skip_leading_space(skip_bytes(s, 1));
    if begins_with(rest, 0x7D) {
        return Some(ParsedGlyph { info, position, rest: skip_bytes(rest, 1) });
    }
    loop
        invariant
            read_json_object(s@, font) == read_json_members(rest@, info, position, font),
        decreases rest@.len(),
    {
        let g = match parse_json_member(rest, info, position, font) {
            Some(g) => g,
            None => {
                return None;
            },
        };
        let r = skip_leading_space(g.rest);
        if begins_with(r, 0x7D) {
            return Some(ParsedGlyph { info: g.info, position: g.position, rest: skip_bytes(r, 1) });
        }
        if !begins_with(r, 0x2C) {
            return None;
        }
        let next = skip_leading_space(skip_bytes(r, 1));
        if next.len() >= rest.len() {
            return None;
        }
        info = g.info;
        position = g.position;
        rest = next;
    }
}

/// Whether a text of glyphs in the JSON format is at its end.
fn at_json_end(s: &[u8]) -> (is: bool)
    ensures
        is == json_ends(s@),
{
    if s.len() == 0 {
        return true;
    }
    if s[0] == 0x5D {
        let after = skip_leading_space(skip_bytes(s, 1));
        return after.len() == 0;
    }
    false
}

/// Reads the glyphs of a text in the JSON format.
pub fn parse_json_glyphs(s: &[u8], font: Option<&Font>) -> (r: Option<
    (Vec<GlyphInfo>, Vec<GlyphPosition>),
>)
    ensures
        match r {
            Some((infos, positions)) => read_json_glyphs(s@, font) == Some(
                (infos@, positions@),
            ),
            None => read_json_glyphs(s@, font) is None,
        },
        r is Some ==> r.unwrap().0@.len() == r.unwrap().1@.len(),
{
    let mut infos: Vec<GlyphInfo> = Vec::new();
    let mut positions: Vec<GlyphPosition> = Vec::new();
    let start = skip_leading_space(s);
    let mut rest: &[u8] = if begins_with(start, 0x5B) {
        skip_leading_space(skip_bytes(start, 1))
    } else {
        start
    };
    if at_json_end(rest) {
        return Some((infos, positions));
    }
    loop
        invariant
            infos@.len() == positions@.len(),
            match read_json_objects(rest@, font) {
                Some((more_infos, more_positions)) => read_json_glyphs(s@, font) == Some(
                    (infos@ + more_infos, positions@ + more_positions),
                ),
                None => read_json_glyphs(s@, font) is None,
            },
        decreases rest@.len(),
    {
        let g = match parse_json_object(rest, font) {
            Some(g) => g,
            None => {
                return None;
            },
        };
        let r = skip_leading_space(g.rest);
        if at_json_end(r) {
            proof {
                assert(infos@.push(g.info) =~= infos@ + seq![g.info]);
                assert(positions@.push(g.position) =~= positions@ + seq![g.position]);
            }
            infos.push(g.info);
            positions.push(g.position);
            return Some((infos, positions));
        }
        if !begins_with(r, 0x2C) {
            return None;
        }
        let next = skip_leading_space(skip_bytes(r, 1));
        if next.len() >= rest.len() {
            return None;
        }
        proof {
            match read_json_objects(next@, font) {
                Some((more_infos, more_positions)) => {
                    assert(infos@.push(g.info) + more_infos =~= infos@ + (seq![g.info]
                        + more_infos));
                    assert(positions@.push(g.position) + more_positions =~= positions@ + (seq![
                        g.position,
                    ] + more_positions));
                },
                None => {},
            }
        }
        infos.push(g.info);
        positions.push(g.position);
        rest = next;
    }
}

/// The buffer after an attempt to read glyphs from a text in a format: the
/// glyphs of the text follow those that were there. Where the text is not
/// as the format asks, or the format cannot be read, the buffer is
/// unchanged.
pub open spec fn deserialized(
    buffer: BufferModel,
    text: Seq<u8>,
    font: Option<&Font>,
    format: BufferSerializeFormat,
) -> BufferModel {
    match read_in_format(text, font, format) {
        Some((infos, positions)) => buffer.with_glyphs(infos, positions),
        None => buffer,
    }
}

/// The glyphs that a text holds in a format, or nothing where the text is
/// not as the format asks. No text holds glyphs in no format.
pub open spec fn read_in_format(
    text: Seq<u8>,
    font: Option<&Font>,
    format: BufferSerializeFormat,
) -> Option<(Seq<GlyphInfo>, Seq<GlyphPosition>)> {
    match format {
        BufferSerializeFormat::Text => read_glyphs(text, font),
        BufferSerializeFormat::Json => read_json_glyphs(text, font),
        BufferSerializeFormat::Invalid => None,
    }
}

impl Buffer {
    /// Reads glyphs from a text in a format and appends them to the
    /// buffer, which holds glyphs afterwards. Says whether it did: it did
    /// not where the text is not as the format asks, and where the buffer
    /// has failed or cannot hold the glyphs. The buffer is then unchanged,
    /// but that a buffer which cannot hold the glyphs has failed.
    pub fn deserialize_glyphs(
        &mut self,
        buf: &str,
        font: Option<&Font>,
        format: BufferSerializeFormat,
    ) -> (ok: bool)
        requires
            old(self).wf(),
            old(self)@.content_type != BufferContentType::Unicode,
        ensures
            final(self).wf(),
            final(self)@ == deserialized(old(self)@, buf.spec_bytes(), font, format),
            ok == (old(self)@.successful && (match read_in_format(buf.spec_bytes(), font, format) {
                Some((infos, positions)) => old(self)@.infos.len() + infos.len()
                    <= BUFFER_MAX_LEN,
                None => false,
            })),
    {
        let read = match format {
            BufferSerializeFormat::Text => parse_glyphs(buf.as_bytes(), font),
            BufferSerializeFormat::Json => parse_json_glyphs(buf.as_bytes(), font),
            BufferSerializeFormat::Invalid => None,
        };
        match read {
            Some((infos, positions)) => self.append_glyphs(infos, positions),
            None => false,
        }
    }
}
/// A signed number that was written is read back, with what follows it,
/// where that does not go on with a digit.
pub proof fn lemma_read_signed_of_written(v: i32, rest: Seq<u8>)
    requires
        rest.len() == 0 || !is_digit(rest[0]),
    ensures
        read_signed(signed_decimal_digits(v as int) + rest) == Some((v, rest)),
{
    let text = signed_decimal_digits(v as int);
    let s = text + rest;
    lemma_signed_digits_read_back(v as int, rest);
    assert(s.subrange(0, text.len() as int) =~= text);
    assert(s.skip(text.len() as int) =~= rest);
}

/// A number without sign that was written is read back, with what follows
/// it, where that does not go on with a digit.
pub proof fn lemma_read_unsigned_of_written(v: u32, rest: Seq<u8>)
    requires
        rest.len() == 0 || !is_digit(rest[0]),
    ensures
        read_unsigned(decimal_digits(v as nat) + rest) == Some((v, rest)),
{
    let text = decimal_digits(v as nat);
    let s = text + rest;
    lemma_decimal_digits(v as nat);
    lemma_digit_run_of_digits(text, rest, 0);
    assert(s.subrange(0, text.len() as int) =~= text);
    assert(s.skip(text.len() as int) =~= rest);
}

/// The advances of a position that were written are read back, with what
/// follows them, where that is nothing or goes on with a space.
proof fn lemma_read_advances_of_written(p: GlyphPosition, rest: Seq<u8>)
    requires
        rest.len() == 0 || rest[0] == 0x20,
    ensures
        read_advances(text_of_advances(p) + rest) == Some(((p.x_advance, p.y_advance), rest)),
        text_of_advances(p).len() > 0,
        text_of_advances(p)[0] == 0x2B,
{
    let x = signed_decimal_digits(p.x_advance as int);
    let y = signed_decimal_digits(p.y_advance as int);
    let s = text_of_advances(p) + rest;
    assert(s[0] == 0x2B);
    if p.y_advance != 0 {
        let after_x = seq![0x2Cu8] + (y + rest);
        assert(s.skip(1) =~= x + after_x);
        lemma_read_signed_of_written(p.x_advance, after_x);
        assert(after_x.skip(1) =~= y + rest);
        lemma_read_signed_of_written(p.y_advance, rest);
    } else {
        assert(s.skip(1) =~= x + rest);
        lemma_read_signed_of_written(p.x_advance, rest);
    }
}

/// The offsets of a position that were written are read back, with what
/// follows them, where that goes on with `+`.
proof fn lemma_read_offsets_of_written(p: GlyphPosition, rest: Seq<u8>)
    requires
        rest.len() > 0,
        rest[0] == 0x2B,
    ensures
        read_offsets(text_of_offsets(p) + rest) == Some(((p.x_offset, p.y_offset), rest)),
        (text_of_offsets(p) + rest)[0] == 0x40 || (text_of_offsets(p) + rest)[0] == 0x2B,
{
    let s = text_of_offsets(p) + rest;
    if p.x_offset != 0 || p.y_offset != 0 {
        let x = signed_decimal_digits(p.x_offset as int);
        let y = signed_decimal_digits(p.y_offset as int);
        let after_x = seq![0x2Cu8] + (y + rest);
        assert(s[0] == 0x40);
        assert(s.skip(1) =~= x + after_x);
        lemma_read_signed_of_written(p.x_offset, after_x);
        assert(after_x.skip(1) =~= y + rest);
        lemma_read_signed_of_written(p.y_offset, rest);
    } else {
        assert(s =~= rest);
    }
}

/// A position that was written in the text format is read back, with what
/// follows it, where that is nothing or goes on with a space.
proof fn lemma_read_position_of_written(p: GlyphPosition, rest: Seq<u8>)
    requires
        rest.len() == 0 || rest[0] == 0x20,
    ensures
        text_of_position(p).len() > 0,
        text_of_position(p)[0] == 0x40 || text_of_position(p)[0] == 0x2B,
        read_offsets(text_of_position(p) + rest) is Some,
        read_offsets(text_of_position(p) + rest).unwrap().0 == (p.x_offset, p.y_offset),
        read_advances(read_offsets(text_of_position(p) + rest).unwrap().1) == Some(
            ((p.x_advance, p.y_advance), rest),
        ),
{
    let after = text_of_advances(p) + rest;
    lemma_read_advances_of_written(p, rest);
    assert(after[0] == 0x2B);
    lemma_read_offsets_of_written(p, after);
    assert(text_of_position(p) + rest =~= text_of_offsets(p) + after);
    assert(text_of_position(p)[0] == (text_of_offsets(p) + after)[0]);
}

/// Whether a name under which a glyph is written is read back as the
/// glyph: the name is made of letters, digits, `_`, `.` and `-`, and
/// names the glyph.
pub open spec fn name_reads_back(name: Seq<u8>, font: Option<&Font>, glyph: u32) -> bool {
    &&& name.len() > 0
    &&& forall|k: int| 0 <= k < name.len() ==> in_class(#[trigger] name[k], ByteClass::Name)
    &&& glyph_named(name, font) == Some(glyph)
}

/// A glyph that was written in the text format with its cluster and its
/// position is read back, with what follows it, where that is nothing or
/// goes on with a space.
proof fn lemma_read_glyph_of_written(
    name: Seq<u8>,
    glyph: u32,
    cluster: u32,
    p: GlyphPosition,
    rest: Seq<u8>,
    font: Option<&Font>,
)
    requires
        name_reads_back(name, font, glyph),
        rest.len() == 0 || rest[0] == 0x20,
    ensures
        read_glyph(
            text_of_glyph(
                WrittenGlyph {
                    name,
                    named: true,
                    cluster: Some(cluster),
                    position: Some(p),
                    extents: None,
                },
            ) + rest,
            font,
        ) == Some(
            ReadGlyph { info: GlyphInfo { codepoint: glyph, mask: 0, cluster }, position: p, rest },
        ),
{
    let g = WrittenGlyph {
        name,
        named: true,
        cluster: Some(cluster),
        position: Some(p),
        extents: None,
    };
    let digits = decimal_digits(cluster as nat);
    let position = text_of_position(p);
    let s = text_of_glyph(g) + rest;
    let after_cluster = position + rest;
    let after_name = seq![0x3Du8] + digits + after_cluster;
    lemma_read_position_of_written(p, rest);
    assert(s =~= name + after_name);
    lemma_class_run_of_prefix(name, after_name, 0, ByteClass::Name);
    assert(s.subrange(0, name.len() as int) =~= name);
    assert(s.skip(name.len() as int) =~= after_name);
    assert(after_name.skip(1) =~= digits + after_cluster);
    assert(after_cluster[0] == position[0]);
    lemma_read_unsigned_of_written(cluster, after_cluster);
}

/// Texts written one after the other are the first text and then the
/// others.
pub proof fn lemma_joined_first(texts: Seq<Seq<u8>>)
    requires
        texts.len() > 0,
    ensures
        joined(texts) == texts[0] + joined(texts.drop_first()),
    decreases texts.len(),
{
    if texts.len() == 1 {
        assert(texts.drop_last() =~= Seq::<Seq<u8>>::empty());
        assert(texts.drop_first() =~= Seq::<Seq<u8>>::empty());
        assert(joined(texts) =~= texts[0] + joined(texts.drop_first()));
    } else {
        lemma_joined_first(texts.drop_last());
        assert(texts.drop_last().drop_first() =~= texts.drop_first().drop_last());
        assert(texts.drop_first().last() == texts.last());
        assert(texts.drop_last()[0] == texts[0]);
        assert(joined(texts) =~= texts[0] + joined(texts.drop_first()));
    }
}

/// The glyphs of a buffer as they are read back from text: with no mask.
pub open spec fn without_masks(infos: Seq<GlyphInfo>) -> Seq<GlyphInfo> {
    Seq::new(
        infos.len(),
        |i: int| GlyphInfo { codepoint: infos[i].codepoint, mask: 0, cluster: infos[i].cluster },
    )
}

/// Whether every glyph of a buffer is written under a name that is read
/// back as the glyph. It is so without a font, and with a font that has
/// no names.
pub open spec fn names_read_back(buffer: BufferModel, font: Option<&Font>) -> bool {
    forall|i: int|
        0 <= i < buffer.infos.len() ==> name_reads_back(
            #[trigger] written_name(font, buffer.infos[i].codepoint),
            font,
            buffer.infos[i].codepoint,
        )
}

/// The flags that leave nothing out and add nothing.
pub open spec fn default_flags() -> BufferSerializeFlags {
    BufferSerializeFlags { bits: 0 }
}

/// The glyphs from place `i` on, written in the text format with nothing
/// left out, are read back as they were, but for their masks.
proof fn lemma_text_round_trip_from(buffer: BufferModel, font: Option<&Font>, i: int)
    requires
        buffer.wf(),
        buffer.content_type == BufferContentType::Glyphs,
        names_read_back(buffer, font),
        0 <= i <= buffer.infos.len(),
    ensures
        read_glyphs(
            joined(
                item_texts(
                    buffer,
                    font,
                    BufferSerializeFormat::Text,
                    default_flags(),
                    0,
                    0xFFFF_FFFF,
                ).skip(i),
            ),
            font,
        ) == Some((without_masks(buffer.infos).skip(i), buffer.positions.skip(i))),
        i > 0 && i < buffer.infos.len() ==> joined(
            item_texts(
                buffer,
                font,
                BufferSerializeFormat::Text,
                default_flags(),
                0,
                0xFFFF_FFFF,
            ).skip(i),
        )[0] == 0x20,
        i > 0 && i < buffer.infos.len() ==> joined(
            item_texts(
                buffer,
                font,
                BufferSerializeFormat::Text,
                default_flags(),
                0,
                0xFFFF_FFFF,
            ).skip(i),
        ).len() > 0,
    decreases buffer.infos.len() - i,
{
    let flags = default_flags();
    let n = buffer.infos.len() as int;
    let texts = item_texts(buffer, font, BufferSerializeFormat::Text, flags, 0, 0xFFFF_FFFF);
    let s = joined(texts.skip(i));
    assert(0u32 & 1u32 == 0 && 0u32 & 2u32 == 0 && 0u32 & 4u32 == 0 && 0u32 & 8u32 == 0)
        by (bit_vector);
    assert(texts.len() == n);
    if i == n {
        assert(texts.skip(i) =~= Seq::<Seq<u8>>::empty());
        assert(s.len() == 0);
        assert(s.skip(0) =~= s);
        assert(without_masks(buffer.infos).skip(i) =~= Seq::<GlyphInfo>::empty());
        assert(buffer.positions.skip(i) =~= Seq::<GlyphPosition>::empty());
    } else {
        lemma_text_round_trip_from(buffer, font, i + 1);
        let rest = joined(texts.skip(i + 1));
        lemma_joined_first(texts.skip(i));
        assert(texts.skip(i).drop_first() =~= texts.skip(i + 1));
        assert(texts.skip(i)[0] == texts[i]);
        assert(s == texts[i] + rest);
        let info = buffer.infos[i];
        let p = buffer.positions[i];
        let name = written_name(font, info.codepoint);
        let g = written_glyph(buffer, font, flags, i);
        assert(g == (WrittenGlyph {
            name,
            named: true,
            cluster: Some(info.cluster),
            position: Some(p),
            extents: None,
        }));
        let body = text_of_glyph(g);
        assert(rest.len() == 0 || rest[0] == 0x20) by {
            if i + 1 < n {
            } else {
                assert(texts.skip(i + 1) =~= Seq::<Seq<u8>>::empty());
            }
        }
        lemma_read_glyph_of_written(name, info.codepoint, info.cluster, p, rest, font);
        assert(body.len() > 0 && in_class(body[0], ByteClass::Name)) by {
            assert(body[0] == name[0]);
        }
        let r = body + rest;
        if i > 0 {
            assert(texts[i] == seq![0x20u8] + body);
            assert(s =~= seq![0x20u8] + r);
            assert(s[0] == 0x20);
            assert(r[0] == body[0]);
            lemma_class_run_of_prefix(seq![0x20u8], r, 0, ByteClass::Space);
            assert(s.skip(1) =~= r);
        } else {
            assert(texts[i] =~= body);
            assert(s =~= r);
            assert(class_run_end(s, 0, ByteClass::Space) == 0) by {
                assert(s[0] == body[0]);
            }
            assert(s.skip(0) =~= s);
        }
        assert(without_masks(buffer.infos).skip(i) =~= seq![
            GlyphInfo { codepoint: info.codepoint, mask: 0, cluster: info.cluster },
        ] + without_masks(buffer.infos).skip(i + 1));
        assert(buffer.positions.skip(i) =~= seq![p] + buffer.positions.skip(i + 1));
    }
}

/// The glyphs of a buffer, written in the text format with nothing left
/// out and then read, are the glyphs that were written: each glyph has its
/// number, its cluster, its advances and its offsets again. Masks are not
/// written, and are 0 when read.
pub proof fn lemma_text_round_trip(buffer: BufferModel, font: Option<&Font>)
    requires
        buffer.wf(),
        buffer.content_type == BufferContentType::Glyphs,
        names_read_back(buffer, font),
    ensures
        read_glyphs(
            joined(
                item_texts(
                    buffer,
                    font,
                    BufferSerializeFormat::Text,
                    default_flags(),
                    0,
                    0xFFFF_FFFF,
                ),
            ),
            font,
        ) == Some((without_masks(buffer.infos), buffer.positions)),
{
    let texts = item_texts(
        buffer,
        font,
        BufferSerializeFormat::Text,
        default_flags(),
        0,
        0xFFFF_FFFF,
    );
    lemma_text_round_trip_from(buffer, font, 0);
    assert(texts.skip(0) =~= texts);
    assert(without_masks(buffer.infos).skip(0) =~= without_masks(buffer.infos));
    assert(buffer.positions.skip(0) =~= buffer.positions);
}

/// `gid` and the number of a glyph is a name that is read back as the
/// glyph, without a font and with any font that has no names.
pub proof fn lemma_gid_reads_back(glyph: u32, font: Option<&Font>)
    requires
        font is Some ==> font.unwrap().glyph_names_table() is None,
    ensures
        name_reads_back(gid_text(glyph), font, glyph),
        written_name(font, glyph) == gid_text(glyph),
{
    let digits = decimal_digits(glyph as nat);
    let name = gid_text(glyph);
    lemma_decimal_digits(glyph as nat);
    assert forall|k: int| 0 <= k < name.len() implies in_class(
        #[trigger] name[k],
        ByteClass::Name,
    ) by {
        if k >= 3 {
            assert(name[k] == digits[k - 3]);
            assert(is_digit(digits[k - 3]));
        }
    }
    assert(name[0] == 0x67);
    assert(digit_run_end(name, 0) == 0);
    crate::text::lemma_digit_run_shift(seq![0x67u8, 0x69u8, 0x64u8], digits, 0);
    lemma_digit_run_of_digits(digits, Seq::<u8>::empty(), 0);
    assert(digits + Seq::<u8>::empty() =~= digits);
    assert(name.subrange(3, name.len() as int) =~= digits);
}

/// Texts written one after the other, in two parts, are the first part and
/// then the second.
pub proof fn lemma_joined_parts(first: Seq<Seq<u8>>, second: Seq<Seq<u8>>)
    ensures
        joined(first + second) == joined(first) + joined(second),
    decreases second.len(),
{
    if second.len() == 0 {
        assert(first + second =~= first);
        assert(joined(first) + joined(second) =~= joined(first));
    } else {
        lemma_joined_parts(first, second.drop_last());
        assert((first + second).drop_last() =~= first + second.drop_last());
        assert((first + second).last() == second.last());
        assert(joined(first + second) =~= joined(first) + joined(second));
    }
}

/// What is written of a range of items is what is written of its first
/// part and then what is written of the rest: a caller that writes a
/// buffer piece by piece gets the text of the whole buffer.
pub proof fn lemma_serialized_in_parts(
    buffer: BufferModel,
    font: Option<&Font>,
    format: BufferSerializeFormat,
    flags: BufferSerializeFlags,
    start: u32,
    middle: u32,
    end: u32,
)
    requires
        start <= middle <= end <= buffer.infos.len(),
    ensures
        joined(item_texts(buffer, font, format, flags, start, end)) == joined(
            item_texts(buffer, font, format, flags, start, middle),
        ) + joined(item_texts(buffer, font, format, flags, middle, end)),
{
    let whole = item_texts(buffer, font, format, flags, start, end);
    let first = item_texts(buffer, font, format, flags, start, middle);
    let second = item_texts(buffer, font, format, flags, middle, end);
    assert(whole =~= first + second);
    lemma_joined_parts(first, second);
}

} // verus!
