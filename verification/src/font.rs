//! Fonts: a face at a size, with the tables that say what each glyph
//! measures. A font may stand on a parent, which answers for every table
//! that the font does not have itself.

use crate::common::Direction;
use crate::face::{Face, FaceModel};
use crate::text::{
    all_ascii, all_hex_digits, ascii_chars, decimal_digits, decimal_value, digit_run_end,
    hex_value, lemma_ascii_is_utf8, lemma_decimal_digits, read_hex_u32, read_u32, same_bytes,
    write_u32,
};
use vstd::prelude::*;
use vstd::string::StringSliceAdditionalSpecFns;

verus! {

/// The box round a glyph. The height is negative where the y axis grows
/// upwards.
#[derive(Clone, Copy, Debug, PartialEq, Eq, Hash, Structural)]
pub struct GlyphExtents {
    /// From the origin to the left side of the glyph.
    pub x_bearing: i32,
    /// From the origin to the top side of the glyph.
    pub y_bearing: i32,
    /// From the left side to the right side.
    pub width: i32,
    /// From the top side to the bottom side.
    pub height: i32,
}

impl Default for GlyphExtents {
    fn default() -> (extents: GlyphExtents)
        ensures
            extents == (GlyphExtents { x_bearing: 0, y_bearing: 0, width: 0, height: 0 }),
    {
        GlyphExtents { x_bearing: 0, y_bearing: 0, width: 0, height: 0 }
    }
}

/// One line of a table: the value for a pair of keys. A table that is
/// asked by one key only has 0 for the second.
#[derive(Debug)]
pub struct TableEntry<V> {
    pub first: u32,
    pub second: u32,
    pub value: V,
}

/// A table of values by keys: lines for single keys, and the value for all
/// keys without a line, if there is one.
#[derive(Debug)]
pub struct Table<V> {
    pub entries: Vec<TableEntry<V>>,
    pub fallback: Option<V>,
}

/// What the lines of a table say of a pair of keys: the value of the last
/// line for the pair.
pub open spec fn entry_value<V>(entries: Seq<TableEntry<V>>, first: u32, second: u32) -> Option<V>
    decreases entries.len(),
{
    if entries.len() == 0 {
        None
    } else if entries.last().first == first && entries.last().second == second {
        Some(entries.last().value)
    } else {
        entry_value(entries.drop_last(), first, second)
    }
}

impl<V> Table<V> {
    /// What the table says of a pair of keys: the value of the last line
    /// for the pair, else the value for all other keys, else nothing.
    pub open spec fn value(&self, first: u32, second: u32) -> Option<V> {
        match entry_value(self.entries@, first, second) {
            Some(value) => Some(value),
            None => self.fallback,
        }
    }

    /// A table that says nothing.
    pub fn new() -> (table: Table<V>)
        ensures
            table.entries@.len() == 0,
            table.fallback is None,
    {
        Table { entries: Vec::new(), fallback: None }
    }

    /// A table that says the same of every key.
    pub fn constant(value: V) -> (table: Table<V>)
        ensures
            table.entries@.len() == 0,
            table.fallback == Some(value),
    {
        Table { entries: Vec::new(), fallback: Some(value) }
    }

    /// Adds a line, which counts for more than the lines before it.
    pub fn set(&mut self, first: u32, second: u32, value: V)
        ensures
            final(self).entries@ == old(self).entries@.push(TableEntry { first, second, value }),
            final(self).fallback == old(self).fallback,
    {
        self.entries.push(TableEntry { first, second, value });
    }
}

impl<V: Copy> Table<V> {
    /// What the table says of a pair of keys.
    pub fn get(&self, first: u32, second: u32) -> (value: Option<V>)
        ensures
            value == self.value(first, second),
    {
        let mut i: usize = self.entries.len();
        assert(self.entries@.subrange(0, i as int) =~= self.entries@);
        while i > 0
            invariant
                i <= self.entries@.len(),
                entry_value(self.entries@.subrange(0, i as int), first, second) == entry_value(
                    self.entries@,
                    first,
                    second,
                ),
            decreases i,
        {
            let ghost rest = self.entries@.subrange(0, i as int);
            assert(rest.drop_last() =~= self.entries@.subrange(0, i - 1));
            assert(rest.last() == self.entries@[i - 1]);
            i = i - 1;
            if self.entries[i].first == first && self.entries[i].second == second {
                return Some(self.entries[i].value);
            }
        }
        assert(self.entries@.subrange(0, 0).len() == 0);
        self.fallback
    }
}

/// The name of a glyph.
#[derive(Debug)]
pub struct GlyphName {
    pub glyph: u32,
    pub name: Vec<u8>,
}

/// The name that a list gives to a glyph: that of the first line for it.
pub open spec fn name_of_glyph(names: Seq<GlyphName>, glyph: u32) -> Option<Seq<u8>>
    decreases names.len(),
{
    if names.len() == 0 {
        None
    } else if names[0].glyph == glyph {
        Some(names[0].name@)
    } else {
        name_of_glyph(names.drop_first(), glyph)
    }
}

/// The glyph that a list gives for a name: that of the first line with it.
pub open spec fn glyph_of_name(names: Seq<GlyphName>, name: Seq<u8>) -> Option<u32>
    decreases names.len(),
{
    if names.len() == 0 {
        None
    } else if names[0].name@ == name {
        Some(names[0].glyph)
    } else {
        glyph_of_name(names.drop_first(), name)
    }
}

/// The tables of one font. A table that is not set leaves the answer to
/// the parent of the font.
pub struct FontFuncs {
    /// The table of the glyph of each codepoint, with its variation selector.
    pub glyph: Option<Table<u32>>,
    /// The table of the advance of each glyph in horizontal text.
    pub glyph_h_advance: Option<Table<i32>>,
    /// The table of the advance of each glyph in vertical text.
    pub glyph_v_advance: Option<Table<i32>>,
    /// The table of the origin of each glyph in horizontal text.
    pub glyph_h_origin: Option<Table<(i32, i32)>>,
    /// The table of the origin of each glyph in vertical text.
    pub glyph_v_origin: Option<Table<(i32, i32)>>,
    /// The table of the kerning of each pair of glyphs in horizontal text.
    pub glyph_h_kerning: Option<Table<i32>>,
    /// The table of the kerning of each pair of glyphs in vertical text.
    pub glyph_v_kerning: Option<Table<i32>>,
    /// The table of the extents of each glyph.
    pub glyph_extents: Option<Table<GlyphExtents>>,
    /// The table of each point of the outline of each glyph.
    pub glyph_contour_point: Option<Table<(i32, i32)>>,
    /// The names of the glyphs.
    pub glyph_names: Option<Vec<GlyphName>>,
    /// Whether the tables may no longer be changed.
    pub immutable: bool,
}

/// No table at all.
pub open spec fn no_font_funcs() -> FontFuncs {
    FontFuncs {
        glyph: None,
        glyph_h_advance: None,
        glyph_v_advance: None,
        glyph_h_origin: None,
        glyph_v_origin: None,
        glyph_h_kerning: None,
        glyph_v_kerning: None,
        glyph_extents: None,
        glyph_contour_point: None,
        glyph_names: None,
        immutable: false,
    }
}

impl FontFuncs {
    /// No table at all.
    pub fn new() -> (funcs: FontFuncs)
        ensures
            funcs == no_font_funcs(),
    {
        FontFuncs {
        glyph: None,
        glyph_h_advance: None,
        glyph_v_advance: None,
        glyph_h_origin: None,
        glyph_v_origin: None,
        glyph_h_kerning: None,
        glyph_v_kerning: None,
        glyph_extents: None,
        glyph_contour_point: None,
            glyph_names: None,
            immutable: false,
        }
    }

    /// No table at all, and none can be set.
    pub fn get_empty() -> (funcs: FontFuncs)
        ensures
            funcs == (FontFuncs { immutable: true, ..no_font_funcs() }),
    {
        FontFuncs {
        glyph: None,
        glyph_h_advance: None,
        glyph_v_advance: None,
        glyph_h_origin: None,
        glyph_v_origin: None,
        glyph_h_kerning: None,
        glyph_v_kerning: None,
        glyph_extents: None,
        glyph_contour_point: None,
            glyph_names: None,
            immutable: true,
        }
    }

    /// Forbids further changes of the tables.
    pub fn make_immutable(&mut self)
        ensures
            *final(self) == (FontFuncs { immutable: true, ..*old(self) }),
    {
        self.immutable = true;
    }

    /// Whether the tables may no longer be changed.
    pub fn is_immutable(&self) -> (immutable: bool)
        ensures
            immutable == self.immutable,
    {
        self.immutable
    }

    /// Sets the table of the glyph of each codepoint, with its variation selector, unless the tables may no longer be changed.
    pub fn set_glyph_func(&mut self, table: Table<u32>)
        ensures
            *final(self) == (if old(self).immutable {
                *old(self)
            } else {
                FontFuncs { glyph: Some(table), ..*old(self) }
            }),
    {
        if !self.immutable {
            self.glyph = Some(table);
        }
    }

    /// Sets the table of the advance of each glyph in horizontal text, unless the tables may no longer be changed.
    pub fn set_glyph_h_advance_func(&mut self, table: Table<i32>)
        ensures
            *final(self) == (if old(self).immutable {
                *old(self)
            } else {
                FontFuncs { glyph_h_advance: Some(table), ..*old(self) }
            }),
    {
        if !self.immutable {
            self.glyph_h_advance = Some(table);
        }
    }

    /// Sets the table of the advance of each glyph in vertical text, unless the tables may no longer be changed.
    pub fn set_glyph_v_advance_func(&mut self, table: Table<i32>)
        ensures
            *final(self) == (if old(self).immutable {
                *old(self)
            } else {
                FontFuncs { glyph_v_advance: Some(table), ..*old(self) }
            }),
    {
        if !self.immutable {
            self.glyph_v_advance = Some(table);
        }
    }

    /// Sets the table of the origin of each glyph in horizontal text, unless the tables may no longer be changed.
    pub fn set_glyph_h_origin_func(&mut self, table: Table<(i32, i32)>)
        ensures
            *final(self) == (if old(self).immutable {
                *old(self)
            } else {
                FontFuncs { glyph_h_origin: Some(table), ..*old(self) }
            }),
    {
        if !self.immutable {
            self.glyph_h_origin = Some(table);
        }
    }

    /// Sets the table of the origin of each glyph in vertical text, unless the tables may no longer be changed.
    pub fn set_glyph_v_origin_func(&mut self, table: Table<(i32, i32)>)
        ensures
            *final(self) == (if old(self).immutable {
                *old(self)
            } else {
                FontFuncs { glyph_v_origin: Some(table), ..*old(self) }
            }),
    {
        if !self.immutable {
            self.glyph_v_origin = Some(table);
        }
    }

    /// Sets the table of the kerning of each pair of glyphs in horizontal text, unless the tables may no longer be changed.
    pub fn set_glyph_h_kerning_func(&mut self, table: Table<i32>)
        ensures
            *final(self) == (if old(self).immutable {
                *old(self)
            } else {
                FontFuncs { glyph_h_kerning: Some(table), ..*old(self) }
            }),
    {
        if !self.immutable {
            self.glyph_h_kerning = Some(table);
        }
    }

    /// Sets the table of the kerning of each pair of glyphs in vertical text, unless the tables may no longer be changed.
    pub fn set_glyph_v_kerning_func(&mut self, table: Table<i32>)
        ensures
            *final(self) == (if old(self).immutable {
                *old(self)
            } else {
                FontFuncs { glyph_v_kerning: Some(table), ..*old(self) }
            }),
    {
        if !self.immutable {
            self.glyph_v_kerning = Some(table);
        }
    }

    /// Sets the table of the extents of each glyph, unless the tables may no longer be changed.
    pub fn set_glyph_extents_func(&mut self, table: Table<GlyphExtents>)
        ensures
            *final(self) == (if old(self).immutable {
                *old(self)
            } else {
                FontFuncs { glyph_extents: Some(table), ..*old(self) }
            }),
    {
        if !self.immutable {
            self.glyph_extents = Some(table);
        }
    }

    /// Sets the table of each point of the outline of each glyph, unless the tables may no longer be changed.
    pub fn set_glyph_contour_point_func(&mut self, table: Table<(i32, i32)>)
        ensures
            *final(self) == (if old(self).immutable {
                *old(self)
            } else {
                FontFuncs { glyph_contour_point: Some(table), ..*old(self) }
            }),
    {
        if !self.immutable {
            self.glyph_contour_point = Some(table);
        }
    }

    /// Sets the names of the glyphs, unless the tables may no longer be
    /// changed.
    pub fn set_glyph_name_func(&mut self, names: Vec<GlyphName>)
        ensures
            *final(self) == (if old(self).immutable {
                *old(self)
            } else {
                FontFuncs { glyph_names: Some(names), ..*old(self) }
            }),
    {
        if !self.immutable {
            self.glyph_names = Some(names);
        }
    }
}

/// What a font stands on: its face, or the font that is its parent.
pub enum FontBase {
    Face(Face),
    Parent(Box<Font>),
}

/// A face at a size.
pub struct Font {
    /// What the font stands on.
    pub base: FontBase,
    /// The tables of the font itself.
    pub funcs: FontFuncs,
    /// The scale along x; 0 stands for the units of the face.
    pub x_scale: i32,
    /// The scale along y; 0 stands for the units of the face.
    pub y_scale: i32,
    /// The pixels per em along x; 0 stands for no hinting.
    pub x_ppem: u32,
    /// The pixels per em along y; 0 stands for no hinting.
    pub y_ppem: u32,
    /// Whether the font may no longer be changed.
    pub immutable: bool,
}

/// The font that stands on a font: it has the scale and the hinting of
/// its parent and no table of its own, and its parent can no longer be
/// changed.
pub open spec fn sub_font_of(parent: Font) -> Font {
    Font {
        base: FontBase::Parent(Box::new(Font { immutable: true, ..parent })),
        funcs: no_font_funcs(),
        x_scale: parent.x_scale,
        y_scale: parent.y_scale,
        x_ppem: parent.x_ppem,
        y_ppem: parent.y_ppem,
        immutable: false,
    }
}

/// The text `gid` and the number of a glyph: the name of a glyph that has
/// no other.
pub open spec fn gid_text(glyph: u32) -> Seq<u8> {
    seq![0x67u8, 0x69u8, 0x64u8] + decimal_digits(glyph as nat)
}

/// The glyph that `gid` and a decimal number name: the glyph of that
/// number, where the number fits in 32 bits. Any other text names none.
pub open spec fn gid_value(text: Seq<u8>) -> Option<u32> {
    let rest = text.subrange(3, text.len() as int);
    if starts_with3(text, 0x67, 0x69, 0x64) && rest.len() > 0 && digit_run_end(text, 3)
        == text.len() && decimal_value(rest) <= 0xFFFF_FFFF {
        Some(decimal_value(rest) as u32)
    } else {
        None
    }
}

/// Reads `gid` and a decimal number.
pub fn parse_gid(text: &[u8]) -> (glyph: Option<u32>)
    ensures
        glyph == gid_value(text@),
{
    let n: usize = text.len();
    if n > 3 && text[0] == 0x67 && text[1] == 0x69 && text[2] == 0x64 {
        let (value, end) = read_u32(text, 3);
        if end == n {
            return value;
        }
    }
    None
}

/// Whether bytes start with three given bytes.
pub open spec fn starts_with3(bytes: Seq<u8>, b0: u8, b1: u8, b2: u8) -> bool {
    bytes.len() >= 3 && bytes[0] == b0 && bytes[1] == b1 && bytes[2] == b2
}

/// The place added to a number, wrapping round at the ends of 32 bits.
pub open spec fn wrapping_sum(a: i32, b: i32) -> i32 {
    if a + b > 0x7FFF_FFFF {
        (a + b - 0x1_0000_0000) as i32
    } else if a + b < -0x8000_0000 {
        (a + b + 0x1_0000_0000) as i32
    } else {
        (a + b) as i32
    }
}

/// The difference of two numbers, wrapping round at the ends of 32 bits.
pub open spec fn wrapping_difference(a: i32, b: i32) -> i32 {
    if a - b > 0x7FFF_FFFF {
        (a - b - 0x1_0000_0000) as i32
    } else if a - b < -0x8000_0000 {
        (a - b + 0x1_0000_0000) as i32
    } else {
        (a - b) as i32
    }
}

/// Adds two numbers, wrapping round at the ends of 32 bits.
pub fn add_wrapping(a: i32, b: i32) -> (sum: i32)
    ensures
        sum == wrapping_sum(a, b),
{
    let wide: i64 = a as i64 + b as i64;
    if wide > 0x7FFF_FFFF {
        (wide - 0x1_0000_0000) as i32
    } else if wide < -0x8000_0000 {
        (wide + 0x1_0000_0000) as i32
    } else {
        wide as i32
    }
}

/// Subtracts two numbers, wrapping round at the ends of 32 bits.
pub fn sub_wrapping(a: i32, b: i32) -> (difference: i32)
    ensures
        difference == wrapping_difference(a, b),
{
    let wide: i64 = a as i64 - b as i64;
    if wide > 0x7FFF_FFFF {
        (wide - 0x1_0000_0000) as i32
    } else if wide < -0x8000_0000 {
        (wide + 0x1_0000_0000) as i32
    } else {
        wide as i32
    }
}

/// Looks a glyph up in a list of names.
fn lookup_name(names: &Vec<GlyphName>, glyph: u32) -> (found: Option<&Vec<u8>>)
    ensures
        match found {
            Some(name) => name_of_glyph(names@, glyph) == Some(name@),
            None => name_of_glyph(names@, glyph) is None,
        },
{
    let n: usize = names.len();
    let mut i: usize = 0;
    assert(names@.subrange(0, n as int) =~= names@);
    while i < n
        invariant
            i <= n,
            n == names@.len(),
            name_of_glyph(names@.subrange(i as int, n as int), glyph) == name_of_glyph(
                names@,
                glyph,
            ),
        decreases n - i,
    {
        let ghost rest = names@.subrange(i as int, n as int);
        assert(rest.drop_first() =~= names@.subrange(i + 1, n as int));
        assert(rest[0] == names@[i as int]);
        if names[i].glyph == glyph {
            return Some(&names[i].name);
        }
        i = i + 1;
    }
    assert(names@.subrange(i as int, n as int).len() == 0);
    None
}

/// Looks a name up in a list of names.
fn lookup_glyph_by_name(names: &Vec<GlyphName>, name: &[u8]) -> (found: Option<u32>)
    ensures
        found == glyph_of_name(names@, name@),
{
    let n: usize = names.len();
    let mut i: usize = 0;
    assert(names@.subrange(0, n as int) =~= names@);
    while i < n
        invariant
            i <= n,
            n == names@.len(),
            glyph_of_name(names@.subrange(i as int, n as int), name@) == glyph_of_name(
                names@,
                name@,
            ),
        decreases n - i,
    {
        let ghost rest = names@.subrange(i as int, n as int);
        assert(rest.drop_first() =~= names@.subrange(i + 1, n as int));
        assert(rest[0] == names@[i as int]);
        if same_bytes(names[i].name.as_slice(), name) {
            return Some(names[i].glyph);
        }
        i = i + 1;
    }
    assert(names@.subrange(i as int, n as int).len() == 0);
    None
}

impl Font {
    /// The first table of the glyph of each codepoint, with its variation selector on the way from this font up through its parents.
    pub open spec fn glyph_table(&self) -> Option<Table<u32>>
        decreases self,
    {
        match self.funcs.glyph {
            Some(table) => Some(table),
            None => match self.base {
                FontBase::Parent(parent) => parent.glyph_table(),
                FontBase::Face(_) => None,
            },
        }
    }

    /// Finds the first table of the glyph of each codepoint, with its variation selector on the way up.
    fn find_glyph(&self) -> (found: Option<&Table<u32>>)
        ensures
            match found {
                Some(table) => self.glyph_table() == Some(*table),
                None => self.glyph_table() is None,
            },
        decreases self,
    {
        match &self.funcs.glyph {
            Some(table) => Some(table),
            None => match &self.base {
                FontBase::Parent(parent) => parent.find_glyph(),
                FontBase::Face(_) => None,
            },
        }
    }

    /// The first table of the advance of each glyph in horizontal text on the way from this font up through its parents.
    pub open spec fn glyph_h_advance_table(&self) -> Option<Table<i32>>
        decreases self,
    {
        match self.funcs.glyph_h_advance {
            Some(table) => Some(table),
            None => match self.base {
                FontBase::Parent(parent) => parent.glyph_h_advance_table(),
                FontBase::Face(_) => None,
            },
        }
    }

    /// Finds the first table of the advance of each glyph in horizontal text on the way up.
    fn find_glyph_h_advance(&self) -> (found: Option<&Table<i32>>)
        ensures
            match found {
                Some(table) => self.glyph_h_advance_table() == Some(*table),
                None => self.glyph_h_advance_table() is None,
            },
        decreases self,
    {
        match &self.funcs.glyph_h_advance {
            Some(table) => Some(table),
            None => match &self.base {
                FontBase::Parent(parent) => parent.find_glyph_h_advance(),
                FontBase::Face(_) => None,
            },
        }
    }

    /// The first table of the advance of each glyph in vertical text on the way from this font up through its parents.
    pub open spec fn glyph_v_advance_table(&self) -> Option<Table<i32>>
        decreases self,
    {
        match self.funcs.glyph_v_advance {
            Some(table) => Some(table),
            None => match self.base {
                FontBase::Parent(parent) => parent.glyph_v_advance_table(),
                FontBase::Face(_) => None,
            },
        }
    }

    /// Finds the first table of the advance of each glyph in vertical text on the way up.
    fn find_glyph_v_advance(&self) -> (found: Option<&Table<i32>>)
        ensures
            match found {
                Some(table) => self.glyph_v_advance_table() == Some(*table),
                None => self.glyph_v_advance_table() is None,
            },
        decreases self,
    {
        match &self.funcs.glyph_v_advance {
            Some(table) => Some(table),
            None => match &self.base {
                FontBase::Parent(parent) => parent.find_glyph_v_advance(),
                FontBase::Face(_) => None,
            },
        }
    }

    /// The first table of the origin of each glyph in horizontal text on the way from this font up through its parents.
    pub open spec fn glyph_h_origin_table(&self) -> Option<Table<(i32, i32)>>
        decreases self,
    {
        match self.funcs.glyph_h_origin {
            Some(table) => Some(table),
            None => match self.base {
                FontBase::Parent(parent) => parent.glyph_h_origin_table(),
                FontBase::Face(_) => None,
            },
        }
    }

    /// Finds the first table of the origin of each glyph in horizontal text on the way up.
    fn find_glyph_h_origin(&self) -> (found: Option<&Table<(i32, i32)>>)
        ensures
            match found {
                Some(table) => self.glyph_h_origin_table() == Some(*table),
                None => self.glyph_h_origin_table() is None,
            },
        decreases self,
    {
        match &self.funcs.glyph_h_origin {
            Some(table) => Some(table),
            None => match &self.base {
                FontBase::Parent(parent) => parent.find_glyph_h_origin(),
                FontBase::Face(_) => None,
            },
        }
    }

    /// The first table of the origin of each glyph in vertical text on the way from this font up through its parents.
    pub open spec fn glyph_v_origin_table(&self) -> Option<Table<(i32, i32)>>
        decreases self,
    {
        match self.funcs.glyph_v_origin {
            Some(table) => Some(table),
            None => match self.base {
                FontBase::Parent(parent) => parent.glyph_v_origin_table(),
                FontBase::Face(_) => None,
            },
        }
    }

    /// Finds the first table of the origin of each glyph in vertical text on the way up.
    fn find_glyph_v_origin(&self) -> (found: Option<&Table<(i32, i32)>>)
        ensures
            match found {
                Some(table) => self.glyph_v_origin_table() == Some(*table),
                None => self.glyph_v_origin_table() is None,
            },
        decreases self,
    {
        match &self.funcs.glyph_v_origin {
            Some(table) => Some(table),
            None => match &self.base {
                FontBase::Parent(parent) => parent.find_glyph_v_origin(),
                FontBase::Face(_) => None,
            },
        }
    }

    /// The first table of the kerning of each pair of glyphs in horizontal text on the way from this font up through its parents.
    pub open spec fn glyph_h_kerning_table(&self) -> Option<Table<i32>>
        decreases self,
    {
        match self.funcs.glyph_h_kerning {
            Some(table) => Some(table),
            None => match self.base {
                FontBase::Parent(parent) => parent.glyph_h_kerning_table(),
                FontBase::Face(_) => None,
            },
        }
    }

    /// Finds the first table of the kerning of each pair of glyphs in horizontal text on the way up.
    fn find_glyph_h_kerning(&self) -> (found: Option<&Table<i32>>)
        ensures
            match found {
                Some(table) => self.glyph_h_kerning_table() == Some(*table),
                None => self.glyph_h_kerning_table() is None,
            },
        decreases self,
    {
        match &self.funcs.glyph_h_kerning {
            Some(table) => Some(table),
            None => match &self.base {
                FontBase::Parent(parent) => parent.find_glyph_h_kerning(),
                FontBase::Face(_) => None,
            },
        }
    }

    /// The first table of the kerning of each pair of glyphs in vertical text on the way from this font up through its parents.
    pub open spec fn glyph_v_kerning_table(&self) -> Option<Table<i32>>
        decreases self,
    {
        match self.funcs.glyph_v_kerning {
            Some(table) => Some(table),
            None => match self.base {
                FontBase::Parent(parent) => parent.glyph_v_kerning_table(),
                FontBase::Face(_) => None,
            },
        }
    }

    /// Finds the first table of the kerning of each pair of glyphs in vertical text on the way up.
    fn find_glyph_v_kerning(&self) -> (found: Option<&Table<i32>>)
        ensures
            match found {
                Some(table) => self.glyph_v_kerning_table() == Some(*table),
                None => self.glyph_v_kerning_table() is None,
            },
        decreases self,
    {
        match &self.funcs.glyph_v_kerning {
            Some(table) => Some(table),
            None => match &self.base {
                FontBase::Parent(parent) => parent.find_glyph_v_kerning(),
                FontBase::Face(_) => None,
            },
        }
    }

    /// The first table of the extents of each glyph on the way from this font up through its parents.
    pub open spec fn glyph_extents_table(&self) -> Option<Table<GlyphExtents>>
        decreases self,
    {
        match self.funcs.glyph_extents {
            Some(table) => Some(table),
            None => match self.base {
                FontBase::Parent(parent) => parent.glyph_extents_table(),
                FontBase::Face(_) => None,
            },
        }
    }

    /// Finds the first table of the extents of each glyph on the way up.
    fn find_glyph_extents(&self) -> (found: Option<&Table<GlyphExtents>>)
        ensures
            match found {
                Some(table) => self.glyph_extents_table() == Some(*table),
                None => self.glyph_extents_table() is None,
            },
        decreases self,
    {
        match &self.funcs.glyph_extents {
            Some(table) => Some(table),
            None => match &self.base {
                FontBase::Parent(parent) => parent.find_glyph_extents(),
                FontBase::Face(_) => None,
            },
        }
    }

    /// The first table of each point of the outline of each glyph on the way from this font up through its parents.
    pub open spec fn glyph_contour_point_table(&self) -> Option<Table<(i32, i32)>>
        decreases self,
    {
        match self.funcs.glyph_contour_point {
            Some(table) => Some(table),
            None => match self.base {
                FontBase::Parent(parent) => parent.glyph_contour_point_table(),
                FontBase::Face(_) => None,
            },
        }
    }

    /// Finds the first table of each point of the outline of each glyph on the way up.
    fn find_glyph_contour_point(&self) -> (found: Option<&Table<(i32, i32)>>)
        ensures
            match found {
                Some(table) => self.glyph_contour_point_table() == Some(*table),
                None => self.glyph_contour_point_table() is None,
            },
        decreases self,
    {
        match &self.funcs.glyph_contour_point {
            Some(table) => Some(table),
            None => match &self.base {
                FontBase::Parent(parent) => parent.find_glyph_contour_point(),
                FontBase::Face(_) => None,
            },
        }
    }

    /// The first list of names on the way from this font up through its
    /// parents.
    pub open spec fn glyph_names_table(&self) -> Option<Seq<GlyphName>>
        decreases self,
    {
        match self.funcs.glyph_names {
            Some(names) => Some(names@),
            None => match self.base {
                FontBase::Parent(parent) => parent.glyph_names_table(),
                FontBase::Face(_) => None,
            },
        }
    }

    /// Finds the first list of names on the way up.
    fn find_glyph_names(&self) -> (found: Option<&Vec<GlyphName>>)
        ensures
            match found {
                Some(names) => self.glyph_names_table() == Some(names@),
                None => self.glyph_names_table() is None,
            },
        decreases self,
    {
        match &self.funcs.glyph_names {
            Some(names) => Some(names),
            None => match &self.base {
                FontBase::Parent(parent) => parent.find_glyph_names(),
                FontBase::Face(_) => None,
            },
        }
    }

    /// The face of the font: its own, or that of its parent.
    pub open spec fn face_model(&self) -> FaceModel
        decreases self,
    {
        match self.base {
            FontBase::Face(face) => face@,
            FontBase::Parent(parent) => parent.face_model(),
        }
    }

    /// A font of a face, with no table, no scale and no hinting.
    pub fn new(face: Face) -> (font: Font)
        ensures
            font.base == FontBase::Face(face),
            font.funcs == no_font_funcs(),
            font.x_scale == 0 && font.y_scale == 0,
            font.x_ppem == 0 && font.y_ppem == 0,
            !font.immutable,
    {
        Font {
            base: FontBase::Face(face),
            funcs: FontFuncs::new(),
            x_scale: 0,
            y_scale: 0,
            x_ppem: 0,
            y_ppem: 0,
            immutable: false,
        }
    }

    /// The font of no face, which can never be changed.
    pub fn get_empty() -> (font: Font)
        ensures
            font.base is Face,
            font.face_model().data.len() == 0,
            font.funcs == (FontFuncs { immutable: true, ..no_font_funcs() }),
            font.x_scale == 0 && font.y_scale == 0,
            font.x_ppem == 0 && font.y_ppem == 0,
            font.immutable,
    {
        Font {
            base: FontBase::Face(Face::get_empty()),
            funcs: FontFuncs::get_empty(),
            x_scale: 0,
            y_scale: 0,
            x_ppem: 0,
            y_ppem: 0,
            immutable: true,
        }
    }

    /// A font that stands on this one: it has the face, the scale and the
    /// hinting of this font and no table of its own, so that this font
    /// answers for it until a table is set. This font, now its parent, can
    /// no longer be changed.
    pub fn create_sub_font(self) -> (sub: Font)
        ensures
            sub == sub_font_of(self),
    {
        let x_scale: i32 = self.x_scale;
        let y_scale: i32 = self.y_scale;
        let x_ppem: u32 = self.x_ppem;
        let y_ppem: u32 = self.y_ppem;
        let mut parent = self;
        parent.immutable = true;
        Font {
            base: FontBase::Parent(Box::new(parent)),
            funcs: FontFuncs::new(),
            x_scale,
            y_scale,
            x_ppem,
            y_ppem,
            immutable: false,
        }
    }

    /// The font that this one stands on, if it stands on one.
    pub fn parent(&self) -> (parent: Option<&Font>)
        ensures
            match parent {
                Some(p) => self.base == FontBase::Parent(Box::new(*p)),
                None => self.base is Face,
            },
    {
        match &self.base {
            FontBase::Parent(p) => Some(&**p),
            FontBase::Face(_) => None,
        }
    }

    /// The face of the font.
    pub fn face(&self) -> (face: &Face)
        ensures
            face@ == self.face_model(),
        decreases self,
    {
        match &self.base {
            FontBase::Face(face) => face,
            FontBase::Parent(parent) => parent.face(),
        }
    }

    /// Sets the tables of the font, unless the font may no longer be
    /// changed.
    pub fn set_funcs(&mut self, funcs: FontFuncs)
        ensures
            *final(self) == (if old(self).immutable {
                *old(self)
            } else {
                Font { funcs, ..*old(self) }
            }),
    {
        if !self.immutable {
            self.funcs = funcs;
        }
    }

    /// The scale along x and along y.
    pub fn scale(&self) -> (scale: (i32, i32))
        ensures
            scale == (self.x_scale, self.y_scale),
    {
        (self.x_scale, self.y_scale)
    }

    /// Sets the scale, unless the font may no longer be changed.
    pub fn set_scale(&mut self, x_scale: i32, y_scale: i32)
        ensures
            *final(self) == (if old(self).immutable {
                *old(self)
            } else {
                Font { x_scale, y_scale, ..*old(self) }
            }),
    {
        if !self.immutable {
            self.x_scale = x_scale;
            self.y_scale = y_scale;
        }
    }

    /// The pixels per em along x and along y.
    pub fn ppem(&self) -> (ppem: (u32, u32))
        ensures
            ppem == (self.x_ppem, self.y_ppem),
    {
        (self.x_ppem, self.y_ppem)
    }

    /// Sets the pixels per em, unless the font may no longer be changed.
    pub fn set_ppem(&mut self, x_ppem: u32, y_ppem: u32)
        ensures
            *final(self) == (if old(self).immutable {
                *old(self)
            } else {
                Font { x_ppem, y_ppem, ..*old(self) }
            }),
    {
        if !self.immutable {
            self.x_ppem = x_ppem;
            self.y_ppem = y_ppem;
        }
    }

    /// Forbids further changes of the font.
    pub fn make_immutable(&mut self)
        ensures
            *final(self) == (Font { immutable: true, ..*old(self) }),
    {
        self.immutable = true;
    }

    /// Whether the font may no longer be changed.
    pub fn is_immutable(&self) -> (immutable: bool)
        ensures
            immutable == self.immutable,
    {
        self.immutable
    }

    /// The glyph of a codepoint with a variation selector, where the first
    /// table of glyphs on the way up has one.
    pub open spec fn glyph_for(&self, unicode: u32, variation_selector: u32) -> Option<u32> {
        match self.glyph_table() {
            Some(table) => table.value(unicode, variation_selector),
            None => None,
        }
    }

    /// The advance of a glyph in horizontal text, and 0 where no table
    /// says.
    pub open spec fn h_advance(&self, glyph: u32) -> i32 {
        match self.glyph_h_advance_table() {
            Some(table) => match table.value(glyph, 0) {
                Some(advance) => advance,
                None => 0,
            },
            None => 0,
        }
    }

    /// The advance of a glyph in vertical text, and 0 where no table says.
    pub open spec fn v_advance(&self, glyph: u32) -> i32 {
        match self.glyph_v_advance_table() {
            Some(table) => match table.value(glyph, 0) {
                Some(advance) => advance,
                None => 0,
            },
            None => 0,
        }
    }

    /// The origin of a glyph in horizontal text, where a table says.
    pub open spec fn h_origin(&self, glyph: u32) -> Option<(i32, i32)> {
        match self.glyph_h_origin_table() {
            Some(table) => table.value(glyph, 0),
            None => None,
        }
    }

    /// The origin of a glyph in vertical text, where a table says.
    pub open spec fn v_origin(&self, glyph: u32) -> Option<(i32, i32)> {
        match self.glyph_v_origin_table() {
            Some(table) => table.value(glyph, 0),
            None => None,
        }
    }

    /// The kerning of two glyphs in horizontal text, and 0 where no table
    /// says.
    pub open spec fn h_kerning(&self, left_glyph: u32, right_glyph: u32) -> i32 {
        match self.glyph_h_kerning_table() {
            Some(table) => match table.value(left_glyph, right_glyph) {
                Some(kerning) => kerning,
                None => 0,
            },
            None => 0,
        }
    }

    /// The kerning of two glyphs in vertical text, and 0 where no table
    /// says.
    pub open spec fn v_kerning(&self, top_glyph: u32, bottom_glyph: u32) -> i32 {
        match self.glyph_v_kerning_table() {
            Some(table) => match table.value(top_glyph, bottom_glyph) {
                Some(kerning) => kerning,
                None => 0,
            },
            None => 0,
        }
    }

    /// The extents of a glyph, where a table says.
    pub open spec fn extents(&self, glyph: u32) -> Option<GlyphExtents> {
        match self.glyph_extents_table() {
            Some(table) => table.value(glyph, 0),
            None => None,
        }
    }

    /// A point of the outline of a glyph, where a table says.
    pub open spec fn contour_point(&self, glyph: u32, point_index: u32) -> Option<(i32, i32)> {
        match self.glyph_contour_point_table() {
            Some(table) => table.value(glyph, point_index),
            None => None,
        }
    }

    /// The advance of a glyph in text of a direction: along x in
    /// horizontal text, along y in any other.
    pub open spec fn advance_for_direction(&self, glyph: u32, direction: Direction) -> (i32, i32) {
        if direction == Direction::Ltr || direction == Direction::Rtl {
            (self.h_advance(glyph), 0)
        } else {
            (0, self.v_advance(glyph))
        }
    }

    /// The origin of a glyph in text of a direction: the origin for
    /// horizontal text in horizontal text, that for vertical text in any
    /// other, and the point (0, 0) where no table says.
    pub open spec fn origin_for_direction(&self, glyph: u32, direction: Direction) -> (i32, i32) {
        let origin = if direction == Direction::Ltr || direction == Direction::Rtl {
            self.h_origin(glyph)
        } else {
            self.v_origin(glyph)
        };
        match origin {
            Some(point) => point,
            None => (0, 0),
        }
    }

    /// The kerning of two glyphs in text of a direction: along x in
    /// horizontal text, along y in any other.
    pub open spec fn kerning_for_direction(
        &self,
        first_glyph: u32,
        second_glyph: u32,
        direction: Direction,
    ) -> (i32, i32) {
        if direction == Direction::Ltr || direction == Direction::Rtl {
            (self.h_kerning(first_glyph, second_glyph), 0)
        } else {
            (0, self.v_kerning(first_glyph, second_glyph))
        }
    }

    /// The extents of a glyph, measured from its origin in text of a
    /// direction.
    pub open spec fn extents_for_origin(&self, glyph: u32, direction: Direction) -> Option<
        GlyphExtents,
    > {
        match self.extents(glyph) {
            Some(extents) => Some(
                GlyphExtents {
                    x_bearing: wrapping_difference(
                        extents.x_bearing,
                        self.origin_for_direction(glyph, direction).0,
                    ),
                    y_bearing: wrapping_difference(
                        extents.y_bearing,
                        self.origin_for_direction(glyph, direction).1,
                    ),
                    width: extents.width,
                    height: extents.height,
                },
            ),
            None => None,
        }
    }

    /// A point of the outline of a glyph, measured from the origin of the
    /// glyph in text of a direction.
    pub open spec fn contour_point_for_origin(
        &self,
        glyph: u32,
        point_index: u32,
        direction: Direction,
    ) -> Option<(i32, i32)> {
        match self.contour_point(glyph, point_index) {
            Some(point) => Some(
                (
                    wrapping_difference(point.0, self.origin_for_direction(glyph, direction).0),
                    wrapping_difference(point.1, self.origin_for_direction(glyph, direction).1),
                ),
            ),
            None => None,
        }
    }

    /// The name of a glyph as bytes: the name that the first list of names
    /// on the way up gives it, where that is ASCII, else `gid` and the
    /// number of the glyph.
    pub open spec fn glyph_text(&self, glyph: u32) -> Seq<u8> {
        match self.glyph_names_table() {
            Some(names) => match name_of_glyph(names, glyph) {
                Some(name) => if all_ascii(name) {
                    name
                } else {
                    gid_text(glyph)
                },
                None => gid_text(glyph),
            },
            None => gid_text(glyph),
        }
    }

    /// The glyph that a text names. A name of the first list of names on
    /// the way up names its glyph. Else `gid` and a decimal number name
    /// the glyph of that number, and `uni` and a hexadecimal number name the
    /// glyph of the codepoint of that number. Any other text names none.
    pub open spec fn glyph_from_text(&self, text: Seq<u8>) -> Option<u32> {
        let named = match self.glyph_names_table() {
            Some(names) => glyph_of_name(names, text),
            None => None,
        };
        let rest = text.subrange(3, text.len() as int);
        if named is Some {
            named
        } else if gid_value(text) is Some {
            gid_value(text)
        } else if starts_with3(text, 0x75, 0x6E, 0x69) && rest.len() > 0 && all_hex_digits(rest)
            && hex_value(rest) <= 0xFFFF_FFFF {
            self.glyph_for(hex_value(rest) as u32, 0)
        } else {
            None
        }
    }

    /// The glyph of a codepoint. A variation selector of number 0 asks
    /// for the glyph that the codepoint has by default.
    pub fn get_glyph(&self, unicode: char, variation_selector: char) -> (glyph: Option<u32>)
        ensures
            glyph == self.glyph_for(unicode as u32, variation_selector as u32),
    {
        match self.find_glyph() {
            Some(table) => table.get(unicode as u32, variation_selector as u32),
            None => None,
        }
    }

    /// Whether the font, or a font that it stands on, has a table of
    /// glyphs.
    pub fn has_glyph_table(&self) -> (has: bool)
        ensures
            has == (self.glyph_table() is Some),
    {
        self.find_glyph().is_some()
    }

    /// The glyph of a codepoint given by its number.
    pub fn get_nominal_glyph(&self, unicode: u32) -> (glyph: Option<u32>)
        ensures
            glyph == self.glyph_for(unicode, 0),
    {
        match self.find_glyph() {
            Some(table) => table.get(unicode, 0),
            None => None,
        }
    }

    /// The advance of a glyph in horizontal text.
    pub fn get_glyph_h_advance(&self, glyph: u32) -> (advance: i32)
        ensures
            advance == self.h_advance(glyph),
    {
        match self.find_glyph_h_advance() {
            Some(table) => match table.get(glyph, 0) {
                Some(advance) => advance,
                None => 0,
            },
            None => 0,
        }
    }

    /// The advance of a glyph in vertical text.
    pub fn get_glyph_v_advance(&self, glyph: u32) -> (advance: i32)
        ensures
            advance == self.v_advance(glyph),
    {
        match self.find_glyph_v_advance() {
            Some(table) => match table.get(glyph, 0) {
                Some(advance) => advance,
                None => 0,
            },
            None => 0,
        }
    }

    /// The origin of a glyph in horizontal text.
    pub fn get_glyph_h_origin(&self, glyph: u32) -> (origin: Option<(i32, i32)>)
        ensures
            origin == self.h_origin(glyph),
    {
        match self.find_glyph_h_origin() {
            Some(table) => table.get(glyph, 0),
            None => None,
        }
    }

    /// The origin of a glyph in vertical text.
    pub fn get_glyph_v_origin(&self, glyph: u32) -> (origin: Option<(i32, i32)>)
        ensures
            origin == self.v_origin(glyph),
    {
        match self.find_glyph_v_origin() {
            Some(table) => table.get(glyph, 0),
            None => None,
        }
    }

    /// The kerning of two glyphs in horizontal text.
    pub fn get_glyph_h_kerning(&self, left_glyph: u32, right_glyph: u32) -> (kerning: i32)
        ensures
            kerning == self.h_kerning(left_glyph, right_glyph),
    {
        match self.find_glyph_h_kerning() {
            Some(table) => match table.get(left_glyph, right_glyph) {
                Some(kerning) => kerning,
                None => 0,
            },
            None => 0,
        }
    }

    /// The kerning of two glyphs in vertical text.
    pub fn get_glyph_v_kerning(&self, top_glyph: u32, bottom_glyph: u32) -> (kerning: i32)
        ensures
            kerning == self.v_kerning(top_glyph, bottom_glyph),
    {
        match self.find_glyph_v_kerning() {
            Some(table) => match table.get(top_glyph, bottom_glyph) {
                Some(kerning) => kerning,
                None => 0,
            },
            None => 0,
        }
    }

    /// The extents of a glyph.
    pub fn get_glyph_extents(&self, glyph: u32) -> (extents: Option<GlyphExtents>)
        ensures
            extents == self.extents(glyph),
    {
        match self.find_glyph_extents() {
            Some(table) => table.get(glyph, 0),
            None => None,
        }
    }

    /// A point of the outline of a glyph.
    pub fn get_glyph_contour_point(&self, glyph: u32, point_index: u32) -> (point: Option<
        (i32, i32),
    >)
        ensures
            point == self.contour_point(glyph, point_index),
    {
        match self.find_glyph_contour_point() {
            Some(table) => table.get(glyph, point_index),
            None => None,
        }
    }

    /// The advance of a glyph in text of a direction.
    pub fn get_glyph_advance_for_direction(&self, glyph: u32, direction: Direction) -> (advance: (
        i32,
        i32,
    ))
        ensures
            advance == self.advance_for_direction(glyph, direction),
    {
        if direction.is_horizontal() {
            (self.get_glyph_h_advance(glyph), 0)
        } else {
            (0, self.get_glyph_v_advance(glyph))
        }
    }

    /// The origin of a glyph in text of a direction.
    pub fn get_glyph_origin_for_direction(&self, glyph: u32, direction: Direction) -> (origin: (
        i32,
        i32,
    ))
        ensures
            origin == self.origin_for_direction(glyph, direction),
    {
        let origin = if direction.is_horizontal() {
            self.get_glyph_h_origin(glyph)
        } else {
            self.get_glyph_v_origin(glyph)
        };
        match origin {
            Some(point) => point,
            None => (0, 0),
        }
    }

    /// Moves a point by the origin of a glyph in text of a direction.
    pub fn add_glyph_origin_for_direction(
        &self,
        glyph: u32,
        direction: Direction,
        x: &mut i32,
        y: &mut i32,
    )
        ensures
            *final(x) == wrapping_sum(*old(x), self.origin_for_direction(glyph, direction).0),
            *final(y) == wrapping_sum(*old(y), self.origin_for_direction(glyph, direction).1),
    {
        let origin = self.get_glyph_origin_for_direction(glyph, direction);
        *x = add_wrapping(*x, origin.0);
        *y = add_wrapping(*y, origin.1);
    }

    /// Moves a point back by the origin of a glyph in text of a direction.
    pub fn subtract_glyph_origin_for_direction(
        &self,
        glyph: u32,
        direction: Direction,
        x: &mut i32,
        y: &mut i32,
    )
        ensures
            *final(x) == wrapping_difference(
                *old(x),
                self.origin_for_direction(glyph, direction).0,
            ),
            *final(y) == wrapping_difference(
                *old(y),
                self.origin_for_direction(glyph, direction).1,
            ),
    {
        let origin = self.get_glyph_origin_for_direction(glyph, direction);
        *x = sub_wrapping(*x, origin.0);
        *y = sub_wrapping(*y, origin.1);
    }

    /// The kerning of two glyphs in text of a direction.
    pub fn get_glyph_kerning_for_direction(
        &self,
        first_glyph: u32,
        second_glyph: u32,
        direction: Direction,
    ) -> (kerning: (i32, i32))
        ensures
            kerning == self.kerning_for_direction(first_glyph, second_glyph, direction),
    {
        if direction.is_horizontal() {
            (self.get_glyph_h_kerning(first_glyph, second_glyph), 0)
        } else {
            (0, self.get_glyph_v_kerning(first_glyph, second_glyph))
        }
    }

    /// The extents of a glyph, measured from its origin in text of a
    /// direction.
    pub fn get_glyph_extents_for_origin(&self, glyph: u32, direction: Direction) -> (extents:
        Option<GlyphExtents>)
        ensures
            extents == self.extents_for_origin(glyph, direction),
    {
        match self.get_glyph_extents(glyph) {
            Some(extents) => {
                let origin = self.get_glyph_origin_for_direction(glyph, direction);
                Some(
                    GlyphExtents {
                        x_bearing: sub_wrapping(extents.x_bearing, origin.0),
                        y_bearing: sub_wrapping(extents.y_bearing, origin.1),
                        width: extents.width,
                        height: extents.height,
                    },
                )
            },
            None => None,
        }
    }

    /// A point of the outline of a glyph, measured from the origin of the
    /// glyph in text of a direction.
    pub fn get_glyph_contour_point_for_origin(
        &self,
        glyph: u32,
        point_index: u32,
        direction: Direction,
    ) -> (point: Option<(i32, i32)>)
        ensures
            point == self.contour_point_for_origin(glyph, point_index, direction),
    {
        match self.get_glyph_contour_point(glyph, point_index) {
            Some(point) => {
                let origin = self.get_glyph_origin_for_direction(glyph, direction);
                Some((sub_wrapping(point.0, origin.0), sub_wrapping(point.1, origin.1)))
            },
            None => None,
        }
    }

    /// The name of a glyph as bytes: see `glyph_text`.
    pub fn glyph_name_bytes(&self, glyph: u32) -> (name: Vec<u8>)
        ensures
            name@ == self.glyph_text(glyph),
            all_ascii(name@),
    {
        proof {
            lemma_decimal_digits(glyph as nat);
            assert(all_ascii(gid_text(glyph))) by {
                assert forall|i: int| 0 <= i < gid_text(glyph).len() implies #[trigger] gid_text(
                    glyph,
                )[i] < 0x80 by {
                    if i >= 3 {
                        assert(gid_text(glyph)[i] == decimal_digits(glyph as nat)[i - 3]);
                    }
                }
            }
        }
        let mut out: Vec<u8> = Vec::new();
        match self.find_glyph_names() {
            Some(names) => match lookup_name(names, glyph) {
                Some(name) => {
                    if is_all_ascii(name.as_slice()) {
                        crate::text::write_bytes(&mut out, name.as_slice());
                        assert(out@ =~= name@);
                        return out;
                    }
                },
                None => {},
            },
            None => {},
        }
        out.push(0x67);
        out.push(0x69);
        out.push(0x64);
        write_u32(&mut out, glyph);
        assert(out@ =~= gid_text(glyph));
        out
    }

    /// The name of a glyph: see `glyph_text`.
    pub fn glyph_to_string(&self, glyph: u32) -> (name: String)
        ensures
            name@ == ascii_chars(self.glyph_text(glyph)),
    {
        let bytes = self.glyph_name_bytes(glyph);
        proof {
            lemma_ascii_is_utf8(bytes@);
        }
        match crate::common::string_from_utf8(bytes) {
            Some(name) => name,
            None => String::new(),
        }
    }

    /// The glyph that bytes name: see `glyph_from_text`.
    pub fn glyph_from_bytes(&self, text: &[u8]) -> (glyph: Option<u32>)
        ensures
            glyph == self.glyph_from_text(text@),
    {
        match self.find_glyph_names() {
            Some(names) => match lookup_glyph_by_name(names, text) {
                Some(glyph) => {
                    return Some(glyph);
                },
                None => {},
            },
            None => {},
        }
        let n: usize = text.len();
        match parse_gid(text) {
            Some(glyph) => {
                return Some(glyph);
            },
            None => {},
        }
        if n > 3 && text[0] == 0x75 && text[1] == 0x6E && text[2] == 0x69 {
            return match read_hex_u32(text, 3) {
                Some(unicode) => self.get_nominal_glyph(unicode),
                None => None,
            };
        }
        None
    }

    /// The glyph that a text names: see `glyph_from_text`.
    pub fn glyph_from_string(&self, s: &str) -> (glyph: Option<u32>)
        ensures
            glyph == self.glyph_from_text(s.spec_bytes()),
    {
        self.glyph_from_bytes(s.as_bytes())
    }
}

/// Whether all bytes are ASCII.
pub fn is_all_ascii(bytes: &[u8]) -> (ascii: bool)
    ensures
        ascii == all_ascii(bytes@),
{
    let mut i: usize = 0;
    while i < bytes.len()
        invariant
            i <= bytes@.len(),
            forall|k: int| 0 <= k < i ==> #[trigger] bytes@[k] < 0x80,
        decreases bytes@.len() - i,
    {
        if bytes[i] >= 0x80 {
            return false;
        }
        i = i + 1;
    }
    true
}

/// A font that stands on a parent and has no table of advances itself
/// gives each glyph the advance that its parent gives it, and a table of
/// its own takes the place of the parent's.
pub proof fn lemma_sub_font_delegates(font: Font, glyph: u32)
    ensures
        font.funcs.glyph_h_advance is None && font.base is Parent ==> font.h_advance(glyph)
            == font.base->Parent_0.h_advance(glyph),
        font.funcs.glyph_v_advance is None && font.base is Parent ==> font.v_advance(glyph)
            == font.base->Parent_0.v_advance(glyph),
        font.funcs.glyph_h_advance is Some ==> font.glyph_h_advance_table()
            == font.funcs.glyph_h_advance,
        font.funcs.glyph_h_advance is None && font.base is Face ==> font.h_advance(glyph) == 0,
{
}

/// A font that has just been made to stand on a parent answers every
/// question as its parent does, and has the face of its parent.
pub proof fn lemma_sub_font_answers_as_parent(
    parent: Font,
    glyph: u32,
    second: u32,
    direction: Direction,
    text: Seq<u8>,
)
    ensures
        sub_font_of(parent).glyph_for(glyph, second) == parent.glyph_for(glyph, second),
        sub_font_of(parent).h_advance(glyph) == parent.h_advance(glyph),
        sub_font_of(parent).v_advance(glyph) == parent.v_advance(glyph),
        sub_font_of(parent).h_origin(glyph) == parent.h_origin(glyph),
        sub_font_of(parent).v_origin(glyph) == parent.v_origin(glyph),
        sub_font_of(parent).h_kerning(glyph, second) == parent.h_kerning(glyph, second),
        sub_font_of(parent).v_kerning(glyph, second) == parent.v_kerning(glyph, second),
        sub_font_of(parent).extents(glyph) == parent.extents(glyph),
        sub_font_of(parent).contour_point(glyph, second) == parent.contour_point(glyph, second),
        sub_font_of(parent).advance_for_direction(glyph, direction)
            == parent.advance_for_direction(glyph, direction),
        sub_font_of(parent).origin_for_direction(glyph, direction) == parent.origin_for_direction(
            glyph,
            direction,
        ),
        sub_font_of(parent).glyph_text(glyph) == parent.glyph_text(glyph),
        sub_font_of(parent).glyph_from_text(text) == parent.glyph_from_text(text),
        sub_font_of(parent).face_model() == parent.face_model(),
{
    let sub = sub_font_of(parent);
    let frozen = Font { immutable: true, ..parent };
    assert(sub.glyph_table() == frozen.glyph_table());
    assert(frozen.glyph_table() == parent.glyph_table());
    assert(sub.glyph_h_advance_table() == frozen.glyph_h_advance_table());
    assert(frozen.glyph_h_advance_table() == parent.glyph_h_advance_table());
    assert(sub.glyph_v_advance_table() == frozen.glyph_v_advance_table());
    assert(frozen.glyph_v_advance_table() == parent.glyph_v_advance_table());
    assert(sub.glyph_h_origin_table() == frozen.glyph_h_origin_table());
    assert(frozen.glyph_h_origin_table() == parent.glyph_h_origin_table());
    assert(sub.glyph_v_origin_table() == frozen.glyph_v_origin_table());
    assert(frozen.glyph_v_origin_table() == parent.glyph_v_origin_table());
    assert(sub.glyph_h_kerning_table() == frozen.glyph_h_kerning_table());
    assert(frozen.glyph_h_kerning_table() == parent.glyph_h_kerning_table());
    assert(sub.glyph_v_kerning_table() == frozen.glyph_v_kerning_table());
    assert(frozen.glyph_v_kerning_table() == parent.glyph_v_kerning_table());
    assert(sub.glyph_extents_table() == frozen.glyph_extents_table());
    assert(frozen.glyph_extents_table() == parent.glyph_extents_table());
    assert(sub.glyph_contour_point_table() == frozen.glyph_contour_point_table());
    assert(frozen.glyph_contour_point_table() == parent.glyph_contour_point_table());
    assert(sub.glyph_names_table() == frozen.glyph_names_table());
    assert(frozen.glyph_names_table() == parent.glyph_names_table());
    assert(sub.face_model() == frozen.face_model());
    assert(frozen.face_model() == parent.face_model());
}

/// A font with no table at all, over no parent, knows no glyph and gives
/// every glyph the advance 0 and the origin (0, 0).
pub proof fn lemma_font_without_tables(font: Font, glyph: u32, direction: Direction)
    requires
        font.base is Face,
        font.funcs == no_font_funcs(),
    ensures
        forall|unicode: u32, selector: u32| font.glyph_for(unicode, selector) is None,
        font.advance_for_direction(glyph, direction) == (0i32, 0i32),
        font.origin_for_direction(glyph, direction) == (0i32, 0i32),
        font.extents(glyph) is None,
{
}

} // verus!
