//! What the OpenType layout tables of a face say. This library does not
//! read the tables: whoever reads a font file hands over what they say, and
//! the questions here are answered from that.

use crate::common::Tag;
use crate::face::Face;
use crate::unicode::{lookup_range, range_value, CodepointRange};
use vstd::prelude::*;

verus! {

/// The number of the tag `GDEF`, of the table of glyph definitions.
pub const TAG_GDEF: u32 = 0x4744_4546;

/// The number of the tag `GSUB`, of the table of substitutions.
pub const TAG_GSUB: u32 = 0x4753_5542;

/// The number of the tag `GPOS`, of the table of positioning.
pub const TAG_GPOS: u32 = 0x4750_4F53;

/// The number of the tag `JSTF`, of the table of justification.
pub const TAG_JSTF: u32 = 0x4A53_5446;

/// The number of the tag `DFLT`, of the script that stands for all others.
pub const TAG_DEFAULT_SCRIPT: u32 = 0x4446_4C54;

/// The number of the tag `dflt`, which some fonts have for `DFLT`.
pub const TAG_DEFAULT_LANGUAGE: u32 = 0x6466_6C74;

/// The number of the tag `latn`, of the script that fonts without `DFLT`
/// mostly have.
pub const TAG_LATIN_SCRIPT: u32 = 0x6C61_746E;

/// The index that stands for no script.
pub const NO_SCRIPT_INDEX: u32 = 0xFFFF;

/// The index that stands for no feature.
pub const NO_FEATURE_INDEX: u32 = 0xFFFF;

/// The index that stands for the default language of a script.
pub const DEFAULT_LANGUAGE_INDEX: u32 = 0xFFFF;

/// What kind of glyph a glyph is, as the table of glyph definitions says.
#[derive(Clone, Copy, Debug, PartialEq, Eq, Hash, Structural)]
pub enum GlyphClass {
    /// The table does not say.
    Unclassified,
    /// A base glyph: one character, with room of its own.
    BaseGlyph,
    /// A ligature: several characters in one glyph.
    Ligature,
    /// A mark, which is set on another glyph.
    Mark,
    /// A part of a glyph.
    Component,
}

impl Default for GlyphClass {
    fn default() -> (class: GlyphClass)
        ensures
            class == GlyphClass::Unclassified,
    {
        GlyphClass::Unclassified
    }
}

/// Numbers that a table gives for one glyph: the points of its outline to
/// which other glyphs attach, or the places of the carets in a ligature.
#[derive(Debug)]
pub struct GlyphList<V> {
    pub glyph: u32,
    pub values: Vec<V>,
}

/// What the layout tables of a face say.
#[derive(Debug)]
pub struct Layout {
    /// The class of each glyph, where the face has classes.
    pub glyph_classes: Option<Vec<CodepointRange<GlyphClass>>>,
    /// The attach points of the glyphs that have some.
    pub attach_points: Vec<GlyphList<u32>>,
    /// The ligature carets of the glyphs that have some.
    pub ligature_carets: Vec<GlyphList<i32>>,
    /// The scripts of the table of substitutions, where the face has one.
    pub substitution_scripts: Option<Vec<Tag>>,
    /// The scripts of the table of positioning, where the face has one.
    pub positioning_scripts: Option<Vec<Tag>>,
}

/// The numbers that a list gives for a glyph: those of the first line for
/// the glyph, and none where no line is for it.
pub open spec fn list_of_glyph<V>(lists: Seq<GlyphList<V>>, glyph: u32) -> Seq<V>
    decreases lists.len(),
{
    if lists.len() == 0 {
        Seq::empty()
    } else if lists[0].glyph == glyph {
        lists[0].values@
    } else {
        list_of_glyph(lists.drop_first(), glyph)
    }
}

/// What is left of a list from place `start_offset` on.
pub open spec fn from_offset<V>(values: Seq<V>, start_offset: u32) -> Seq<V> {
    if start_offset <= values.len() {
        values.skip(start_offset as int)
    } else {
        Seq::empty()
    }
}

/// Where a tag stands in a list of tags, and the length of the list where
/// it does not stand in it.
pub open spec fn index_of_tag(tags: Seq<Tag>, tag: u32) -> int
    decreases tags.len(),
{
    if tags.len() == 0 {
        0
    } else if tags[0].value == tag {
        0
    } else {
        1 + index_of_tag(tags.drop_first(), tag)
    }
}

/// Whether a list of tags holds a tag.
pub open spec fn has_tag(tags: Seq<Tag>, tag: u32) -> bool {
    index_of_tag(tags, tag) < tags.len()
}

impl Layout {
    /// The class of a glyph: what the classes of the face say, and
    /// `Unclassified` where they say nothing or the face has none.
    pub open spec fn class_of(&self, glyph: u32) -> GlyphClass {
        match self.glyph_classes {
            Some(classes) => match range_value(classes@, glyph) {
                Some(class) => class,
                None => GlyphClass::Unclassified,
            },
            None => GlyphClass::Unclassified,
        }
    }

    /// The scripts of the table with the tag: those of the table of
    /// substitutions or of the table of positioning, and none for any other
    /// table and for a table that the face does not have.
    pub open spec fn scripts_of(&self, table_tag: u32) -> Seq<Tag> {
        let scripts = if table_tag == TAG_GSUB {
            self.substitution_scripts
        } else if table_tag == TAG_GPOS {
            self.positioning_scripts
        } else {
            None
        };
        match scripts {
            Some(tags) => tags@,
            None => Seq::empty(),
        }
    }

    /// No layout tables at all.
    pub fn new() -> (layout: Layout)
        ensures
            layout.glyph_classes is None,
            layout.attach_points@.len() == 0,
            layout.ligature_carets@.len() == 0,
            layout.substitution_scripts is None,
            layout.positioning_scripts is None,
    {
        Layout {
            glyph_classes: None,
            attach_points: Vec::new(),
            ligature_carets: Vec::new(),
            substitution_scripts: None,
            positioning_scripts: None,
        }
    }
}

/// The class of a glyph by the layout tables of a face, and `Unclassified`
/// where nobody has read them.
pub open spec fn class_by(layout: Option<Layout>, glyph: u32) -> GlyphClass {
    match layout {
        Some(layout) => layout.class_of(glyph),
        None => GlyphClass::Unclassified,
    }
}

/// The glyphs below `count` that have a class, in the order of their
/// numbers.
pub open spec fn glyphs_of_class(layout: Option<Layout>, class: GlyphClass, count: nat) -> Seq<u32>
    decreases count,
{
    if count == 0 {
        Seq::empty()
    } else if class_by(layout, (count - 1) as u32) == class {
        glyphs_of_class(layout, class, (count - 1) as nat).push((count - 1) as u32)
    } else {
        glyphs_of_class(layout, class, (count - 1) as nat)
    }
}

/// Looks a glyph up in lists by glyph.
fn lookup_list<V>(lists: &Vec<GlyphList<V>>, glyph: u32) -> (found: Option<&Vec<V>>)
    ensures
        match found {
            Some(values) => list_of_glyph(lists@, glyph) == values@,
            None => list_of_glyph(lists@, glyph).len() == 0,
        },
{
    let n: usize = lists.len();
    let mut i: usize = 0;
    assert(lists@.subrange(0, n as int) =~= lists@);
    while i < n
        invariant
            i <= n,
            n == lists@.len(),
            list_of_glyph(lists@.subrange(i as int, n as int), glyph) == list_of_glyph(
                lists@,
                glyph,
            ),
        decreases n - i,
    {
        let ghost rest = lists@.subrange(i as int, n as int);
        assert(rest.drop_first() =~= lists@.subrange(i + 1, n as int));
        assert(rest[0] == lists@[i as int]);
        if lists[i].glyph == glyph {
            return Some(&lists[i].values);
        }
        i = i + 1;
    }
    assert(lists@.subrange(i as int, n as int).len() == 0);
    None
}

/// A copy of what is left of a list from place `start_offset` on.
fn copy_from_offset<V: Copy>(values: &Vec<V>, start_offset: u32) -> (rest: Vec<V>)
    ensures
        rest@ == from_offset(values@, start_offset),
{
    let mut rest: Vec<V> = Vec::new();
    let n: usize = values.len();
    if start_offset as usize > n {
        return rest;
    }
    let start: usize = start_offset as usize;
    let mut i: usize = start;
    while i < n
        invariant
            start <= i <= n,
            n == values@.len(),
            rest@ == values@.subrange(start as int, i as int),
        decreases n - i,
    {
        rest.push(values[i]);
        i = i + 1;
        assert(rest@ =~= values@.subrange(start as int, i as int));
    }
    rest
}

/// Whether the face has classes of glyphs.
pub fn has_glyph_classes(face: &Face) -> (has: bool)
    ensures
        has == (face@.layout is Some && face@.layout.unwrap().glyph_classes is Some),
{
    match face.layout() {
        Some(layout) => layout.glyph_classes.is_some(),
        None => false,
    }
}

/// Whether the face has a table of substitutions.
pub fn has_substitution(face: &Face) -> (has: bool)
    ensures
        has == (face@.layout is Some && face@.layout.unwrap().substitution_scripts is Some),
{
    match face.layout() {
        Some(layout) => layout.substitution_scripts.is_some(),
        None => false,
    }
}

/// Whether the face has a table of positioning.
pub fn has_positioning(face: &Face) -> (has: bool)
    ensures
        has == (face@.layout is Some && face@.layout.unwrap().positioning_scripts is Some),
{
    match face.layout() {
        Some(layout) => layout.positioning_scripts.is_some(),
        None => false,
    }
}

/// The class of a glyph, and `Unclassified` where the face does not say.
pub fn get_glyph_class(face: &Face, glyph: u32) -> (class: GlyphClass)
    ensures
        class == class_by(face@.layout, glyph),
{
    match face.layout() {
        Some(layout) => match &layout.glyph_classes {
            Some(classes) => match lookup_range(classes, glyph) {
                Some(class) => class,
                None => GlyphClass::Unclassified,
            },
            None => GlyphClass::Unclassified,
        },
        None => GlyphClass::Unclassified,
    }
}

/// The glyphs of the face that have a class, in the order of their
/// numbers: those below the number of glyphs of the face.
pub fn get_glyphs_in_class(face: &Face, class: GlyphClass) -> (glyphs: Vec<u32>)
    ensures
        glyphs@ == glyphs_of_class(face@.layout, class, face@.glyph_count as nat),
{
    let count: u32 = face.glyph_count();
    let mut glyphs: Vec<u32> = Vec::new();
    let mut glyph: u32 = 0;
    while glyph < count
        invariant
            glyph <= count,
            count == face@.glyph_count,
            glyphs@ == glyphs_of_class(face@.layout, class, glyph as nat),
        decreases count - glyph,
    {
        if get_glyph_class(face, glyph) == class {
            glyphs.push(glyph);
        }
        glyph = glyph + 1;
    }
    glyphs
}

/// The attach points of a glyph from place `start_offset` of their list
/// on, and none where the face knows of none.
pub fn get_attach_points(face: &Face, glyph: u32, start_offset: u32) -> (points: Vec<u32>)
    ensures
        points@ == (match face@.layout {
            Some(layout) => from_offset(
                list_of_glyph(layout.attach_points@, glyph),
                start_offset,
            ),
            None => Seq::empty(),
        }),
{
    match face.layout() {
        Some(layout) => match lookup_list(&layout.attach_points, glyph) {
            Some(values) => copy_from_offset(values, start_offset),
            None => Vec::new(),
        },
        None => Vec::new(),
    }
}

/// The ligature carets of a glyph from place `start_offset` of their list
/// on, and none where the face knows of none.
pub fn get_ligature_carets(face: &Face, glyph: u32, start_offset: u32) -> (carets: Vec<i32>)
    ensures
        carets@ == (match face@.layout {
            Some(layout) => from_offset(
                list_of_glyph(layout.ligature_carets@, glyph),
                start_offset,
            ),
            None => Seq::empty(),
        }),
{
    match face.layout() {
        Some(layout) => match lookup_list(&layout.ligature_carets, glyph) {
            Some(values) => copy_from_offset(values, start_offset),
            None => Vec::new(),
        },
        None => Vec::new(),
    }
}

/// The scripts of a table of the face from place `start_offset` of their
/// list on, and none where the face does not have the table.
pub fn table_get_script_tags(face: &Face, table_tag: Tag, start_offset: u32) -> (tags: Vec<Tag>)
    ensures
        tags@ == (match face@.layout {
            Some(layout) => from_offset(layout.scripts_of(table_tag.value), start_offset),
            None => Seq::empty(),
        }),
{
    match face.layout() {
        Some(layout) => {
            let scripts = if table_tag.value == TAG_GSUB {
                &layout.substitution_scripts
            } else if table_tag.value == TAG_GPOS {
                &layout.positioning_scripts
            } else {
                &None
            };
            match scripts {
                Some(tags) => copy_from_offset(tags, start_offset),
                None => Vec::new(),
            }
        },
        None => Vec::new(),
    }
}

/// Where a tag stands in a list of tags.
fn find_tag(tags: &Vec<Tag>, tag: u32) -> (at: usize)
    ensures
        at == index_of_tag(tags@, tag),
        at <= tags@.len(),
{
    let n: usize = tags.len();
    let mut i: usize = 0;
    assert(tags@.skip(0) =~= tags@);
    while i < n
        invariant
            i <= n,
            n == tags@.len(),
            index_of_tag(tags@.skip(i as int), tag) + i == index_of_tag(tags@, tag),
        decreases n - i,
    {
        let ghost rest = tags@.skip(i as int);
        assert(rest.drop_first() =~= tags@.skip(i + 1));
        assert(rest[0] == tags@[i as int]);
        if tags[i].value == tag {
            return i;
        }
        i = i + 1;
    }
    assert(tags@.skip(n as int).len() == 0);
    n
}

/// The script to take for a wanted script, among the scripts of a table:
/// whether the table has the wanted script, and the place of the script to
/// take. A table without the wanted script gives the place of `DFLT`, else
/// that of `dflt`, else that of `latn`, and `NO_SCRIPT_INDEX` where it has
/// none of them. A place that no index of 16 bits names counts as no
/// place.
pub open spec fn found_script(tags: Seq<Tag>, script_tag: u32) -> (bool, u32) {
    let wanted = index_of_tag(tags, script_tag);
    let first = index_of_tag(tags, TAG_DEFAULT_SCRIPT);
    let second = index_of_tag(tags, TAG_DEFAULT_LANGUAGE);
    let third = index_of_tag(tags, TAG_LATIN_SCRIPT);
    if wanted < tags.len() && wanted < NO_SCRIPT_INDEX {
        (true, wanted as u32)
    } else if first < tags.len() && first < NO_SCRIPT_INDEX {
        (false, first as u32)
    } else if second < tags.len() && second < NO_SCRIPT_INDEX {
        (false, second as u32)
    } else if third < tags.len() && third < NO_SCRIPT_INDEX {
        (false, third as u32)
    } else {
        (false, NO_SCRIPT_INDEX)
    }
}

/// Finds a script in a table of the face: see `found_script`.
pub fn table_find_script(face: &Face, table_tag: Tag, script_tag: Tag) -> (found: (bool, u32))
    ensures
        found == (match face@.layout {
            Some(layout) => found_script(layout.scripts_of(table_tag.value), script_tag.value),
            None => (false, NO_SCRIPT_INDEX),
        }),
{
    let layout = match face.layout() {
        Some(layout) => layout,
        None => {
            return (false, NO_SCRIPT_INDEX);
        },
    };
    let scripts = if table_tag.value == TAG_GSUB {
        &layout.substitution_scripts
    } else if table_tag.value == TAG_GPOS {
        &layout.positioning_scripts
    } else {
        &None
    };
    let tags = match scripts {
        Some(tags) => tags,
        None => {
            return (false, NO_SCRIPT_INDEX);
        },
    };
    let n: usize = tags.len();
    let wanted = find_tag(tags, script_tag.value);
    if wanted < n && wanted < NO_SCRIPT_INDEX as usize {
        return (true, wanted as u32);
    }
    let first = find_tag(tags, TAG_DEFAULT_SCRIPT);
    if first < n && first < NO_SCRIPT_INDEX as usize {
        return (false, first as u32);
    }
    let second = find_tag(tags, TAG_DEFAULT_LANGUAGE);
    if second < n && second < NO_SCRIPT_INDEX as usize {
        return (false, second as u32);
    }
    let third = find_tag(tags, TAG_LATIN_SCRIPT);
    if third < n && third < NO_SCRIPT_INDEX as usize {
        return (false, third as u32);
    }
    (false, NO_SCRIPT_INDEX)
}

} // verus!
