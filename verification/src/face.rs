//! Faces: one font of a font file, as a blob of bytes and the list of the
//! tables in it.

use crate::blob::{Blob, BlobModel, MemoryMode};
use crate::common::Tag;
use crate::ot::Layout;
use vstd::prelude::*;

verus! {

/// The units per em of a face that does not say.
pub const FACE_DEFAULT_UPEM: u32 = 1000;

/// Where a table lies in the blob of a face.
#[derive(Clone, Copy, Debug, PartialEq, Eq, Hash, Structural)]
pub struct TableRecord {
    /// The tag of the table.
    pub tag: Tag,
    /// The place of its first byte.
    pub offset: u32,
    /// The number of its bytes.
    pub length: u32,
}

/// The first record of a list that has the tag.
pub open spec fn record_of(tables: Seq<TableRecord>, tag: Tag) -> Option<TableRecord>
    decreases tables.len(),
{
    if tables.len() == 0 {
        None
    } else if tables[0].tag == tag {
        Some(tables[0])
    } else {
        record_of(tables.drop_first(), tag)
    }
}

/// What a face holds, as plain values.
pub ghost struct FaceModel {
    /// The bytes of the font file.
    pub data: Seq<u8>,
    /// Which font of the file the face is.
    pub index: u32,
    /// The units per em.
    pub upem: u32,
    /// The number of glyphs.
    pub glyph_count: u32,
    /// The tables of the face.
    pub tables: Seq<TableRecord>,
    /// Whether the face may no longer be changed.
    pub immutable: bool,
    /// What the layout tables of the face say, where somebody has read
    /// them.
    pub layout: Option<Layout>,
}

impl FaceModel {
    /// The bytes of the table with the tag: those of its first record, as
    /// far as they lie in the blob, and none where no record has the tag.
    pub open spec fn table_data(self, tag: Tag) -> Seq<u8> {
        match record_of(self.tables, tag) {
            Some(record) => (BlobModel {
                data: self.data,
                mode: MemoryMode::Readonly,
                immutable: true,
            }).part(record.offset, record.length),
            None => Seq::empty(),
        }
    }
}

/// One font of a font file.
pub struct Face {
    blob: Blob,
    index: u32,
    upem: u32,
    glyph_count: u32,
    tables: Vec<TableRecord>,
    immutable: bool,
    layout: Option<Layout>,
}

impl View for Face {
    type V = FaceModel;

    closed spec fn view(&self) -> FaceModel {
        FaceModel {
            data: self.blob@.data,
            index: self.index,
            upem: self.upem,
            glyph_count: self.glyph_count,
            tables: self.tables@,
            immutable: self.immutable,
            layout: self.layout,
        }
    }
}

impl Face {
    /// The face of font `index` of a font file, of which no table is known
    /// yet.
    pub fn new(blob: Blob, index: u32) -> (face: Face)
        ensures
            face@ == (FaceModel {
                data: blob@.data,
                index,
                upem: FACE_DEFAULT_UPEM,
                glyph_count: 0,
                tables: Seq::empty(),
                immutable: false,
                layout: None,
            }),
    {
        Face {
            blob,
            index,
            upem: FACE_DEFAULT_UPEM,
            glyph_count: 0,
            tables: Vec::new(),
            immutable: false,
            layout: None,
        }
    }

    /// The face of font `index` of a font file with the tables that its
    /// directory lists.
    pub fn create_for_tables(blob: Blob, index: u32, tables: Vec<TableRecord>) -> (face: Face)
        ensures
            face@ == (FaceModel {
                data: blob@.data,
                index,
                upem: FACE_DEFAULT_UPEM,
                glyph_count: 0,
                tables: tables@,
                immutable: false,
                layout: None,
            }),
    {
        Face {
            blob,
            index,
            upem: FACE_DEFAULT_UPEM,
            glyph_count: 0,
            tables,
            immutable: false,
            layout: None,
        }
    }

    /// The face of no font, which can never be changed.
    pub fn get_empty() -> (face: Face)
        ensures
            face@ == (FaceModel {
                data: Seq::empty(),
                index: 0,
                upem: FACE_DEFAULT_UPEM,
                glyph_count: 0,
                tables: Seq::empty(),
                immutable: true,
                layout: None,
            }),
    {
        Face {
            blob: Blob::get_empty(),
            index: 0,
            upem: FACE_DEFAULT_UPEM,
            glyph_count: 0,
            tables: Vec::new(),
            immutable: true,
            layout: None,
        }
    }

    /// The bytes of the table with the tag, as a blob of their own.
    pub fn table(&self, tag: Tag) -> (table: Blob)
        ensures
            table@.data == self@.table_data(tag),
            table@.mode == MemoryMode::Readonly,
    {
        let n: usize = self.tables.len();
        let mut i: usize = 0;
        assert(self.tables@.subrange(0, n as int) =~= self.tables@);
        while i < n
            invariant
                i <= n,
                n == self.tables@.len(),
                record_of(self.tables@.subrange(i as int, n as int), tag) == record_of(
                    self.tables@,
                    tag,
                ),
            decreases n - i,
        {
            let ghost rest = self.tables@.subrange(i as int, n as int);
            assert(rest.drop_first() =~= self.tables@.subrange(i + 1, n as int));
            assert(rest[0] == self.tables@[i as int]);
            if self.tables[i].tag == tag {
                let sub = self.blob.create_sub_blob(self.tables[i].offset, self.tables[i].length);
                return sub;
            }
            i = i + 1;
        }
        assert(self.tables@.subrange(i as int, n as int).len() == 0);
        Blob::from_vec(Vec::new())
    }

    /// The bytes of the font file.
    pub fn blob(&self) -> (blob: &Blob)
        ensures
            blob@.data == self@.data,
    {
        &self.blob
    }

    /// Which font of the file the face is.
    pub fn index(&self) -> (index: u32)
        ensures
            index == self@.index,
    {
        self.index
    }

    /// Says which font of the file the face is, unless the face may no
    /// longer be changed.
    pub fn set_index(&mut self, index: u32)
        ensures
            final(self)@ == (if old(self)@.immutable {
                old(self)@
            } else {
                FaceModel { index, ..old(self)@ }
            }),
    {
        if !self.immutable {
            self.index = index;
        }
    }

    /// The units per em.
    pub fn upem(&self) -> (upem: u32)
        ensures
            upem == self@.upem,
    {
        self.upem
    }

    /// Sets the units per em, unless the face may no longer be changed.
    pub fn set_upem(&mut self, upem: u32)
        ensures
            final(self)@ == (if old(self)@.immutable {
                old(self)@
            } else {
                FaceModel { upem, ..old(self)@ }
            }),
    {
        if !self.immutable {
            self.upem = upem;
        }
    }

    /// The number of glyphs.
    pub fn glyph_count(&self) -> (glyph_count: u32)
        ensures
            glyph_count == self@.glyph_count,
    {
        self.glyph_count
    }

    /// Sets the number of glyphs, unless the face may no longer be changed.
    pub fn set_glyph_count(&mut self, glyph_count: u32)
        ensures
            final(self)@ == (if old(self)@.immutable {
                old(self)@
            } else {
                FaceModel { glyph_count, ..old(self)@ }
            }),
    {
        if !self.immutable {
            self.glyph_count = glyph_count;
        }
    }

    /// What the layout tables of the face say, where somebody has read
    /// them.
    pub fn layout(&self) -> (layout: Option<&Layout>)
        ensures
            match layout {
                Some(found) => self@.layout == Some(*found),
                None => self@.layout is None,
            },
    {
        self.layout.as_ref()
    }

    /// Says what the layout tables of the face say, unless the face may no
    /// longer be changed.
    pub fn set_layout(&mut self, layout: Layout)
        ensures
            final(self)@ == (if old(self)@.immutable {
                old(self)@
            } else {
                FaceModel { layout: Some(layout), ..old(self)@ }
            }),
    {
        if !self.immutable {
            self.layout = Some(layout);
        }
    }

    /// Forbids further changes of the face.
    pub fn make_immutable(&mut self)
        ensures
            final(self)@ == (FaceModel { immutable: true, ..old(self)@ }),
    {
        self.immutable = true;
    }

    /// Whether the face may no longer be changed.
    pub fn is_immutable(&self) -> (immutable: bool)
        ensures
            immutable == self@.immutable,
    {
        self.immutable
    }
}

} // verus!
