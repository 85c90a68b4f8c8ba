//! A text-shaping core: tags, directions and scripts, the run buffer that
//! holds codepoints or glyphs, fonts with their metric tables, the feature
//! syntax, and the driver that turns a run of codepoints into glyphs.
//!
//! A caller makes a [`Buffer`], fills it with text, sets or guesses the
//! properties of the run, and calls [`shape`] with a [`Font`] and a list of
//! [`Feature`]s. The buffer holds glyphs with their positions afterwards.
//!
//! What the library knows of fonts and of Unicode is handed to it as
//! tables: it reads no font file and has no table of Unicode of its own.
//!
//! Every function states what it does over a view of its data as plain
//! values, and the laws that hold between the functions are proved beside
//! them.

pub mod blob;
pub mod buffer;
pub mod common;
pub mod face;
pub mod font;
pub mod language;
pub mod normalize;
pub mod ot;
pub mod serialize;
pub mod shape;
pub mod text;
pub mod unicode;
pub mod utf;

pub use self::blob::{Blob, MemoryMode};
pub use self::buffer::{
    Buffer, BufferAdd, BufferClusterLevel, BufferContentType, BufferFlags, GlyphInfo,
    GlyphPosition, SegmentProperties, BUFFER_FLAGS_BOT, BUFFER_FLAGS_DEFAULT, BUFFER_FLAGS_EOT,
    BUFFER_FLAGS_PRESERVE_DEFAULT_IGNORABLES, BUFFER_REPLACEMENT_CODEPOINT_DEFAULT,
};
pub use self::common::{Direction, Language, Script, Tag};
pub use self::face::Face;
pub use self::font::{Font, FontFuncs, GlyphExtents};
pub use self::language::LanguageTable;
pub use self::serialize::{
    BufferSerializeFlags, BufferSerializeFormat, BUFFER_SERIALIZE_FLAG_DEFAULT,
    BUFFER_SERIALIZE_FLAG_GLYPH_EXTENTS, BUFFER_SERIALIZE_FLAG_NO_CLUSTERS,
    BUFFER_SERIALIZE_FLAG_NO_GLYPH_NAMES, BUFFER_SERIALIZE_FLAG_NO_POSITIONS,
};
pub use self::shape::{list_shapers, shape, shape_full, Feature, Shaper, ShaperList};
pub use self::unicode::{UnicodeCombiningClass, UnicodeFuncs, UnicodeGeneralCategory};
