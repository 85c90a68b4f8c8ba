//! Four-byte tags, text directions, scripts and language handles.

use vstd::prelude::*;
use vstd::std_specs::convert::FromSpecImpl;
use vstd::string::StringExecFns;
use vstd::string::StringSliceAdditionalSpecFns;
use vstd::utf8::{decode_utf8, encode_utf8, valid_utf8};

verus! {

/// `String::from_utf8` of std: the text that the bytes encode in UTF-8, and
/// nothing where they are no well-formed UTF-8.
#[verifier::external_body]
pub(crate) fn string_from_utf8(bytes: Vec<u8>) -> (text: Option<String>)
    ensures
        text is Some <==> valid_utf8(bytes@),
        text is Some ==> text->0@ == decode_utf8(bytes@),
{
    String::from_utf8(bytes).ok()
}

/// The byte at `index`, or a space where the bytes end before it.
pub open spec fn padded_byte(bytes: Seq<u8>, index: int) -> u8 {
    if 0 <= index < bytes.len() {
        bytes[index]
    } else {
        0x20
    }
}

/// The number that packs four bytes, the first byte in the highest place.
pub open spec fn pack_bytes(b0: u8, b1: u8, b2: u8, b3: u8) -> u32 {
    (b0 as u32) << 24 | (b1 as u32) << 16 | (b2 as u32) << 8 | (b3 as u32)
}

/// The byte of `value` at place `index`, counted from the highest.
pub open spec fn byte_at(value: u32, index: int) -> u8 {
    if index == 0 {
        (value >> 24) as u8
    } else if index == 1 {
        (value >> 16) as u8
    } else if index == 2 {
        (value >> 8) as u8
    } else {
        value as u8
    }
}

/// A four-byte identifier of a table, a script or a feature.
#[derive(Clone, Copy, Debug, PartialEq, Eq, Hash, Structural)]
pub struct Tag {
    pub value: u32,
}

/// The number of the tag that stands for no tag.
pub const TAG_NONE: u32 = 0x0000_0000;

/// The number of the largest tag.
pub const TAG_MAX: u32 = 0xFFFF_FFFF;

/// The number of the largest tag that is not negative when read as a signed
/// number.
pub const TAG_MAX_SIGNED: u32 = 0x7FFF_FFFF;

impl Tag {
    /// The tag that stands for no tag: its number is zero.
    pub fn none() -> (tag: Tag)
        ensures
            tag.value == TAG_NONE,
    {
        Tag { value: TAG_NONE }
    }

    /// The four bytes of the tag as a sequence, the highest first.
    pub open spec fn bytes(self) -> Seq<u8> {
        seq![
            byte_at(self.value, 0),
            byte_at(self.value, 1),
            byte_at(self.value, 2),
            byte_at(self.value, 3),
        ]
    }

    /// The tag that a text names: its first four bytes in UTF-8, with
    /// spaces for the bytes that a shorter text lacks.
    pub open spec fn spec_from_str(text: Seq<char>) -> Tag {
        let bytes = encode_utf8(text);
        Tag {
            value: pack_bytes(
                padded_byte(bytes, 0),
                padded_byte(bytes, 1),
                padded_byte(bytes, 2),
                padded_byte(bytes, 3),
            ),
        }
    }

    /// The tag as text: its four bytes read as UTF-8, or four spaces where
    /// they are no well-formed UTF-8.
    pub open spec fn spec_to_string(self) -> Seq<char> {
        if valid_utf8(self.bytes()) {
            decode_utf8(self.bytes())
        } else {
            seq![' ', ' ', ' ', ' ']
        }
    }

    /// The tag that `text` names. A text of fewer than four bytes is filled
    /// up with spaces, and bytes after the fourth do not count.
    pub fn from_str(text: &str) -> (tag: Tag)
        ensures
            tag == Tag::spec_from_str(text@),
    {
        let bytes = text.as_bytes();
        let n: usize = bytes.len();
        let b0: u8 = if n > 0 { bytes[0] } else { 0x20 };
        let b1: u8 = if n > 1 { bytes[1] } else { 0x20 };
        let b2: u8 = if n > 2 { bytes[2] } else { 0x20 };
        let b3: u8 = if n > 3 { bytes[3] } else { 0x20 };
        Tag::from_bytes([b0, b1, b2, b3])
    }

    /// The tag as text.
    pub fn to_string(self) -> (text: String)
        ensures
            text@ == self.spec_to_string(),
    {
        let b = self.to_bytes();
        let mut bytes: Vec<u8> = Vec::new();
        bytes.push(b[0]);
        bytes.push(b[1]);
        bytes.push(b[2]);
        bytes.push(b[3]);
        assert(bytes@ =~= self.bytes());
        match string_from_utf8(bytes) {
            Some(text) => text,
            None => {
                proof {
                    reveal_strlit("    ");
                }
                assert("    "@ =~= seq![' ', ' ', ' ', ' ']);
                String::from_str("    ")
            },
        }
    }

    /// The tag made of four bytes.
    pub fn from_bytes(bytes: [u8; 4]) -> (tag: Tag)
        ensures
            tag.value == pack_bytes(bytes[0], bytes[1], bytes[2], bytes[3]),
    {
        Tag {
            value: (bytes[0] as u32) << 24 | (bytes[1] as u32) << 16 | (bytes[2] as u32) << 8 | (
            bytes[3] as u32),
        }
    }

    /// The four bytes of the tag, the highest first.
    pub fn to_bytes(self) -> (bytes: [u8; 4])
        ensures
            forall|i: int| 0 <= i < 4 ==> bytes[i] == byte_at(self.value, i),
    {
        let v: u32 = self.value;
        [(v >> 24) as u8, (v >> 16) as u8, (v >> 8) as u8, v as u8]
    }
}

/// Packing four bytes and taking them apart again gives the same bytes.
pub proof fn lemma_pack_then_unpack(b0: u8, b1: u8, b2: u8, b3: u8)
    ensures
        byte_at(pack_bytes(b0, b1, b2, b3), 0) == b0,
        byte_at(pack_bytes(b0, b1, b2, b3), 1) == b1,
        byte_at(pack_bytes(b0, b1, b2, b3), 2) == b2,
        byte_at(pack_bytes(b0, b1, b2, b3), 3) == b3,
{
    let v = (b0 as u32) << 24 | (b1 as u32) << 16 | (b2 as u32) << 8 | (b3 as u32);
    assert((v >> 24) as u8 == b0 && (v >> 16) as u8 == b1 && (v >> 8) as u8 == b2 && v as u8
        == b3) by (bit_vector)
        requires
            v == (b0 as u32) << 24 | (b1 as u32) << 16 | (b2 as u32) << 8 | (b3 as u32),
    ;
}

/// Taking a number apart into four bytes and packing them gives the number.
pub proof fn lemma_unpack_then_pack(value: u32)
    ensures
        pack_bytes(byte_at(value, 0), byte_at(value, 1), byte_at(value, 2), byte_at(value, 3))
            == value,
{
    assert((((value >> 24) as u8) as u32) << 24 | (((value >> 16) as u8) as u32) << 16 | (((value
        >> 8) as u8) as u32) << 8 | ((value as u8) as u32) == value) by (bit_vector);
}

/// A text whose UTF-8 form has exactly four bytes, four ASCII letters for
/// one, comes back unchanged from the tag that it names.
pub proof fn lemma_tag_text_round_trip(text: Seq<char>)
    requires
        encode_utf8(text).len() == 4,
    ensures
        Tag::spec_from_str(text).spec_to_string() == text,
{
    let bytes = encode_utf8(text);
    let tag = Tag::spec_from_str(text);
    lemma_pack_then_unpack(bytes[0], bytes[1], bytes[2], bytes[3]);
    assert(tag.bytes() =~= bytes);
    vstd::utf8::encode_utf8_valid_utf8(text);
    vstd::utf8::encode_utf8_decode_utf8(text);
}

/// Four ASCII characters come back unchanged from the tag that they name.
pub proof fn lemma_tag_ascii_round_trip(text: Seq<char>)
    requires
        text.len() == 4,
        vstd::utf8::is_ascii_chars(text),
    ensures
        Tag::spec_from_str(text).spec_to_string() == text,
{
    vstd::utf8::is_ascii_chars_encode_utf8(text);
    lemma_tag_text_round_trip(text);
}

impl Default for Tag {
    fn default() -> (tag: Tag)
        ensures
            tag.value == TAG_NONE,
    {
        Tag { value: TAG_NONE }
    }
}

impl From<[u8; 4]> for Tag {
    fn from(bytes: [u8; 4]) -> (tag: Tag) {
        Tag::from_bytes(bytes)
    }
}

impl FromSpecImpl<[u8; 4]> for Tag {
    open spec fn obeys_from_spec() -> bool {
        true
    }

    open spec fn from_spec(bytes: [u8; 4]) -> Tag {
        Tag { value: pack_bytes(bytes[0], bytes[1], bytes[2], bytes[3]) }
    }
}

impl From<Tag> for [u8; 4] {
    fn from(tag: Tag) -> (bytes: [u8; 4])
        ensures
            forall|i: int| 0 <= i < 4 ==> bytes[i] == byte_at(tag.value, i),
    {
        tag.to_bytes()
    }
}

/// The four bytes of a tag are said by the contract of `from`, place by
/// place.
impl FromSpecImpl<Tag> for [u8; 4] {
    open spec fn obeys_from_spec() -> bool {
        false
    }

    open spec fn from_spec(tag: Tag) -> [u8; 4] {
        arbitrary()
    }
}

/// Four bytes come back unchanged from the tag that packs them.
pub proof fn lemma_tag_bytes_round_trip(b0: u8, b1: u8, b2: u8, b3: u8)
    ensures
        (Tag { value: pack_bytes(b0, b1, b2, b3) }).bytes() == seq![b0, b1, b2, b3],
{
    lemma_pack_then_unpack(b0, b1, b2, b3);
}

/// A handle of a language: a number that a table of languages gave to a
/// language's name. Two handles are the same language when they are equal.
#[derive(Clone, Copy, Debug, PartialEq, Eq, Hash, Structural)]
pub struct Language {
    pub handle: u32,
}

/// The handle that stands for no language.
pub const LANGUAGE_INVALID: u32 = 0;

impl Language {
    /// The handle that stands for no language.
    pub fn invalid() -> (language: Language)
        ensures
            language.handle == LANGUAGE_INVALID,
    {
        Language { handle: LANGUAGE_INVALID }
    }

    /// Whether the handle stands for a language.
    pub fn is_valid(self) -> (valid: bool)
        ensures
            valid == (self.handle != LANGUAGE_INVALID),
    {
        self.handle != LANGUAGE_INVALID
    }
}

/// A direction of text.
#[derive(Clone, Copy, Debug, PartialEq, Eq, Hash, Structural)]
pub enum Direction {
    /// No direction.
    Invalid,
    /// Left to right.
    Ltr,
    /// Right to left.
    Rtl,
    /// Top to bottom.
    Ttb,
    /// Bottom to top.
    Btt,
}

/// The direction that a first byte names, whatever its case.
pub open spec fn direction_of_initial(byte: u8) -> Direction {
    if byte == 0x4C || byte == 0x6C {
        Direction::Ltr
    } else if byte == 0x52 || byte == 0x72 {
        Direction::Rtl
    } else if byte == 0x54 || byte == 0x74 {
        Direction::Ttb
    } else if byte == 0x42 || byte == 0x62 {
        Direction::Btt
    } else {
        Direction::Invalid
    }
}

impl Direction {
    /// The number that stands for the direction.
    pub open spec fn number(self) -> u32 {
        match self {
            Direction::Invalid => 0,
            Direction::Ltr => 4,
            Direction::Rtl => 5,
            Direction::Ttb => 6,
            Direction::Btt => 7,
        }
    }

    /// The number that stands for the direction.
    pub fn to_number(self) -> (number: u32)
        ensures
            number == self.number(),
    {
        match self {
            Direction::Invalid => 0,
            Direction::Ltr => 4,
            Direction::Rtl => 5,
            Direction::Ttb => 6,
            Direction::Btt => 7,
        }
    }

    /// The direction that a text names: only its first byte counts, and an
    /// empty text names none.
    pub open spec fn spec_from_str(text: Seq<char>) -> Direction {
        let bytes = encode_utf8(text);
        if bytes.len() == 0 {
            Direction::Invalid
        } else {
            direction_of_initial(bytes[0])
        }
    }

    /// The name of the direction in lower case.
    pub open spec fn name(self) -> Seq<char> {
        match self {
            Direction::Invalid => "invalid"@,
            Direction::Ltr => "ltr"@,
            Direction::Rtl => "rtl"@,
            Direction::Ttb => "ttb"@,
            Direction::Btt => "btt"@,
        }
    }

    /// The direction that `text` names.
    pub fn from_str(text: &str) -> (direction: Direction)
        ensures
            direction == Direction::spec_from_str(text@),
    {
        let bytes = text.as_bytes();
        if bytes.len() == 0 {
            return Direction::Invalid;
        }
        let b: u8 = bytes[0];
        if b == 0x4C || b == 0x6C {
            Direction::Ltr
        } else if b == 0x52 || b == 0x72 {
            Direction::Rtl
        } else if b == 0x54 || b == 0x74 {
            Direction::Ttb
        } else if b == 0x42 || b == 0x62 {
            Direction::Btt
        } else {
            Direction::Invalid
        }
    }

    /// The name of the direction.
    pub fn to_string(self) -> (text: String)
        ensures
            text@ == self.name(),
    {
        match self {
            Direction::Invalid => String::from_str("invalid"),
            Direction::Ltr => String::from_str("ltr"),
            Direction::Rtl => String::from_str("rtl"),
            Direction::Ttb => String::from_str("ttb"),
            Direction::Btt => String::from_str("btt"),
        }
    }

    /// Whether this is one of the four directions.
    pub fn is_valid(self) -> (valid: bool)
        ensures
            valid == (self != Direction::Invalid),
    {
        match self {
            Direction::Invalid => false,
            _ => true,
        }
    }

    /// Whether the direction runs along a line: left to right or right to
    /// left.
    pub fn is_horizontal(self) -> (horizontal: bool)
        ensures
            horizontal == (self == Direction::Ltr || self == Direction::Rtl),
    {
        match self {
            Direction::Ltr | Direction::Rtl => true,
            _ => false,
        }
    }

    /// Whether the direction runs along a column: top to bottom or bottom to
    /// top.
    pub fn is_vertical(self) -> (vertical: bool)
        ensures
            vertical == (self == Direction::Ttb || self == Direction::Btt),
    {
        match self {
            Direction::Ttb | Direction::Btt => true,
            _ => false,
        }
    }

    /// Whether the direction is left to right or top to bottom.
    pub fn is_forward(self) -> (forward: bool)
        ensures
            forward == (self == Direction::Ltr || self == Direction::Ttb),
    {
        match self {
            Direction::Ltr | Direction::Ttb => true,
            _ => false,
        }
    }

    /// Whether the direction is right to left or bottom to top.
    pub fn is_backward(self) -> (backward: bool)
        ensures
            backward == (self == Direction::Rtl || self == Direction::Btt),
    {
        match self {
            Direction::Rtl | Direction::Btt => true,
            _ => false,
        }
    }

    /// The opposite direction on the same axis. No direction has none for
    /// its opposite.
    pub open spec fn reversed(self) -> Direction {
        match self {
            Direction::Invalid => Direction::Invalid,
            Direction::Ltr => Direction::Rtl,
            Direction::Rtl => Direction::Ltr,
            Direction::Ttb => Direction::Btt,
            Direction::Btt => Direction::Ttb,
        }
    }

    /// The opposite direction on the same axis.
    pub fn reverse(self) -> (opposite: Direction)
        ensures
            opposite == self.reversed(),
    {
        match self {
            Direction::Invalid => Direction::Invalid,
            Direction::Ltr => Direction::Rtl,
            Direction::Rtl => Direction::Ltr,
            Direction::Ttb => Direction::Btt,
            Direction::Btt => Direction::Ttb,
        }
    }
}

/// Reversing a direction twice gives it back, and a reversed direction stays
/// on its axis.
pub proof fn lemma_direction_reverse_twice(direction: Direction)
    ensures
        direction.reversed().reversed() == direction,
        (direction.reversed() == Direction::Invalid) == (direction == Direction::Invalid),
{
}

/// A script of ISO 15924, named by its four-letter code.
#[derive(Clone, Copy, Debug, PartialEq, Eq, Hash, Structural)]
pub enum Script {
    /// `Zyyy`
    Common,
    /// `Zinh`
    Inherited,
    /// `Zzzz`
    Unknown,
    /// `Arab`
    Arabic,
    /// `Armn`
    Armenian,
    /// `Beng`
    Bengali,
    /// `Cyrl`
    Cyrillic,
    /// `Deva`
    Devanagari,
    /// `Geor`
    Georgian,
    /// `Grek`
    Greek,
    /// `Gujr`
    Gujarati,
    /// `Guru`
    Gurmukhi,
    /// `Hang`
    Hangul,
    /// `Hani`
    Han,
    /// `Hebr`
    Hebrew,
    /// `Hira`
    Hiragana,
    /// `Knda`
    Kannada,
    /// `Kana`
    Katakana,
    /// `Laoo`
    Lao,
    /// `Latn`
    Latin,
    /// `Mlym`
    Malayalam,
    /// `Orya`
    Oriya,
    /// `Taml`
    Tamil,
    /// `Telu`
    Telugu,
    /// `Thai`
    Thai,
    /// `Tibt`
    Tibetan,
    /// `Bopo`
    Bopomofo,
    /// `Brai`
    Braille,
    /// `Cans`
    CanadianSyllabics,
    /// `Cher`
    Cherokee,
    /// `Ethi`
    Ethiopic,
    /// `Khmr`
    Khmer,
    /// `Mong`
    Mongolian,
    /// `Mymr`
    Myanmar,
    /// `Ogam`
    Ogham,
    /// `Runr`
    Runic,
    /// `Sinh`
    Sinhala,
    /// `Syrc`
    Syriac,
    /// `Thaa`
    Thaana,
    /// `Yiii`
    Yi,
    /// `Dsrt`
    Deseret,
    /// `Goth`
    Gothic,
    /// `Ital`
    OldItalic,
    /// `Buhd`
    Buhid,
    /// `Hano`
    Hanunoo,
    /// `Tglg`
    Tagalog,
    /// `Tagb`
    Tagbanwa,
    /// `Cprt`
    Cypriot,
    /// `Limb`
    Limbu,
    /// `Linb`
    LinearB,
    /// `Osma`
    Osmanya,
    /// `Shaw`
    Shavian,
    /// `Tale`
    TaiLe,
    /// `Ugar`
    Ugaritic,
    /// `Bugi`
    Buginese,
    /// `Copt`
    Coptic,
    /// `Glag`
    Glagolitic,
    /// `Khar`
    Kharoshthi,
    /// `Talu`
    NewTaiLue,
    /// `Xpeo`
    OldPersian,
    /// `Sylo`
    SylotiNagri,
    /// `Tfng`
    Tifinagh,
    /// `Bali`
    Balinese,
    /// `Xsux`
    Cuneiform,
    /// `Nkoo`
    Nko,
    /// `Phag`
    PhagsPa,
    /// `Phnx`
    Phoenician,
    /// `Cari`
    Carian,
    /// `Cham`
    Cham,
    /// `Kali`
    KayahLi,
    /// `Lepc`
    Lepcha,
    /// `Lyci`
    Lycian,
    /// `Lydi`
    Lydian,
    /// `Olck`
    OlChiki,
    /// `Rjng`
    Rejang,
    /// `Saur`
    Saurashtra,
    /// `Sund`
    Sundanese,
    /// `Vaii`
    Vai,
    /// `Avst`
    Avestan,
    /// `Bamu`
    Bamum,
    /// `Egyp`
    EgyptianHieroglyphs,
    /// `Armi`
    ImperialAramaic,
    /// `Phli`
    InscriptionalPahlavi,
    /// `Prti`
    InscriptionalParthian,
    /// `Java`
    Javanese,
    /// `Kthi`
    Kaithi,
    /// `Lisu`
    Lisu,
    /// `Mtei`
    MeeteiMayek,
    /// `Sarb`
    OldSouthArabian,
    /// `Orkh`
    OldTurkic,
    /// `Samr`
    Samaritan,
    /// `Lana`
    TaiTham,
    /// `Tavt`
    TaiViet,
    /// `Batk`
    Batak,
    /// `Brah`
    Brahmi,
    /// `Mand`
    Mandaic,
    /// `Cakm`
    Chakma,
    /// `Merc`
    MeroiticCursive,
    /// `Mero`
    MeroiticHieroglyphs,
    /// `Plrd`
    Miao,
    /// `Shrd`
    Sharada,
    /// `Sora`
    SoraSompeng,
    /// `Takr`
    Takri,
    /// `Bass`
    BassaVah,
    /// `Aghb`
    CaucasianAlbanian,
    /// `Dupl`
    Duployan,
    /// `Elba`
    Elbasan,
    /// `Gran`
    Grantha,
    /// `Khoj`
    Khojki,
    /// `Sind`
    Khudawadi,
    /// `Lina`
    LinearA,
    /// `Mahj`
    Mahajani,
    /// `Mani`
    Manichaean,
    /// `Mend`
    MendeKikakui,
    /// `Modi`
    Modi,
    /// `Mroo`
    Mro,
    /// `Nbat`
    Nabataean,
    /// `Narb`
    OldNorthArabian,
    /// `Perm`
    OldPermic,
    /// `Hmng`
    PahawhHmong,
    /// `Palm`
    Palmyrene,
    /// `Pauc`
    PauCinHau,
    /// `Phlp`
    PsalterPahlavi,
    /// `Sidd`
    Siddham,
    /// `Tirh`
    Tirhuta,
    /// `Wara`
    WarangCiti,
    /// `Ahom`
    Ahom,
    /// `Hluw`
    AnatolianHieroglyphs,
    /// `Hatr`
    Hatran,
    /// `Mult`
    Multani,
    /// `Hung`
    OldHungarian,
    /// `Sgnw`
    Signwriting,
    /// No script: the tag of no bytes.
    Invalid,
}

/// `tag` with its first letter in upper case and the three others in lower
/// case, as the four-letter codes are written.
pub open spec fn title_case(tag: u32) -> u32 {
    (tag & 0xDFDF_DFDF) | 0x0020_2020
}

/// The script that a tag names. The empty tag names no script. Letter case
/// does not count. A few older codes stand for the script that took their
/// place. A tag that is no known code names `Unknown`.
pub open spec fn script_of_tag(tag: u32) -> Script {
    let t = title_case(tag);
    if tag == 0 {
        Script::Invalid
    } else if t == 0x51616169 {
        Script::Inherited
    } else if t == 0x51616163 {
        Script::Coptic
    } else if t == 0x43797273 {
        Script::Cyrillic
    } else if t == 0x4C617466 || t == 0x4C617467 {
        Script::Latin
    } else if t == 0x53797265 || t == 0x5379726A || t == 0x5379726E {
        Script::Syriac
    } else if exists|s: Script| s != Script::Invalid && #[trigger] s.tag_value() == t {
        choose|s: Script| s != Script::Invalid && #[trigger] s.tag_value() == t
    } else {
        Script::Unknown
    }
}

impl Script {
    /// The four-letter code of the script, packed as a tag's number.
    pub open spec fn tag_value(self) -> u32 {
        match self {
            Script::Common => 0x5A797979,
            Script::Inherited => 0x5A696E68,
            Script::Unknown => 0x5A7A7A7A,
            Script::Arabic => 0x41726162,
            Script::Armenian => 0x41726D6E,
            Script::Bengali => 0x42656E67,
            Script::Cyrillic => 0x4379726C,
            Script::Devanagari => 0x44657661,
            Script::Georgian => 0x47656F72,
            Script::Greek => 0x4772656B,
            Script::Gujarati => 0x47756A72,
            Script::Gurmukhi => 0x47757275,
            Script::Hangul => 0x48616E67,
            Script::Han => 0x48616E69,
            Script::Hebrew => 0x48656272,
            Script::Hiragana => 0x48697261,
            Script::Kannada => 0x4B6E6461,
            Script::Katakana => 0x4B616E61,
            Script::Lao => 0x4C616F6F,
            Script::Latin => 0x4C61746E,
            Script::Malayalam => 0x4D6C796D,
            Script::Oriya => 0x4F727961,
            Script::Tamil => 0x54616D6C,
            Script::Telugu => 0x54656C75,
            Script::Thai => 0x54686169,
            Script::Tibetan => 0x54696274,
            Script::Bopomofo => 0x426F706F,
            Script::Braille => 0x42726169,
            Script::CanadianSyllabics => 0x43616E73,
            Script::Cherokee => 0x43686572,
            Script::Ethiopic => 0x45746869,
            Script::Khmer => 0x4B686D72,
            Script::Mongolian => 0x4D6F6E67,
            Script::Myanmar => 0x4D796D72,
            Script::Ogham => 0x4F67616D,
            Script::Runic => 0x52756E72,
            Script::Sinhala => 0x53696E68,
            Script::Syriac => 0x53797263,
            Script::Thaana => 0x54686161,
            Script::Yi => 0x59696969,
            Script::Deseret => 0x44737274,
            Script::Gothic => 0x476F7468,
            Script::OldItalic => 0x4974616C,
            Script::Buhid => 0x42756864,
            Script::Hanunoo => 0x48616E6F,
            Script::Tagalog => 0x54676C67,
            Script::Tagbanwa => 0x54616762,
            Script::Cypriot => 0x43707274,
            Script::Limbu => 0x4C696D62,
            Script::LinearB => 0x4C696E62,
            Script::Osmanya => 0x4F736D61,
            Script::Shavian => 0x53686177,
            Script::TaiLe => 0x54616C65,
            Script::Ugaritic => 0x55676172,
            Script::Buginese => 0x42756769,
            Script::Coptic => 0x436F7074,
            Script::Glagolitic => 0x476C6167,
            Script::Kharoshthi => 0x4B686172,
            Script::NewTaiLue => 0x54616C75,
            Script::OldPersian => 0x5870656F,
            Script::SylotiNagri => 0x53796C6F,
            Script::Tifinagh => 0x54666E67,
            Script::Balinese => 0x42616C69,
            Script::Cuneiform => 0x58737578,
            Script::Nko => 0x4E6B6F6F,
            Script::PhagsPa => 0x50686167,
            Script::Phoenician => 0x50686E78,
            Script::Carian => 0x43617269,
            Script::Cham => 0x4368616D,
            Script::KayahLi => 0x4B616C69,
            Script::Lepcha => 0x4C657063,
            Script::Lycian => 0x4C796369,
            Script::Lydian => 0x4C796469,
            Script::OlChiki => 0x4F6C636B,
            Script::Rejang => 0x526A6E67,
            Script::Saurashtra => 0x53617572,
            Script::Sundanese => 0x53756E64,
            Script::Vai => 0x56616969,
            Script::Avestan => 0x41767374,
            Script::Bamum => 0x42616D75,
            Script::EgyptianHieroglyphs => 0x45677970,
            Script::ImperialAramaic => 0x41726D69,
            Script::InscriptionalPahlavi => 0x50686C69,
            Script::InscriptionalParthian => 0x50727469,
            Script::Javanese => 0x4A617661,
            Script::Kaithi => 0x4B746869,
            Script::Lisu => 0x4C697375,
            Script::MeeteiMayek => 0x4D746569,
            Script::OldSouthArabian => 0x53617262,
            Script::OldTurkic => 0x4F726B68,
            Script::Samaritan => 0x53616D72,
            Script::TaiTham => 0x4C616E61,
            Script::TaiViet => 0x54617674,
            Script::Batak => 0x4261746B,
            Script::Brahmi => 0x42726168,
            Script::Mandaic => 0x4D616E64,
            Script::Chakma => 0x43616B6D,
            Script::MeroiticCursive => 0x4D657263,
            Script::MeroiticHieroglyphs => 0x4D65726F,
            Script::Miao => 0x506C7264,
            Script::Sharada => 0x53687264,
            Script::SoraSompeng => 0x536F7261,
            Script::Takri => 0x54616B72,
            Script::BassaVah => 0x42617373,
            Script::CaucasianAlbanian => 0x41676862,
            Script::Duployan => 0x4475706C,
            Script::Elbasan => 0x456C6261,
            Script::Grantha => 0x4772616E,
            Script::Khojki => 0x4B686F6A,
            Script::Khudawadi => 0x53696E64,
            Script::LinearA => 0x4C696E61,
            Script::Mahajani => 0x4D61686A,
            Script::Manichaean => 0x4D616E69,
            Script::MendeKikakui => 0x4D656E64,
            Script::Modi => 0x4D6F6469,
            Script::Mro => 0x4D726F6F,
            Script::Nabataean => 0x4E626174,
            Script::OldNorthArabian => 0x4E617262,
            Script::OldPermic => 0x5065726D,
            Script::PahawhHmong => 0x486D6E67,
            Script::Palmyrene => 0x50616C6D,
            Script::PauCinHau => 0x50617563,
            Script::PsalterPahlavi => 0x50686C70,
            Script::Siddham => 0x53696464,
            Script::Tirhuta => 0x54697268,
            Script::WarangCiti => 0x57617261,
            Script::Ahom => 0x41686F6D,
            Script::AnatolianHieroglyphs => 0x486C7577,
            Script::Hatran => 0x48617472,
            Script::Multani => 0x4D756C74,
            Script::OldHungarian => 0x48756E67,
            Script::Signwriting => 0x53676E77,
            Script::Invalid => 0x00000000,
        }
    }

    /// Whether the script is written from right to left when set
    /// horizontally.
    pub open spec fn is_right_to_left(self) -> bool {
        match self {
            Script::Arabic
            | Script::Hebrew
            | Script::Syriac
            | Script::Thaana
            | Script::Cypriot
            | Script::Kharoshthi
            | Script::Phoenician
            | Script::Nko
            | Script::Lydian
            | Script::Avestan
            | Script::ImperialAramaic
            | Script::InscriptionalPahlavi
            | Script::InscriptionalParthian
            | Script::OldSouthArabian
            | Script::OldTurkic
            | Script::Samaritan
            | Script::Mandaic
            | Script::MeroiticCursive
            | Script::MeroiticHieroglyphs
            | Script::Manichaean
            | Script::MendeKikakui
            | Script::Nabataean
            | Script::OldNorthArabian
            | Script::Palmyrene
            | Script::PsalterPahlavi
            | Script::Hatran
            | Script::OldHungarian => true,
            _ => false,
        }
    }

    /// The script that `tag` names.
    pub fn from_iso15924_tag(tag: Tag) -> (script: Script)
        ensures
            script == script_of_tag(tag.value),
    {
        if tag.value == 0 {
            return Script::Invalid;
        }
        let t: u32 = (tag.value & 0xDFDF_DFDF) | 0x0020_2020;
        match t {
            0x51616169 => Script::Inherited,
            0x51616163 => Script::Coptic,
            0x43797273 => Script::Cyrillic,
            0x4C617466 => Script::Latin,
            0x4C617467 => Script::Latin,
            0x53797265 => Script::Syriac,
            0x5379726A => Script::Syriac,
            0x5379726E => Script::Syriac,
            0x5A797979 => {
                assert(Script::Common.tag_value() == t);
                Script::Common
            },
            0x5A696E68 => {
                assert(Script::Inherited.tag_value() == t);
                Script::Inherited
            },
            0x5A7A7A7A => {
                assert(Script::Unknown.tag_value() == t);
                Script::Unknown
            },
            0x41726162 => {
                assert(Script::Arabic.tag_value() == t);
                Script::Arabic
            },
            0x41726D6E => {
                assert(Script::Armenian.tag_value() == t);
                Script::Armenian
            },
            0x42656E67 => {
                assert(Script::Bengali.tag_value() == t);
                Script::Bengali
            },
            0x4379726C => {
                assert(Script::Cyrillic.tag_value() == t);
                Script::Cyrillic
            },
            0x44657661 => {
                assert(Script::Devanagari.tag_value() == t);
                Script::Devanagari
            },
            0x47656F72 => {
                assert(Script::Georgian.tag_value() == t);
                Script::Georgian
            },
            0x4772656B => {
                assert(Script::Greek.tag_value() == t);
                Script::Greek
            },
            0x47756A72 => {
                assert(Script::Gujarati.tag_value() == t);
                Script::Gujarati
            },
            0x47757275 => {
                assert(Script::Gurmukhi.tag_value() == t);
                Script::Gurmukhi
            },
            0x48616E67 => {
                assert(Script::Hangul.tag_value() == t);
                Script::Hangul
            },
            0x48616E69 => {
                assert(Script::Han.tag_value() == t);
                Script::Han
            },
            0x48656272 => {
                assert(Script::Hebrew.tag_value() == t);
                Script::Hebrew
            },
            0x48697261 => {
                assert(Script::Hiragana.tag_value() == t);
                Script::Hiragana
            },
            0x4B6E6461 => {
                assert(Script::Kannada.tag_value() == t);
                Script::Kannada
            },
            0x4B616E61 => {
                assert(Script::Katakana.tag_value() == t);
                Script::Katakana
            },
            0x4C616F6F => {
                assert(Script::Lao.tag_value() == t);
                Script::Lao
            },
            0x4C61746E => {
                assert(Script::Latin.tag_value() == t);
                Script::Latin
            },
            0x4D6C796D => {
                assert(Script::Malayalam.tag_value() == t);
                Script::Malayalam
            },
            0x4F727961 => {
                assert(Script::Oriya.tag_value() == t);
                Script::Oriya
            },
            0x54616D6C => {
                assert(Script::Tamil.tag_value() == t);
                Script::Tamil
            },
            0x54656C75 => {
                assert(Script::Telugu.tag_value() == t);
                Script::Telugu
            },
            0x54686169 => {
                assert(Script::Thai.tag_value() == t);
                Script::Thai
            },
            0x54696274 => {
                assert(Script::Tibetan.tag_value() == t);
                Script::Tibetan
            },
            0x426F706F => {
                assert(Script::Bopomofo.tag_value() == t);
                Script::Bopomofo
            },
            0x42726169 => {
                assert(Script::Braille.tag_value() == t);
                Script::Braille
            },
            0x43616E73 => {
                assert(Script::CanadianSyllabics.tag_value() == t);
                Script::CanadianSyllabics
            },
            0x43686572 => {
                assert(Script::Cherokee.tag_value() == t);
                Script::Cherokee
            },
            0x45746869 => {
                assert(Script::Ethiopic.tag_value() == t);
                Script::Ethiopic
            },
            0x4B686D72 => {
                assert(Script::Khmer.tag_value() == t);
                Script::Khmer
            },
            0x4D6F6E67 => {
                assert(Script::Mongolian.tag_value() == t);
                Script::Mongolian
            },
            0x4D796D72 => {
                assert(Script::Myanmar.tag_value() == t);
                Script::Myanmar
            },
            0x4F67616D => {
                assert(Script::Ogham.tag_value() == t);
                Script::Ogham
            },
            0x52756E72 => {
                assert(Script::Runic.tag_value() == t);
                Script::Runic
            },
            0x53696E68 => {
                assert(Script::Sinhala.tag_value() == t);
                Script::Sinhala
            },
            0x53797263 => {
                assert(Script::Syriac.tag_value() == t);
                Script::Syriac
            },
            0x54686161 => {
                assert(Script::Thaana.tag_value() == t);
                Script::Thaana
            },
            0x59696969 => {
                assert(Script::Yi.tag_value() == t);
                Script::Yi
            },
            0x44737274 => {
                assert(Script::Deseret.tag_value() == t);
                Script::Deseret
            },
            0x476F7468 => {
                assert(Script::Gothic.tag_value() == t);
                Script::Gothic
            },
            0x4974616C => {
                assert(Script::OldItalic.tag_value() == t);
                Script::OldItalic
            },
            0x42756864 => {
                assert(Script::Buhid.tag_value() == t);
                Script::Buhid
            },
            0x48616E6F => {
                assert(Script::Hanunoo.tag_value() == t);
                Script::Hanunoo
            },
            0x54676C67 => {
                assert(Script::Tagalog.tag_value() == t);
                Script::Tagalog
            },
            0x54616762 => {
                assert(Script::Tagbanwa.tag_value() == t);
                Script::Tagbanwa
            },
            0x43707274 => {
                assert(Script::Cypriot.tag_value() == t);
                Script::Cypriot
            },
            0x4C696D62 => {
                assert(Script::Limbu.tag_value() == t);
                Script::Limbu
            },
            0x4C696E62 => {
                assert(Script::LinearB.tag_value() == t);
                Script::LinearB
            },
            0x4F736D61 => {
                assert(Script::Osmanya.tag_value() == t);
                Script::Osmanya
            },
            0x53686177 => {
                assert(Script::Shavian.tag_value() == t);
                Script::Shavian
            },
            0x54616C65 => {
                assert(Script::TaiLe.tag_value() == t);
                Script::TaiLe
            },
            0x55676172 => {
                assert(Script::Ugaritic.tag_value() == t);
                Script::Ugaritic
            },
            0x42756769 => {
                assert(Script::Buginese.tag_value() == t);
                Script::Buginese
            },
            0x436F7074 => {
                assert(Script::Coptic.tag_value() == t);
                Script::Coptic
            },
            0x476C6167 => {
                assert(Script::Glagolitic.tag_value() == t);
                Script::Glagolitic
            },
            0x4B686172 => {
                assert(Script::Kharoshthi.tag_value() == t);
                Script::Kharoshthi
            },
            0x54616C75 => {
                assert(Script::NewTaiLue.tag_value() == t);
                Script::NewTaiLue
            },
            0x5870656F => {
                assert(Script::OldPersian.tag_value() == t);
                Script::OldPersian
            },
            0x53796C6F => {
                assert(Script::SylotiNagri.tag_value() == t);
                Script::SylotiNagri
            },
            0x54666E67 => {
                assert(Script::Tifinagh.tag_value() == t);
                Script::Tifinagh
            },
            0x42616C69 => {
                assert(Script::Balinese.tag_value() == t);
                Script::Balinese
            },
            0x58737578 => {
                assert(Script::Cuneiform.tag_value() == t);
                Script::Cuneiform
            },
            0x4E6B6F6F => {
                assert(Script::Nko.tag_value() == t);
                Script::Nko
            },
            0x50686167 => {
                assert(Script::PhagsPa.tag_value() == t);
                Script::PhagsPa
            },
            0x50686E78 => {
                assert(Script::Phoenician.tag_value() == t);
                Script::Phoenician
            },
            0x43617269 => {
                assert(Script::Carian.tag_value() == t);
                Script::Carian
            },
            0x4368616D => {
                assert(Script::Cham.tag_value() == t);
                Script::Cham
            },
            0x4B616C69 => {
                assert(Script::KayahLi.tag_value() == t);
                Script::KayahLi
            },
            0x4C657063 => {
                assert(Script::Lepcha.tag_value() == t);
                Script::Lepcha
            },
            0x4C796369 => {
                assert(Script::Lycian.tag_value() == t);
                Script::Lycian
            },
            0x4C796469 => {
                assert(Script::Lydian.tag_value() == t);
                Script::Lydian
            },
            0x4F6C636B => {
                assert(Script::OlChiki.tag_value() == t);
                Script::OlChiki
            },
            0x526A6E67 => {
                assert(Script::Rejang.tag_value() == t);
                Script::Rejang
            },
            0x53617572 => {
                assert(Script::Saurashtra.tag_value() == t);
                Script::Saurashtra
            },
            0x53756E64 => {
                assert(Script::Sundanese.tag_value() == t);
                Script::Sundanese
            },
            0x56616969 => {
                assert(Script::Vai.tag_value() == t);
                Script::Vai
            },
            0x41767374 => {
                assert(Script::Avestan.tag_value() == t);
                Script::Avestan
            },
            0x42616D75 => {
                assert(Script::Bamum.tag_value() == t);
                Script::Bamum
            },
            0x45677970 => {
                assert(Script::EgyptianHieroglyphs.tag_value() == t);
                Script::EgyptianHieroglyphs
            },
            0x41726D69 => {
                assert(Script::ImperialAramaic.tag_value() == t);
                Script::ImperialAramaic
            },
            0x50686C69 => {
                assert(Script::InscriptionalPahlavi.tag_value() == t);
                Script::InscriptionalPahlavi
            },
            0x50727469 => {
                assert(Script::InscriptionalParthian.tag_value() == t);
                Script::InscriptionalParthian
            },
            0x4A617661 => {
                assert(Script::Javanese.tag_value() == t);
                Script::Javanese
            },
            0x4B746869 => {
                assert(Script::Kaithi.tag_value() == t);
                Script::Kaithi
            },
            0x4C697375 => {
                assert(Script::Lisu.tag_value() == t);
                Script::Lisu
            },
            0x4D746569 => {
                assert(Script::MeeteiMayek.tag_value() == t);
                Script::MeeteiMayek
            },
            0x53617262 => {
                assert(Script::OldSouthArabian.tag_value() == t);
                Script::OldSouthArabian
            },
            0x4F726B68 => {
                assert(Script::OldTurkic.tag_value() == t);
                Script::OldTurkic
            },
            0x53616D72 => {
                assert(Script::Samaritan.tag_value() == t);
                Script::Samaritan
            },
            0x4C616E61 => {
                assert(Script::TaiTham.tag_value() == t);
                Script::TaiTham
            },
            0x54617674 => {
                assert(Script::TaiViet.tag_value() == t);
                Script::TaiViet
            },
            0x4261746B => {
                assert(Script::Batak.tag_value() == t);
                Script::Batak
            },
            0x42726168 => {
                assert(Script::Brahmi.tag_value() == t);
                Script::Brahmi
            },
            0x4D616E64 => {
                assert(Script::Mandaic.tag_value() == t);
                Script::Mandaic
            },
            0x43616B6D => {
                assert(Script::Chakma.tag_value() == t);
                Script::Chakma
            },
            0x4D657263 => {
                assert(Script::MeroiticCursive.tag_value() == t);
                Script::MeroiticCursive
            },
            0x4D65726F => {
                assert(Script::MeroiticHieroglyphs.tag_value() == t);
                Script::MeroiticHieroglyphs
            },
            0x506C7264 => {
                assert(Script::Miao.tag_value() == t);
                Script::Miao
            },
            0x53687264 => {
                assert(Script::Sharada.tag_value() == t);
                Script::Sharada
            },
            0x536F7261 => {
                assert(Script::SoraSompeng.tag_value() == t);
                Script::SoraSompeng
            },
            0x54616B72 => {
                assert(Script::Takri.tag_value() == t);
                Script::Takri
            },
            0x42617373 => {
                assert(Script::BassaVah.tag_value() == t);
                Script::BassaVah
            },
            0x41676862 => {
                assert(Script::CaucasianAlbanian.tag_value() == t);
                Script::CaucasianAlbanian
            },
            0x4475706C => {
                assert(Script::Duployan.tag_value() == t);
                Script::Duployan
            },
            0x456C6261 => {
                assert(Script::Elbasan.tag_value() == t);
                Script::Elbasan
            },
            0x4772616E => {
                assert(Script::Grantha.tag_value() == t);
                Script::Grantha
            },
            0x4B686F6A => {
                assert(Script::Khojki.tag_value() == t);
                Script::Khojki
            },
            0x53696E64 => {
                assert(Script::Khudawadi.tag_value() == t);
                Script::Khudawadi
            },
            0x4C696E61 => {
                assert(Script::LinearA.tag_value() == t);
                Script::LinearA
            },
            0x4D61686A => {
                assert(Script::Mahajani.tag_value() == t);
                Script::Mahajani
            },
            0x4D616E69 => {
                assert(Script::Manichaean.tag_value() == t);
                Script::Manichaean
            },
            0x4D656E64 => {
                assert(Script::MendeKikakui.tag_value() == t);
                Script::MendeKikakui
            },
            0x4D6F6469 => {
                assert(Script::Modi.tag_value() == t);
                Script::Modi
            },
            0x4D726F6F => {
                assert(Script::Mro.tag_value() == t);
                Script::Mro
            },
            0x4E626174 => {
                assert(Script::Nabataean.tag_value() == t);
                Script::Nabataean
            },
            0x4E617262 => {
                assert(Script::OldNorthArabian.tag_value() == t);
                Script::OldNorthArabian
            },
            0x5065726D => {
                assert(Script::OldPermic.tag_value() == t);
                Script::OldPermic
            },
            0x486D6E67 => {
                assert(Script::PahawhHmong.tag_value() == t);
                Script::PahawhHmong
            },
            0x50616C6D => {
                assert(Script::Palmyrene.tag_value() == t);
                Script::Palmyrene
            },
            0x50617563 => {
                assert(Script::PauCinHau.tag_value() == t);
                Script::PauCinHau
            },
            0x50686C70 => {
                assert(Script::PsalterPahlavi.tag_value() == t);
                Script::PsalterPahlavi
            },
            0x53696464 => {
                assert(Script::Siddham.tag_value() == t);
                Script::Siddham
            },
            0x54697268 => {
                assert(Script::Tirhuta.tag_value() == t);
                Script::Tirhuta
            },
            0x57617261 => {
                assert(Script::WarangCiti.tag_value() == t);
                Script::WarangCiti
            },
            0x41686F6D => {
                assert(Script::Ahom.tag_value() == t);
                Script::Ahom
            },
            0x486C7577 => {
                assert(Script::AnatolianHieroglyphs.tag_value() == t);
                Script::AnatolianHieroglyphs
            },
            0x48617472 => {
                assert(Script::Hatran.tag_value() == t);
                Script::Hatran
            },
            0x4D756C74 => {
                assert(Script::Multani.tag_value() == t);
                Script::Multani
            },
            0x48756E67 => {
                assert(Script::OldHungarian.tag_value() == t);
                Script::OldHungarian
            },
            0x53676E77 => {
                assert(Script::Signwriting.tag_value() == t);
                Script::Signwriting
            },
            _ => Script::Unknown,
        }
    }

    /// The tag that holds the script's four-letter code.
    pub fn to_iso15924_tag(self) -> (tag: Tag)
        ensures
            tag.value == self.tag_value(),
    {
        let value: u32 = match self {
            Script::Common => 0x5A797979,
            Script::Inherited => 0x5A696E68,
            Script::Unknown => 0x5A7A7A7A,
            Script::Arabic => 0x41726162,
            Script::Armenian => 0x41726D6E,
            Script::Bengali => 0x42656E67,
            Script::Cyrillic => 0x4379726C,
            Script::Devanagari => 0x44657661,
            Script::Georgian => 0x47656F72,
            Script::Greek => 0x4772656B,
            Script::Gujarati => 0x47756A72,
            Script::Gurmukhi => 0x47757275,
            Script::Hangul => 0x48616E67,
            Script::Han => 0x48616E69,
            Script::Hebrew => 0x48656272,
            Script::Hiragana => 0x48697261,
            Script::Kannada => 0x4B6E6461,
            Script::Katakana => 0x4B616E61,
            Script::Lao => 0x4C616F6F,
            Script::Latin => 0x4C61746E,
            Script::Malayalam => 0x4D6C796D,
            Script::Oriya => 0x4F727961,
            Script::Tamil => 0x54616D6C,
            Script::Telugu => 0x54656C75,
            Script::Thai => 0x54686169,
            Script::Tibetan => 0x54696274,
            Script::Bopomofo => 0x426F706F,
            Script::Braille => 0x42726169,
            Script::CanadianSyllabics => 0x43616E73,
            Script::Cherokee => 0x43686572,
            Script::Ethiopic => 0x45746869,
            Script::Khmer => 0x4B686D72,
            Script::Mongolian => 0x4D6F6E67,
            Script::Myanmar => 0x4D796D72,
            Script::Ogham => 0x4F67616D,
            Script::Runic => 0x52756E72,
            Script::Sinhala => 0x53696E68,
            Script::Syriac => 0x53797263,
            Script::Thaana => 0x54686161,
            Script::Yi => 0x59696969,
            Script::Deseret => 0x44737274,
            Script::Gothic => 0x476F7468,
            Script::OldItalic => 0x4974616C,
            Script::Buhid => 0x42756864,
            Script::Hanunoo => 0x48616E6F,
            Script::Tagalog => 0x54676C67,
            Script::Tagbanwa => 0x54616762,
            Script::Cypriot => 0x43707274,
            Script::Limbu => 0x4C696D62,
            Script::LinearB => 0x4C696E62,
            Script::Osmanya => 0x4F736D61,
            Script::Shavian => 0x53686177,
            Script::TaiLe => 0x54616C65,
            Script::Ugaritic => 0x55676172,
            Script::Buginese => 0x42756769,
            Script::Coptic => 0x436F7074,
            Script::Glagolitic => 0x476C6167,
            Script::Kharoshthi => 0x4B686172,
            Script::NewTaiLue => 0x54616C75,
            Script::OldPersian => 0x5870656F,
            Script::SylotiNagri => 0x53796C6F,
            Script::Tifinagh => 0x54666E67,
            Script::Balinese => 0x42616C69,
            Script::Cuneiform => 0x58737578,
            Script::Nko => 0x4E6B6F6F,
            Script::PhagsPa => 0x50686167,
            Script::Phoenician => 0x50686E78,
            Script::Carian => 0x43617269,
            Script::Cham => 0x4368616D,
            Script::KayahLi => 0x4B616C69,
            Script::Lepcha => 0x4C657063,
            Script::Lycian => 0x4C796369,
            Script::Lydian => 0x4C796469,
            Script::OlChiki => 0x4F6C636B,
            Script::Rejang => 0x526A6E67,
            Script::Saurashtra => 0x53617572,
            Script::Sundanese => 0x53756E64,
            Script::Vai => 0x56616969,
            Script::Avestan => 0x41767374,
            Script::Bamum => 0x42616D75,
            Script::EgyptianHieroglyphs => 0x45677970,
            Script::ImperialAramaic => 0x41726D69,
            Script::InscriptionalPahlavi => 0x50686C69,
            Script::InscriptionalParthian => 0x50727469,
            Script::Javanese => 0x4A617661,
            Script::Kaithi => 0x4B746869,
            Script::Lisu => 0x4C697375,
            Script::MeeteiMayek => 0x4D746569,
            Script::OldSouthArabian => 0x53617262,
            Script::OldTurkic => 0x4F726B68,
            Script::Samaritan => 0x53616D72,
            Script::TaiTham => 0x4C616E61,
            Script::TaiViet => 0x54617674,
            Script::Batak => 0x4261746B,
            Script::Brahmi => 0x42726168,
            Script::Mandaic => 0x4D616E64,
            Script::Chakma => 0x43616B6D,
            Script::MeroiticCursive => 0x4D657263,
            Script::MeroiticHieroglyphs => 0x4D65726F,
            Script::Miao => 0x506C7264,
            Script::Sharada => 0x53687264,
            Script::SoraSompeng => 0x536F7261,
            Script::Takri => 0x54616B72,
            Script::BassaVah => 0x42617373,
            Script::CaucasianAlbanian => 0x41676862,
            Script::Duployan => 0x4475706C,
            Script::Elbasan => 0x456C6261,
            Script::Grantha => 0x4772616E,
            Script::Khojki => 0x4B686F6A,
            Script::Khudawadi => 0x53696E64,
            Script::LinearA => 0x4C696E61,
            Script::Mahajani => 0x4D61686A,
            Script::Manichaean => 0x4D616E69,
            Script::MendeKikakui => 0x4D656E64,
            Script::Modi => 0x4D6F6469,
            Script::Mro => 0x4D726F6F,
            Script::Nabataean => 0x4E626174,
            Script::OldNorthArabian => 0x4E617262,
            Script::OldPermic => 0x5065726D,
            Script::PahawhHmong => 0x486D6E67,
            Script::Palmyrene => 0x50616C6D,
            Script::PauCinHau => 0x50617563,
            Script::PsalterPahlavi => 0x50686C70,
            Script::Siddham => 0x53696464,
            Script::Tirhuta => 0x54697268,
            Script::WarangCiti => 0x57617261,
            Script::Ahom => 0x41686F6D,
            Script::AnatolianHieroglyphs => 0x486C7577,
            Script::Hatran => 0x48617472,
            Script::Multani => 0x4D756C74,
            Script::OldHungarian => 0x48756E67,
            Script::Signwriting => 0x53676E77,
            Script::Invalid => 0x00000000,
        };
        Tag { value }
    }

    /// The direction in which the script runs when set horizontally.
    pub fn horizontal_direction(self) -> (direction: Direction)
        ensures
            direction == (if self.is_right_to_left() {
                Direction::Rtl
            } else {
                Direction::Ltr
            }),
    {
        match self {
            Script::Arabic
            | Script::Hebrew
            | Script::Syriac
            | Script::Thaana
            | Script::Cypriot
            | Script::Kharoshthi
            | Script::Phoenician
            | Script::Nko
            | Script::Lydian
            | Script::Avestan
            | Script::ImperialAramaic
            | Script::InscriptionalPahlavi
            | Script::InscriptionalParthian
            | Script::OldSouthArabian
            | Script::OldTurkic
            | Script::Samaritan
            | Script::Mandaic
            | Script::MeroiticCursive
            | Script::MeroiticHieroglyphs
            | Script::Manichaean
            | Script::MendeKikakui
            | Script::Nabataean
            | Script::OldNorthArabian
            | Script::Palmyrene
            | Script::PsalterPahlavi
            | Script::Hatran
            | Script::OldHungarian => Direction::Rtl,
            _ => Direction::Ltr,
        }
    }

    /// The script whose code the text holds, read as a tag.
    pub fn from_str(text: &str) -> (script: Script)
        ensures
            script == script_of_tag(Tag::spec_from_str(text@).value),
    {
        Script::from_iso15924_tag(Tag::from_str(text))
    }
}

} // verus!
