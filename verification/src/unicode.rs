//! What is known of each codepoint: its general category, its combining
//! class, its script and its mirror image, as tables that the caller fills
//! and that may fall back on the tables of a parent.

use crate::common::Script;
use vstd::prelude::*;
use vstd::std_specs::convert::FromSpecImpl;

verus! {

/// The general category of a codepoint.
#[derive(Clone, Copy, Debug, PartialEq, Eq, Hash, Structural)]
pub enum UnicodeGeneralCategory {
    /// Cc: control.
    Control,
    /// Cf: format.
    Format,
    /// Cn: unassigned.
    Unassigned,
    /// Co: private use.
    PrivateUse,
    /// Cs: surrogate.
    Surrogate,
    /// Ll: lowercase letter.
    LowercaseLetter,
    /// Lm: modifier letter.
    ModifierLetter,
    /// Lo: other letter.
    OtherLetter,
    /// Lt: titlecase letter.
    TitlecaseLetter,
    /// Lu: uppercase letter.
    UppercaseLetter,
    /// Mc: spacing mark.
    SpacingMark,
    /// Me: enclosing mark.
    EnclosingMark,
    /// Mn: non-spacing mark.
    NonSpacingMark,
    /// Nd: decimal number.
    DecimalNumber,
    /// Nl: letter number.
    LetterNumber,
    /// No: other number.
    OtherNumber,
    /// Pc: connector punctuation.
    ConnectPunctuation,
    /// Pd: dash punctuation.
    DashPunctuation,
    /// Pe: close punctuation.
    ClosePunctuation,
    /// Pf: final punctuation.
    FinalPunctuation,
    /// Pi: initial punctuation.
    InitialPunctuation,
    /// Po: other punctuation.
    OtherPunctuation,
    /// Ps: open punctuation.
    OpenPunctuation,
    /// Sc: currency symbol.
    CurrencySymbol,
    /// Sk: modifier symbol.
    ModifierSymbol,
    /// Sm: math symbol.
    MathSymbol,
    /// So: other symbol.
    OtherSymbol,
    /// Zl: line separator.
    LineSeparator,
    /// Zp: paragraph separator.
    ParagraphSeparator,
    /// Zs: space separator.
    SpaceSeparator,
}

/// The canonical combining class of a codepoint.
#[allow(non_camel_case_types)]
#[derive(Clone, Copy, Debug, PartialEq, Eq, Hash, Structural)]
pub enum UnicodeCombiningClass {
    /// Class 0.
    NotReordered,
    /// Class 1.
    Overlay,
    /// Class 7.
    Nukta,
    /// Class 8.
    KanaVoicing,
    /// Class 9.
    Virama,
    /// Class 10.
    Ccc10,
    /// Class 11.
    Ccc11,
    /// Class 12.
    Ccc12,
    /// Class 13.
    Ccc13,
    /// Class 14.
    Ccc14,
    /// Class 15.
    Ccc15,
    /// Class 16.
    Ccc16,
    /// Class 17.
    Ccc17,
    /// Class 18.
    Ccc18,
    /// Class 19.
    Ccc19,
    /// Class 20.
    Ccc20,
    /// Class 21.
    Ccc21,
    /// Class 22.
    Ccc22,
    /// Class 23.
    Ccc23,
    /// Class 24.
    Ccc24,
    /// Class 25.
    Ccc25,
    /// Class 26.
    Ccc26,
    /// Class 27.
    Ccc27,
    /// Class 28.
    Ccc28,
    /// Class 29.
    Ccc29,
    /// Class 30.
    Ccc30,
    /// Class 31.
    Ccc31,
    /// Class 32.
    Ccc32,
    /// Class 33.
    Ccc33,
    /// Class 34.
    Ccc34,
    /// Class 35.
    Ccc35,
    /// Class 36.
    Ccc36,
    /// Class 84.
    Ccc84,
    /// Class 91.
    Ccc91,
    /// Class 103.
    Ccc103,
    /// Class 107.
    Ccc107,
    /// Class 118.
    Ccc118,
    /// Class 122.
    Ccc122,
    /// Class 129.
    Ccc129,
    /// Class 130.
    Ccc130,
    /// Class 132.
    Ccc133,
    /// Class 200.
    AttachedBelowLeft,
    /// Class 202.
    AttachedBelow,
    /// Class 214.
    AttachedAbove,
    /// Class 216.
    AttachedAboveRight,
    /// Class 218.
    BelowLeft,
    /// Class 220.
    Below,
    /// Class 222.
    BelowRight,
    /// Class 224.
    Left,
    /// Class 226.
    Right,
    /// Class 228.
    AboveLeft,
    /// Class 230.
    Above,
    /// Class 232.
    AboveRight,
    /// Class 233.
    DoubleBelow,
    /// Class 234.
    DoubleAbove,
    /// Class 240.
    IotaSubscript,
    /// Class 255.
    Invalid,
    /// A class between 0 and 254 that has no name here.
    __Nonexhaustive,
}

impl UnicodeCombiningClass {
    /// The number of the class. The classes without a name share 254.
    pub open spec fn number(self) -> u32 {
        match self {
            UnicodeCombiningClass::NotReordered => 0,
            UnicodeCombiningClass::Overlay => 1,
            UnicodeCombiningClass::Nukta => 7,
            UnicodeCombiningClass::KanaVoicing => 8,
            UnicodeCombiningClass::Virama => 9,
            UnicodeCombiningClass::Ccc10 => 10,
            UnicodeCombiningClass::Ccc11 => 11,
            UnicodeCombiningClass::Ccc12 => 12,
            UnicodeCombiningClass::Ccc13 => 13,
            UnicodeCombiningClass::Ccc14 => 14,
            UnicodeCombiningClass::Ccc15 => 15,
            UnicodeCombiningClass::Ccc16 => 16,
            UnicodeCombiningClass::Ccc17 => 17,
            UnicodeCombiningClass::Ccc18 => 18,
            UnicodeCombiningClass::Ccc19 => 19,
            UnicodeCombiningClass::Ccc20 => 20,
            UnicodeCombiningClass::Ccc21 => 21,
            UnicodeCombiningClass::Ccc22 => 22,
            UnicodeCombiningClass::Ccc23 => 23,
            UnicodeCombiningClass::Ccc24 => 24,
            UnicodeCombiningClass::Ccc25 => 25,
            UnicodeCombiningClass::Ccc26 => 26,
            UnicodeCombiningClass::Ccc27 => 27,
            UnicodeCombiningClass::Ccc28 => 28,
            UnicodeCombiningClass::Ccc29 => 29,
            UnicodeCombiningClass::Ccc30 => 30,
            UnicodeCombiningClass::Ccc31 => 31,
            UnicodeCombiningClass::Ccc32 => 32,
            UnicodeCombiningClass::Ccc33 => 33,
            UnicodeCombiningClass::Ccc34 => 34,
            UnicodeCombiningClass::Ccc35 => 35,
            UnicodeCombiningClass::Ccc36 => 36,
            UnicodeCombiningClass::Ccc84 => 84,
            UnicodeCombiningClass::Ccc91 => 91,
            UnicodeCombiningClass::Ccc103 => 103,
            UnicodeCombiningClass::Ccc107 => 107,
            UnicodeCombiningClass::Ccc118 => 118,
            UnicodeCombiningClass::Ccc122 => 122,
            UnicodeCombiningClass::Ccc129 => 129,
            UnicodeCombiningClass::Ccc130 => 130,
            UnicodeCombiningClass::Ccc133 => 132,
            UnicodeCombiningClass::AttachedBelowLeft => 200,
            UnicodeCombiningClass::AttachedBelow => 202,
            UnicodeCombiningClass::AttachedAbove => 214,
            UnicodeCombiningClass::AttachedAboveRight => 216,
            UnicodeCombiningClass::BelowLeft => 218,
            UnicodeCombiningClass::Below => 220,
            UnicodeCombiningClass::BelowRight => 222,
            UnicodeCombiningClass::Left => 224,
            UnicodeCombiningClass::Right => 226,
            UnicodeCombiningClass::AboveLeft => 228,
            UnicodeCombiningClass::Above => 230,
            UnicodeCombiningClass::AboveRight => 232,
            UnicodeCombiningClass::DoubleBelow => 233,
            UnicodeCombiningClass::DoubleAbove => 234,
            UnicodeCombiningClass::IotaSubscript => 240,
            UnicodeCombiningClass::Invalid => 255,
            UnicodeCombiningClass::__Nonexhaustive => 254,
        }
    }

    /// The class of a number: the class with that number where one has it,
    /// else the class without a name.
    pub open spec fn of_number(number: u32) -> UnicodeCombiningClass {
        if exists|c: UnicodeCombiningClass|
            c != UnicodeCombiningClass::__Nonexhaustive && #[trigger] c.number() == number {
            choose|c: UnicodeCombiningClass|
                c != UnicodeCombiningClass::__Nonexhaustive && #[trigger] c.number() == number
        } else {
            UnicodeCombiningClass::__Nonexhaustive
        }
    }

    /// The number of the class.
    pub fn to_u32(self) -> (number: u32)
        ensures
            number == self.number(),
    {
        match self {
            UnicodeCombiningClass::NotReordered => 0,
            UnicodeCombiningClass::Overlay => 1,
            UnicodeCombiningClass::Nukta => 7,
            UnicodeCombiningClass::KanaVoicing => 8,
            UnicodeCombiningClass::Virama => 9,
            UnicodeCombiningClass::Ccc10 => 10,
            UnicodeCombiningClass::Ccc11 => 11,
            UnicodeCombiningClass::Ccc12 => 12,
            UnicodeCombiningClass::Ccc13 => 13,
            UnicodeCombiningClass::Ccc14 => 14,
            UnicodeCombiningClass::Ccc15 => 15,
            UnicodeCombiningClass::Ccc16 => 16,
            UnicodeCombiningClass::Ccc17 => 17,
            UnicodeCombiningClass::Ccc18 => 18,
            UnicodeCombiningClass::Ccc19 => 19,
            UnicodeCombiningClass::Ccc20 => 20,
            UnicodeCombiningClass::Ccc21 => 21,
            UnicodeCombiningClass::Ccc22 => 22,
            UnicodeCombiningClass::Ccc23 => 23,
            UnicodeCombiningClass::Ccc24 => 24,
            UnicodeCombiningClass::Ccc25 => 25,
            UnicodeCombiningClass::Ccc26 => 26,
            UnicodeCombiningClass::Ccc27 => 27,
            UnicodeCombiningClass::Ccc28 => 28,
            UnicodeCombiningClass::Ccc29 => 29,
            UnicodeCombiningClass::Ccc30 => 30,
            UnicodeCombiningClass::Ccc31 => 31,
            UnicodeCombiningClass::Ccc32 => 32,
            UnicodeCombiningClass::Ccc33 => 33,
            UnicodeCombiningClass::Ccc34 => 34,
            UnicodeCombiningClass::Ccc35 => 35,
            UnicodeCombiningClass::Ccc36 => 36,
            UnicodeCombiningClass::Ccc84 => 84,
            UnicodeCombiningClass::Ccc91 => 91,
            UnicodeCombiningClass::Ccc103 => 103,
            UnicodeCombiningClass::Ccc107 => 107,
            UnicodeCombiningClass::Ccc118 => 118,
            UnicodeCombiningClass::Ccc122 => 122,
            UnicodeCombiningClass::Ccc129 => 129,
            UnicodeCombiningClass::Ccc130 => 130,
            UnicodeCombiningClass::Ccc133 => 132,
            UnicodeCombiningClass::AttachedBelowLeft => 200,
            UnicodeCombiningClass::AttachedBelow => 202,
            UnicodeCombiningClass::AttachedAbove => 214,
            UnicodeCombiningClass::AttachedAboveRight => 216,
            UnicodeCombiningClass::BelowLeft => 218,
            UnicodeCombiningClass::Below => 220,
            UnicodeCombiningClass::BelowRight => 222,
            UnicodeCombiningClass::Left => 224,
            UnicodeCombiningClass::Right => 226,
            UnicodeCombiningClass::AboveLeft => 228,
            UnicodeCombiningClass::Above => 230,
            UnicodeCombiningClass::AboveRight => 232,
            UnicodeCombiningClass::DoubleBelow => 233,
            UnicodeCombiningClass::DoubleAbove => 234,
            UnicodeCombiningClass::IotaSubscript => 240,
            UnicodeCombiningClass::Invalid => 255,
            UnicodeCombiningClass::__Nonexhaustive => 254,
        }
    }
}

impl From<u32> for UnicodeCombiningClass {
    fn from(number: u32) -> (class: UnicodeCombiningClass) {
        match number {
            0 => {
                assert(UnicodeCombiningClass::NotReordered.number() == number);
                UnicodeCombiningClass::NotReordered
            },
            1 => {
                assert(UnicodeCombiningClass::Overlay.number() == number);
                UnicodeCombiningClass::Overlay
            },
            7 => {
                assert(UnicodeCombiningClass::Nukta.number() == number);
                UnicodeCombiningClass::Nukta
            },
            8 => {
                assert(UnicodeCombiningClass::KanaVoicing.number() == number);
                UnicodeCombiningClass::KanaVoicing
            },
            9 => {
                assert(UnicodeCombiningClass::Virama.number() == number);
                UnicodeCombiningClass::Virama
            },
            10 => {
                assert(UnicodeCombiningClass::Ccc10.number() == number);
                UnicodeCombiningClass::Ccc10
            },
            11 => {
                assert(UnicodeCombiningClass::Ccc11.number() == number);
                UnicodeCombiningClass::Ccc11
            },
            12 => {
                assert(UnicodeCombiningClass::Ccc12.number() == number);
                UnicodeCombiningClass::Ccc12
            },
            13 => {
                assert(UnicodeCombiningClass::Ccc13.number() == number);
                UnicodeCombiningClass::Ccc13
            },
            14 => {
                assert(UnicodeCombiningClass::Ccc14.number() == number);
                UnicodeCombiningClass::Ccc14
            },
            15 => {
                assert(UnicodeCombiningClass::Ccc15.number() == number);
                UnicodeCombiningClass::Ccc15
            },
            16 => {
                assert(UnicodeCombiningClass::Ccc16.number() == number);
                UnicodeCombiningClass::Ccc16
            },
            17 => {
                assert(UnicodeCombiningClass::Ccc17.number() == number);
                UnicodeCombiningClass::Ccc17
            },
            18 => {
                assert(UnicodeCombiningClass::Ccc18.number() == number);
                UnicodeCombiningClass::Ccc18
            },
            19 => {
                assert(UnicodeCombiningClass::Ccc19.number() == number);
                UnicodeCombiningClass::Ccc19
            },
            20 => {
                assert(UnicodeCombiningClass::Ccc20.number() == number);
                UnicodeCombiningClass::Ccc20
            },
            21 => {
                assert(UnicodeCombiningClass::Ccc21.number() == number);
                UnicodeCombiningClass::Ccc21
            },
            22 => {
                assert(UnicodeCombiningClass::Ccc22.number() == number);
                UnicodeCombiningClass::Ccc22
            },
            23 => {
                assert(UnicodeCombiningClass::Ccc23.number() == number);
                UnicodeCombiningClass::Ccc23
            },
            24 => {
                assert(UnicodeCombiningClass::Ccc24.number() == number);
                UnicodeCombiningClass::Ccc24
            },
            25 => {
                assert(UnicodeCombiningClass::Ccc25.number() == number);
                UnicodeCombiningClass::Ccc25
            },
            26 => {
                assert(UnicodeCombiningClass::Ccc26.number() == number);
                UnicodeCombiningClass::Ccc26
            },
            27 => {
                assert(UnicodeCombiningClass::Ccc27.number() == number);
                UnicodeCombiningClass::Ccc27
            },
            28 => {
                assert(UnicodeCombiningClass::Ccc28.number() == number);
                UnicodeCombiningClass::Ccc28
            },
            29 => {
                assert(UnicodeCombiningClass::Ccc29.number() == number);
                UnicodeCombiningClass::Ccc29
            },
            30 => {
                assert(UnicodeCombiningClass::Ccc30.number() == number);
                UnicodeCombiningClass::Ccc30
            },
            31 => {
                assert(UnicodeCombiningClass::Ccc31.number() == number);
                UnicodeCombiningClass::Ccc31
            },
            32 => {
                assert(UnicodeCombiningClass::Ccc32.number() == number);
                UnicodeCombiningClass::Ccc32
            },
            33 => {
                assert(UnicodeCombiningClass::Ccc33.number() == number);
                UnicodeCombiningClass::Ccc33
            },
            34 => {
                assert(UnicodeCombiningClass::Ccc34.number() == number);
                UnicodeCombiningClass::Ccc34
            },
            35 => {
                assert(UnicodeCombiningClass::Ccc35.number() == number);
                UnicodeCombiningClass::Ccc35
            },
            36 => {
                assert(UnicodeCombiningClass::Ccc36.number() == number);
                UnicodeCombiningClass::Ccc36
            },
            84 => {
                assert(UnicodeCombiningClass::Ccc84.number() == number);
                UnicodeCombiningClass::Ccc84
            },
            91 => {
                assert(UnicodeCombiningClass::Ccc91.number() == number);
                UnicodeCombiningClass::Ccc91
            },
            103 => {
                assert(UnicodeCombiningClass::Ccc103.number() == number);
                UnicodeCombiningClass::Ccc103
            },
            107 => {
                assert(UnicodeCombiningClass::Ccc107.number() == number);
                UnicodeCombiningClass::Ccc107
            },
            118 => {
                assert(UnicodeCombiningClass::Ccc118.number() == number);
                UnicodeCombiningClass::Ccc118
            },
            122 => {
                assert(UnicodeCombiningClass::Ccc122.number() == number);
                UnicodeCombiningClass::Ccc122
            },
            129 => {
                assert(UnicodeCombiningClass::Ccc129.number() == number);
                UnicodeCombiningClass::Ccc129
            },
            130 => {
                assert(UnicodeCombiningClass::Ccc130.number() == number);
                UnicodeCombiningClass::Ccc130
            },
            132 => {
                assert(UnicodeCombiningClass::Ccc133.number() == number);
                UnicodeCombiningClass::Ccc133
            },
            200 => {
                assert(UnicodeCombiningClass::AttachedBelowLeft.number() == number);
                UnicodeCombiningClass::AttachedBelowLeft
            },
            202 => {
                assert(UnicodeCombiningClass::AttachedBelow.number() == number);
                UnicodeCombiningClass::AttachedBelow
            },
            214 => {
                assert(UnicodeCombiningClass::AttachedAbove.number() == number);
                UnicodeCombiningClass::AttachedAbove
            },
            216 => {
                assert(UnicodeCombiningClass::AttachedAboveRight.number() == number);
                UnicodeCombiningClass::AttachedAboveRight
            },
            218 => {
                assert(UnicodeCombiningClass::BelowLeft.number() == number);
                UnicodeCombiningClass::BelowLeft
            },
            220 => {
                assert(UnicodeCombiningClass::Below.number() == number);
                UnicodeCombiningClass::Below
            },
            222 => {
                assert(UnicodeCombiningClass::BelowRight.number() == number);
                UnicodeCombiningClass::BelowRight
            },
            224 => {
                assert(UnicodeCombiningClass::Left.number() == number);
                UnicodeCombiningClass::Left
            },
            226 => {
                assert(UnicodeCombiningClass::Right.number() == number);
                UnicodeCombiningClass::Right
            },
            228 => {
                assert(UnicodeCombiningClass::AboveLeft.number() == number);
                UnicodeCombiningClass::AboveLeft
            },
            230 => {
                assert(UnicodeCombiningClass::Above.number() == number);
                UnicodeCombiningClass::Above
            },
            232 => {
                assert(UnicodeCombiningClass::AboveRight.number() == number);
                UnicodeCombiningClass::AboveRight
            },
            233 => {
                assert(UnicodeCombiningClass::DoubleBelow.number() == number);
                UnicodeCombiningClass::DoubleBelow
            },
            234 => {
                assert(UnicodeCombiningClass::DoubleAbove.number() == number);
                UnicodeCombiningClass::DoubleAbove
            },
            240 => {
                assert(UnicodeCombiningClass::IotaSubscript.number() == number);
                UnicodeCombiningClass::IotaSubscript
            },
            255 => {
                assert(UnicodeCombiningClass::Invalid.number() == number);
                UnicodeCombiningClass::Invalid
            },
            _ => UnicodeCombiningClass::__Nonexhaustive,
        }
    }
}

impl FromSpecImpl<u32> for UnicodeCombiningClass {
    open spec fn obeys_from_spec() -> bool {
        true
    }

    open spec fn from_spec(number: u32) -> UnicodeCombiningClass {
        UnicodeCombiningClass::of_number(number)
    }
}

/// A class with a name comes back from its number.
pub proof fn lemma_combining_class_round_trip(class: UnicodeCombiningClass)
    requires
        class != UnicodeCombiningClass::__Nonexhaustive,
    ensures
        UnicodeCombiningClass::of_number(class.number()) == class,
{
}

/// One line of a table of codepoints: every codepoint from `first` to
/// `last`, both included, has `value`.
#[derive(Debug)]
pub struct CodepointRange<V> {
    pub first: u32,
    pub last: u32,
    pub value: V,
}

/// What a table says of a codepoint: the value of the first line that holds
/// it, and nothing where no line does.
pub open spec fn range_value<V>(table: Seq<CodepointRange<V>>, codepoint: u32) -> Option<V>
    decreases table.len(),
{
    if table.len() == 0 {
        None
    } else if table[0].first <= codepoint <= table[0].last {
        Some(table[0].value)
    } else {
        range_value(table.drop_first(), codepoint)
    }
}

/// Looks a codepoint up in a table.
pub fn lookup_range<V: Copy>(table: &Vec<CodepointRange<V>>, codepoint: u32) -> (value: Option<V>)
    ensures
        value == range_value(table@, codepoint),
{
    let mut i: usize = 0;
    assert(table@.subrange(0, table@.len() as int) =~= table@);
    while i < table.len()
        invariant
            i <= table@.len(),
            range_value(table@.subrange(i as int, table@.len() as int), codepoint) == range_value(
                table@,
                codepoint,
            ),
        decreases table@.len() - i,
    {
        let ghost rest = table@.subrange(i as int, table@.len() as int);
        assert(rest.drop_first() =~= table@.subrange(i + 1, table@.len() as int));
        assert(rest[0] == table@[i as int]);
        if table[i].first <= codepoint && codepoint <= table[i].last {
            return Some(table[i].value);
        }
        i = i + 1;
    }
    assert(table@.subrange(i as int, table@.len() as int).len() == 0);
    None
}

/// Two codepoints and the one codepoint that stands for both.
#[derive(Clone, Copy, Debug)]
pub struct Composition {
    pub first: u32,
    pub second: u32,
    pub composed: u32,
}

/// The codepoint that a table gives for a pair: that of the first line for
/// the pair.
pub open spec fn composed_of(table: Seq<Composition>, a: u32, b: u32) -> Option<u32>
    decreases table.len(),
{
    if table.len() == 0 {
        None
    } else if table[0].first == a && table[0].second == b {
        Some(table[0].composed)
    } else {
        composed_of(table.drop_first(), a, b)
    }
}

/// The pair that a table gives for a codepoint: that of the first line for
/// the codepoint.
pub open spec fn decomposed_of(table: Seq<Composition>, ab: u32) -> Option<(u32, u32)>
    decreases table.len(),
{
    if table.len() == 0 {
        None
    } else if table[0].composed == ab {
        Some((table[0].first, table[0].second))
    } else {
        decomposed_of(table.drop_first(), ab)
    }
}

/// The tables of one level, and the level to fall back on. A table that is
/// not set leaves the answer to the parent, and to a fixed answer where no
/// level has the table.
pub struct UnicodeFuncs {
    /// The level that answers where this one has no table.
    pub parent: Option<Box<UnicodeFuncs>>,
    /// The script of each codepoint.
    pub script: Option<Vec<CodepointRange<Script>>>,
    /// The general category of each codepoint.
    pub general_category: Option<Vec<CodepointRange<UnicodeGeneralCategory>>>,
    /// The number of the combining class of each codepoint.
    pub combining_class: Option<Vec<CodepointRange<u32>>>,
    /// The mirror image of each codepoint that has one.
    pub mirroring: Option<Vec<CodepointRange<u32>>>,
    /// The pairs that compose, and what they compose to.
    pub composition: Option<Vec<Composition>>,
    /// Whether the tables may no longer be changed.
    pub immutable: bool,
}

/// The tables that know nothing, over no parent.
pub open spec fn no_unicode_funcs() -> UnicodeFuncs {
    UnicodeFuncs {
        parent: None,
        script: None,
        general_category: None,
        combining_class: None,
        mirroring: None,
        composition: None,
        immutable: false,
    }
}

impl UnicodeFuncs {
    /// The first table of scripts on the way from this level up.
    pub open spec fn script_table(&self) -> Option<Seq<CodepointRange<Script>>>
        decreases self,
    {
        match self.script {
            Some(table) => Some(table@),
            None => match self.parent {
                Some(parent) => parent.script_table(),
                None => None,
            },
        }
    }

    /// The script of a codepoint: what the first table of scripts on the
    /// way up says, and `Unknown` where it says nothing or none is set.
    pub open spec fn script_of(&self, codepoint: u32) -> Script {
        match self.script_table() {
            Some(table) => match range_value(table, codepoint) {
                Some(script) => script,
                None => Script::Unknown,
            },
            None => Script::Unknown,
        }
    }

    /// The first table of general categories on the way from this level up.
    pub open spec fn general_category_table(&self) -> Option<
        Seq<CodepointRange<UnicodeGeneralCategory>>,
    >
        decreases self,
    {
        match self.general_category {
            Some(table) => Some(table@),
            None => match self.parent {
                Some(parent) => parent.general_category_table(),
                None => None,
            },
        }
    }

    /// The general category of a codepoint, and `OtherLetter` where no
    /// table says.
    pub open spec fn general_category_of(&self, codepoint: u32) -> UnicodeGeneralCategory {
        match self.general_category_table() {
            Some(table) => match range_value(table, codepoint) {
                Some(category) => category,
                None => UnicodeGeneralCategory::OtherLetter,
            },
            None => UnicodeGeneralCategory::OtherLetter,
        }
    }

    /// The first table of combining classes on the way from this level up.
    pub open spec fn combining_class_table(&self) -> Option<Seq<CodepointRange<u32>>>
        decreases self,
    {
        match self.combining_class {
            Some(table) => Some(table@),
            None => match self.parent {
                Some(parent) => parent.combining_class_table(),
                None => None,
            },
        }
    }

    /// The combining class of a codepoint, and `NotReordered` where no
    /// table says.
    pub open spec fn combining_class_of(&self, codepoint: u32) -> UnicodeCombiningClass {
        match self.combining_class_table() {
            Some(table) => match range_value(table, codepoint) {
                Some(number) => UnicodeCombiningClass::of_number(number),
                None => UnicodeCombiningClass::NotReordered,
            },
            None => UnicodeCombiningClass::NotReordered,
        }
    }

    /// The first table of mirror images on the way from this level up.
    pub open spec fn mirroring_table(&self) -> Option<Seq<CodepointRange<u32>>>
        decreases self,
    {
        match self.mirroring {
            Some(table) => Some(table@),
            None => match self.parent {
                Some(parent) => parent.mirroring_table(),
                None => None,
            },
        }
    }

    /// The mirror image of a codepoint, and the codepoint itself where no
    /// table gives one.
    pub open spec fn mirror_of(&self, codepoint: u32) -> u32 {
        match self.mirroring_table() {
            Some(table) => match range_value(table, codepoint) {
                Some(mirror) => mirror,
                None => codepoint,
            },
            None => codepoint,
        }
    }

    /// The first table of compositions on the way from this level up.
    pub open spec fn composition_table(&self) -> Option<Seq<Composition>>
        decreases self,
    {
        match self.composition {
            Some(table) => Some(table@),
            None => match self.parent {
                Some(parent) => parent.composition_table(),
                None => None,
            },
        }
    }

    /// The tables that know nothing: each question gets its fixed answer.
    pub fn get_default() -> (funcs: UnicodeFuncs)
        ensures
            funcs == no_unicode_funcs(),
    {
        UnicodeFuncs {
            parent: None,
            script: None,
            general_category: None,
            combining_class: None,
            mirroring: None,
            composition: None,
            immutable: false,
        }
    }

    /// The tables that know nothing and can never be changed.
    pub fn get_empty() -> (funcs: UnicodeFuncs)
        ensures
            funcs == (UnicodeFuncs { immutable: true, ..no_unicode_funcs() }),
    {
        UnicodeFuncs {
            parent: None,
            script: None,
            general_category: None,
            combining_class: None,
            mirroring: None,
            composition: None,
            immutable: true,
        }
    }

    /// A new level over `parent`, with no table of its own: it answers as
    /// `parent` does.
    pub fn create(parent: UnicodeFuncs) -> (funcs: UnicodeFuncs)
        ensures
            funcs == (UnicodeFuncs { parent: Some(Box::new(parent)), ..no_unicode_funcs() }),
    {
        UnicodeFuncs {
            parent: Some(Box::new(parent)),
            script: None,
            general_category: None,
            combining_class: None,
            mirroring: None,
            composition: None,
            immutable: false,
        }
    }

    /// The level that this one falls back on.
    pub fn get_parent(&self) -> (parent: Option<&UnicodeFuncs>)
        ensures
            match parent {
                Some(p) => self.parent == Some(Box::new(*p)),
                None => self.parent is None,
            },
    {
        match &self.parent {
            Some(p) => Some(&**p),
            None => None,
        }
    }

    /// Forbids further changes of the tables.
    pub fn make_immutable(&mut self)
        ensures
            *final(self) == (UnicodeFuncs { immutable: true, ..*old(self) }),
    {
        self.immutable = true;
    }

    /// Whether the tables may no longer be changed.
    pub fn is_immutable(&self) -> (immutable: bool)
        ensures
            immutable == self.immutable,
    {
        self.immutable
    }

    /// Sets the table of scripts of this level, unless the tables may no
    /// longer be changed.
    pub fn set_script_func(&mut self, table: Vec<CodepointRange<Script>>)
        ensures
            *final(self) == (if old(self).immutable {
                *old(self)
            } else {
                UnicodeFuncs { script: Some(table), ..*old(self) }
            }),
    {
        if !self.immutable {
            self.script = Some(table);
        }
    }

    /// Sets the table of general categories of this level, unless the
    /// tables may no longer be changed.
    pub fn set_general_category_func(
        &mut self,
        table: Vec<CodepointRange<UnicodeGeneralCategory>>,
    )
        ensures
            *final(self) == (if old(self).immutable {
                *old(self)
            } else {
                UnicodeFuncs { general_category: Some(table), ..*old(self) }
            }),
    {
        if !self.immutable {
            self.general_category = Some(table);
        }
    }

    /// Sets the table of combining classes of this level, unless the tables
    /// may no longer be changed.
    pub fn set_combining_class_func(&mut self, table: Vec<CodepointRange<u32>>)
        ensures
            *final(self) == (if old(self).immutable {
                *old(self)
            } else {
                UnicodeFuncs { combining_class: Some(table), ..*old(self) }
            }),
    {
        if !self.immutable {
            self.combining_class = Some(table);
        }
    }

    /// Sets the table of mirror images of this level, unless the tables may
    /// no longer be changed.
    pub fn set_mirroring_func(&mut self, table: Vec<CodepointRange<u32>>)
        ensures
            *final(self) == (if old(self).immutable {
                *old(self)
            } else {
                UnicodeFuncs { mirroring: Some(table), ..*old(self) }
            }),
    {
        if !self.immutable {
            self.mirroring = Some(table);
        }
    }

    /// Sets the table of compositions of this level, unless the tables may
    /// no longer be changed.
    pub fn set_compose_func(&mut self, table: Vec<Composition>)
        ensures
            *final(self) == (if old(self).immutable {
                *old(self)
            } else {
                UnicodeFuncs { composition: Some(table), ..*old(self) }
            }),
    {
        if !self.immutable {
            self.composition = Some(table);
        }
    }

    /// The script of a codepoint.
    pub fn script(&self, codepoint: u32) -> (script: Script)
        ensures
            script == self.script_of(codepoint),
        decreases self,
    {
        match &self.script {
            Some(table) => match lookup_range(table, codepoint) {
                Some(script) => script,
                None => Script::Unknown,
            },
            None => match &self.parent {
                Some(parent) => parent.script(codepoint),
                None => Script::Unknown,
            },
        }
    }

    /// The general category of a codepoint.
    pub fn general_category(&self, codepoint: u32) -> (category: UnicodeGeneralCategory)
        ensures
            category == self.general_category_of(codepoint),
        decreases self,
    {
        match &self.general_category {
            Some(table) => match lookup_range(table, codepoint) {
                Some(category) => category,
                None => UnicodeGeneralCategory::OtherLetter,
            },
            None => match &self.parent {
                Some(parent) => parent.general_category(codepoint),
                None => UnicodeGeneralCategory::OtherLetter,
            },
        }
    }

    /// The combining class of a codepoint.
    pub fn combining_class(&self, codepoint: u32) -> (class: UnicodeCombiningClass)
        ensures
            class == self.combining_class_of(codepoint),
        decreases self,
    {
        match &self.combining_class {
            Some(table) => match lookup_range(table, codepoint) {
                Some(number) => UnicodeCombiningClass::from(number),
                None => UnicodeCombiningClass::NotReordered,
            },
            None => match &self.parent {
                Some(parent) => parent.combining_class(codepoint),
                None => UnicodeCombiningClass::NotReordered,
            },
        }
    }

    /// The mirror image of a codepoint.
    pub fn mirroring(&self, codepoint: u32) -> (mirror: u32)
        ensures
            mirror == self.mirror_of(codepoint),
        decreases self,
    {
        match &self.mirroring {
            Some(table) => match lookup_range(table, codepoint) {
                Some(mirror) => mirror,
                None => codepoint,
            },
            None => match &self.parent {
                Some(parent) => parent.mirroring(codepoint),
                None => codepoint,
            },
        }
    }

    /// The codepoint that stands for `a` followed by `b`, where the first
    /// table of compositions on the way up has one.
    pub fn compose(&self, a: u32, b: u32) -> (ab: Option<u32>)
        ensures
            ab == (match self.composition_table() {
                Some(table) => composed_of(table, a, b),
                None => None,
            }),
        decreases self,
    {
        match &self.composition {
            Some(table) => lookup_composed(table, a, b),
            None => match &self.parent {
                Some(parent) => parent.compose(a, b),
                None => None,
            },
        }
    }

    /// The two codepoints that `ab` stands for, where the first table of
    /// compositions on the way up has them.
    pub fn decompose(&self, ab: u32) -> (pair: Option<(u32, u32)>)
        ensures
            pair == (match self.composition_table() {
                Some(table) => decomposed_of(table, ab),
                None => None,
            }),
        decreases self,
    {
        match &self.composition {
            Some(table) => lookup_decomposed(table, ab),
            None => match &self.parent {
                Some(parent) => parent.decompose(ab),
                None => None,
            },
        }
    }
}

/// Looks a pair up in a table of compositions.
pub fn lookup_composed(table: &Vec<Composition>, a: u32, b: u32) -> (ab: Option<u32>)
    ensures
        ab == composed_of(table@, a, b),
{
    let mut i: usize = 0;
    assert(table@.subrange(0, table@.len() as int) =~= table@);
    while i < table.len()
        invariant
            i <= table@.len(),
            composed_of(table@.subrange(i as int, table@.len() as int), a, b) == composed_of(
                table@,
                a,
                b,
            ),
        decreases table@.len() - i,
    {
        let ghost rest = table@.subrange(i as int, table@.len() as int);
        assert(rest.drop_first() =~= table@.subrange(i + 1, table@.len() as int));
        assert(rest[0] == table@[i as int]);
        if table[i].first == a && table[i].second == b {
            return Some(table[i].composed);
        }
        i = i + 1;
    }
    assert(table@.subrange(i as int, table@.len() as int).len() == 0);
    None
}

/// Looks a codepoint up in a table of compositions.
pub fn lookup_decomposed(table: &Vec<Composition>, ab: u32) -> (pair: Option<(u32, u32)>)
    ensures
        pair == decomposed_of(table@, ab),
{
    let mut i: usize = 0;
    assert(table@.subrange(0, table@.len() as int) =~= table@);
    while i < table.len()
        invariant
            i <= table@.len(),
            decomposed_of(table@.subrange(i as int, table@.len() as int), ab) == decomposed_of(
                table@,
                ab,
            ),
        decreases table@.len() - i,
    {
        let ghost rest = table@.subrange(i as int, table@.len() as int);
        assert(rest.drop_first() =~= table@.subrange(i + 1, table@.len() as int));
        assert(rest[0] == table@[i as int]);
        if table[i].composed == ab {
            return Some((table[i].first, table[i].second));
        }
        i = i + 1;
    }
    assert(table@.subrange(i as int, table@.len() as int).len() == 0);
    None
}

/// A level without a table of scripts answers as its parent does, and a
/// level with one answers from it, whatever the parent says.
pub proof fn lemma_unicode_script_delegation(funcs: UnicodeFuncs, codepoint: u32)
    ensures
        funcs.script is None && funcs.parent is Some ==> funcs.script_of(codepoint)
            == funcs.parent->0.script_of(codepoint),
        funcs.script is Some ==> funcs.script_table() == Some(funcs.script->0@),
{
}

} // verus!
