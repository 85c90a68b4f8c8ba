//! The table of languages: every language name gets one handle, however it
//! is written.

use crate::common::{string_from_utf8, Language, LANGUAGE_INVALID};
use crate::text::{all_ascii, ascii_chars, lemma_ascii_is_utf8, same_bytes};
use vstd::prelude::*;
use vstd::string::StringSliceAdditionalSpecFns;

verus! {

/// The canonical form of a byte of a language name: a letter in lower
/// case, a digit, and a hyphen for a hyphen and for an underscore. Any
/// other byte has none and ends the name: 0 stands for that.
pub open spec fn canonical_byte(byte: u8) -> u8 {
    if 0x41 <= byte <= 0x5A {
        (byte + 0x20) as u8
    } else if (0x61 <= byte <= 0x7A) || (0x30 <= byte <= 0x39) || byte == 0x2D {
        byte
    } else if byte == 0x5F {
        0x2D
    } else {
        0
    }
}

/// The canonical form of a language name: its bytes in canonical form, up
/// to the first byte that has none.
pub open spec fn canonical_name(name: Seq<u8>) -> Seq<u8>
    decreases name.len(),
{
    if name.len() == 0 || canonical_byte(name[0]) == 0 {
        Seq::empty()
    } else {
        seq![canonical_byte(name[0])] + canonical_name(name.drop_first())
    }
}

/// Where a name stands in a list of names, and the length of the list
/// where it does not stand in it.
pub open spec fn index_of_name(names: Seq<Seq<u8>>, name: Seq<u8>) -> int
    decreases names.len(),
{
    if names.len() == 0 {
        0
    } else if names[0] == name {
        0
    } else {
        1 + index_of_name(names.drop_first(), name)
    }
}

/// What a table of languages holds, as plain values.
pub ghost struct LanguageTableModel {
    /// The names of the languages in canonical form; the handle of a
    /// language is its place in the list and one more.
    pub names: Seq<Seq<u8>>,
    /// The language of the process, once it has been asked for.
    pub default_language: Option<Language>,
}

impl LanguageTableModel {
    /// The table in order: it holds no name twice and no empty name, and
    /// fewer names than there are handles.
    pub open spec fn wf(self) -> bool {
        &&& self.names.len() < 0xFFFF_FFFF
        &&& forall|i: int| 0 <= i < self.names.len() ==> (#[trigger] self.names[i]).len() > 0
        &&& forall|i: int| 0 <= i < self.names.len() ==> all_ascii(#[trigger] self.names[i])
        &&& forall|i: int, j: int|
            0 <= i < j < self.names.len() ==> self.names[i] != self.names[j]
    }

    /// The handle that a name has or gets: none for a name whose
    /// canonical form is empty, and none for a new name when the table is
    /// full.
    pub open spec fn handle_of(self, name: Seq<u8>) -> Language {
        let canonical = canonical_name(name);
        let at = index_of_name(self.names, canonical);
        if canonical.len() == 0 || at + 1 >= 0xFFFF_FFFF {
            Language { handle: LANGUAGE_INVALID }
        } else {
            Language { handle: (at + 1) as u32 }
        }
    }

    /// The table after a name was looked up: a new name stands at its end.
    pub open spec fn with_name(self, name: Seq<u8>) -> LanguageTableModel {
        let canonical = canonical_name(name);
        let at = index_of_name(self.names, canonical);
        if canonical.len() == 0 || at < self.names.len() || at + 1 >= 0xFFFF_FFFF {
            self
        } else {
            LanguageTableModel { names: self.names.push(canonical), ..self }
        }
    }

    /// The name of a language, where the table has given out its handle.
    pub open spec fn name_of(self, language: Language) -> Option<Seq<u8>> {
        if 0 < language.handle <= self.names.len() {
            Some(self.names[language.handle - 1])
        } else {
            None
        }
    }
}

/// The table of the languages that a process has met.
pub struct LanguageTable {
    names: Vec<Vec<u8>>,
    default_language: Option<Language>,
}

impl View for LanguageTable {
    type V = LanguageTableModel;

    closed spec fn view(&self) -> LanguageTableModel {
        LanguageTableModel {
            names: Seq::new(self.names@.len(), |i: int| self.names@[i]@),
            default_language: self.default_language,
        }
    }
}

/// The place of a name in a list lies in the list or is its length; the
/// name stands at it in the first case and nowhere in the second.
pub proof fn lemma_index_of_name(names: Seq<Seq<u8>>, name: Seq<u8>)
    ensures
        0 <= index_of_name(names, name) <= names.len(),
        index_of_name(names, name) < names.len() ==> names[index_of_name(names, name)] == name,
        forall|i: int| 0 <= i < index_of_name(names, name) ==> names[i] != name,
    decreases names.len(),
{
    if names.len() > 0 && names[0] != name {
        let rest = names.drop_first();
        lemma_index_of_name(rest, name);
        assert forall|i: int| 0 <= i < index_of_name(names, name) implies names[i] != name by {
            if i > 0 {
                assert(rest[i - 1] == names[i]);
            }
        }
    }
}

/// The canonical form of a name is ASCII and no longer than the name.
pub proof fn lemma_canonical_name(name: Seq<u8>)
    ensures
        all_ascii(canonical_name(name)),
        canonical_name(name).len() <= name.len(),
    decreases name.len(),
{
    if name.len() > 0 && canonical_byte(name[0]) != 0 {
        lemma_canonical_name(name.drop_first());
    }
}

/// The canonical form of a name.
fn canonicalize(name: &[u8]) -> (canonical: Vec<u8>)
    ensures
        canonical@ == canonical_name(name@),
{
    let mut out: Vec<u8> = Vec::new();
    let mut i: usize = 0;
    assert(name@.subrange(0, name@.len() as int) =~= name@);
    while i < name.len()
        invariant
            i <= name@.len(),
            out@ + canonical_name(name@.subrange(i as int, name@.len() as int)) == canonical_name(
                name@,
            ),
        decreases name@.len() - i,
    {
        let ghost rest = name@.subrange(i as int, name@.len() as int);
        assert(rest.drop_first() =~= name@.subrange(i + 1, name@.len() as int));
        assert(rest[0] == name@[i as int]);
        let b: u8 = name[i];
        let c: u8 = if 0x41 <= b && b <= 0x5A {
            b + 0x20
        } else if (0x61 <= b && b <= 0x7A) || (0x30 <= b && b <= 0x39) || b == 0x2D {
            b
        } else if b == 0x5F {
            0x2D
        } else {
            0
        };
        if c == 0 {
            assert(out@ + Seq::<u8>::empty() =~= out@);
            return out;
        }
        proof {
            let tail = canonical_name(name@.subrange(i + 1, name@.len() as int));
            assert(out@.push(c) + tail =~= out@ + (seq![c] + tail));
        }
        out.push(c);
        i = i + 1;
    }
    assert(out@ + Seq::<u8>::empty() =~= out@);
    out
}

impl LanguageTable {
    /// Whether the table is in order: see `LanguageTableModel::wf`.
    pub open spec fn wf(&self) -> bool {
        self@.wf()
    }

    /// A table that has met no language.
    pub fn new() -> (table: LanguageTable)
        ensures
            table.wf(),
            table@.names.len() == 0,
            table@.default_language is None,
    {
        LanguageTable { names: Vec::new(), default_language: None }
    }

    /// The number of languages that the table has met.
    pub fn len(&self) -> (len: usize)
        ensures
            len == self@.names.len(),
    {
        self.names.len()
    }

    /// The handle of the language that a text names. The same name gives
    /// the same handle, however its letters are written. A text whose
    /// canonical form is empty names no language.
    pub fn from_string(&mut self, text: &str) -> (language: Language)
        requires
            old(self).wf(),
        ensures
            final(self).wf(),
            language == old(self)@.handle_of(text.spec_bytes()),
            final(self)@ == old(self)@.with_name(text.spec_bytes()),
    {
        let canonical = canonicalize(text.as_bytes());
        proof {
            lemma_canonical_name(text.spec_bytes());
            lemma_index_of_name(self@.names, canonical@);
        }
        if canonical.len() == 0 {
            return Language { handle: LANGUAGE_INVALID };
        }
        let n: usize = self.names.len();
        let mut i: usize = 0;
        assert(self@.names.skip(0) =~= self@.names);
        while i < n
            invariant
                i <= n,
                n == self.names@.len(),
                *self == *old(self),
                self.wf(),
                canonical@ == canonical_name(text.spec_bytes()),
                canonical@.len() > 0,
                all_ascii(canonical@),
                index_of_name(self@.names.skip(i as int), canonical@) + i == index_of_name(
                    self@.names,
                    canonical@,
                ),
            decreases n - i,
        {
            let ghost rest = self@.names.skip(i as int);
            assert(rest.drop_first() =~= self@.names.skip(i + 1));
            assert(rest[0] == self.names@[i as int]@);
            if same_bytes(self.names[i].as_slice(), canonical.as_slice()) {
                proof {
                    lemma_index_of_name(self@.names, canonical@);
                }
                return Language { handle: (i + 1) as u32 };
            }
            i = i + 1;
        }
        assert(self@.names.skip(n as int).len() == 0);
        if n + 1 >= 0xFFFF_FFFF {
            return Language { handle: LANGUAGE_INVALID };
        }
        let ghost before = self@.names;
        let ghost name = canonical@;
        self.names.push(canonical);
        proof {
            assert(self@.names =~= before.push(name));
            assert forall|a: int, b: int| 0 <= a < b < self@.names.len() implies self@.names[a]
                != self@.names[b] by {
                if b < before.len() {
                    assert(before[a] != before[b]);
                } else {
                    assert(before[a] != name);
                }
            }
        }
        Language { handle: (n + 1) as u32 }
    }

    /// The name of a language in canonical form, where the table has given
    /// out its handle.
    pub fn to_string(&self, language: Language) -> (name: Option<String>)
        requires
            self.wf(),
        ensures
            match name {
                Some(text) => self@.name_of(language) is Some && text@ == ascii_chars(
                    self@.name_of(language).unwrap(),
                ),
                None => self@.name_of(language) is None,
            },
    {
        if language.handle == 0 || language.handle as usize > self.names.len() {
            return None;
        }
        let at: usize = (language.handle - 1) as usize;
        let mut bytes: Vec<u8> = Vec::new();
        crate::text::write_bytes(&mut bytes, self.names[at].as_slice());
        proof {
            assert(bytes@ =~= self@.names[at as int]);
            lemma_ascii_is_utf8(bytes@);
        }
        string_from_utf8(bytes)
    }

    /// The language of the process. The first call takes it from the name
    /// of the locale that it is given; every later call gives the same
    /// language again, whatever it is given.
    pub fn get_default(&mut self, locale: &str) -> (language: Language)
        requires
            old(self).wf(),
        ensures
            final(self).wf(),
            language == (match old(self)@.default_language {
                Some(language) => language,
                None => old(self)@.handle_of(locale.spec_bytes()),
            }),
            final(self)@ == (match old(self)@.default_language {
                Some(language) => old(self)@,
                None => LanguageTableModel {
                    default_language: Some(language),
                    ..old(self)@.with_name(locale.spec_bytes())
                },
            }),
    {
        match self.default_language {
            Some(language) => language,
            None => {
                let language = self.from_string(locale);
                self.default_language = Some(language);
                language
            },
        }
    }
}

/// A name that has been looked up has the same handle when it is looked up
/// again, and the table stays as it is. The handle gives the canonical
/// form of the name back.
pub proof fn lemma_language_is_interned(table: LanguageTableModel, name: Seq<u8>)
    requires
        table.wf(),
        table.handle_of(name).handle != LANGUAGE_INVALID,
    ensures
        table.with_name(name).handle_of(name) == table.handle_of(name),
        table.with_name(name).with_name(name) == table.with_name(name),
        table.with_name(name).name_of(table.handle_of(name)) == Some(canonical_name(name)),
{
    let canonical = canonical_name(name);
    let after = table.with_name(name);
    lemma_index_of_name(table.names, canonical);
    lemma_index_of_name(after.names, canonical);
    let at = index_of_name(table.names, canonical);
    if at < table.names.len() {
    } else {
        assert(after.names[at] == canonical);
        if index_of_name(after.names, canonical) < at {
            assert(after.names[index_of_name(after.names, canonical)] == table.names[index_of_name(
                after.names,
                canonical,
            )]);
        }
    }
}

/// Two names have one handle exactly when their canonical forms are the
/// same, once both have been looked up.
pub proof fn lemma_language_handles_differ(table: LanguageTableModel, a: Seq<u8>, b: Seq<u8>)
    requires
        table.wf(),
        table.handle_of(a).handle != LANGUAGE_INVALID,
        table.with_name(a).handle_of(b).handle != LANGUAGE_INVALID,
    ensures
        (table.handle_of(a) == table.with_name(a).handle_of(b)) == (canonical_name(a)
            == canonical_name(b)),
{
    let after = table.with_name(a);
    lemma_index_of_name(table.names, canonical_name(a));
    lemma_index_of_name(after.names, canonical_name(a));
    lemma_index_of_name(after.names, canonical_name(b));
    lemma_language_is_interned(table, a);
}

} // verus!
