//! The run buffer: the items of one run of text, codepoints before shaping
//! and glyphs after it, with the properties of the run.

use crate::common::{Direction, Language, Script, LANGUAGE_INVALID};
use crate::unicode::{no_unicode_funcs, UnicodeFuncs};
use crate::utf::{
    char_items, decode_chars_window, decode_latin1_window, decode_utf16_window,
    decode_utf32_window, decode_utf8_window, latin1_items, utf16_items, utf32_items, utf8_items,
    window, window_end, window_start,
};
use crate::utf::{codepoints_of, lemma_utf8_items_of_text, scalars_of};
use vstd::std_specs::convert::FromSpecImpl;
use vstd::string::StringSliceAdditionalSpecFns;
use vstd::prelude::*;

verus! {

/// The codepoint that stands in for what cannot be decoded, unless another
/// is set.
pub const BUFFER_REPLACEMENT_CODEPOINT_DEFAULT: char = '\u{FFFD}';

/// The largest number of items that a buffer holds: a request for more
/// fails.
pub const BUFFER_MAX_LEN: u32 = 0x3FFF_FFFF;

/// No flag.
pub const BUFFER_FLAGS_DEFAULT: u32 = 0x0000_0000;

/// The run starts the text.
pub const BUFFER_FLAGS_BOT: u32 = 0x0000_0001;

/// The run ends the text.
pub const BUFFER_FLAGS_EOT: u32 = 0x0000_0002;

/// Codepoints that are ignored by default are kept.
pub const BUFFER_FLAGS_PRESERVE_DEFAULT_IGNORABLES: u32 = 0x0000_0004;

/// All the flags of a buffer together.
pub const BUFFER_FLAGS_ALL: u32 = 0x0000_0007;

/// A set of flags of a buffer, one bit each.
#[derive(Clone, Copy, Debug, PartialEq, Eq, Hash, Structural)]
pub struct BufferFlags {
    pub bits: u32,
}

impl BufferFlags {
    /// The flags whose bits are set in `bits`; bits that are no flag are
    /// dropped.
    pub fn from_bits_truncate(bits: u32) -> (flags: BufferFlags)
        ensures
            flags.bits == bits & BUFFER_FLAGS_ALL,
    {
        BufferFlags { bits: bits & BUFFER_FLAGS_ALL }
    }

    /// The bits of the flags.
    pub fn bits(self) -> (bits: u32)
        ensures
            bits == self.bits,
    {
        self.bits
    }

    /// Whether no flag is set.
    pub fn is_empty(self) -> (empty: bool)
        ensures
            empty == (self.bits == 0),
    {
        self.bits == 0
    }

    /// Whether every flag of `other` is set in these.
    pub fn contains(self, other: BufferFlags) -> (all: bool)
        ensures
            all == (self.bits & other.bits == other.bits),
    {
        self.bits & other.bits == other.bits
    }

    /// The flags of both sets.
    pub fn union(self, other: BufferFlags) -> (both: BufferFlags)
        ensures
            both.bits == self.bits | other.bits,
    {
        BufferFlags { bits: self.bits | other.bits }
    }
}

/// What the items of a buffer are.
#[derive(Clone, Copy, Debug, PartialEq, Eq, Hash, Structural)]
pub enum BufferContentType {
    /// Nothing yet: the buffer holds no item.
    Invalid,
    /// Codepoints, before shaping.
    Unicode,
    /// Glyphs with their positions, after shaping.
    Glyphs,
}

/// How far shaping may merge the clusters of the items that it joins or
/// splits.
#[derive(Clone, Copy, Debug, PartialEq, Eq, Hash, Structural)]
pub enum BufferClusterLevel {
    /// Clusters stay in order and marks join the cluster of their base.
    MonotoneGraphemes,
    /// Clusters stay in order, one for each character.
    MonotoneCharacters,
    /// One cluster for each character, in no kept order.
    Characters,
}

impl Default for BufferClusterLevel {
    fn default() -> (level: BufferClusterLevel)
        ensures
            level == BufferClusterLevel::MonotoneGraphemes,
    {
        BufferClusterLevel::MonotoneGraphemes
    }
}

/// One item of a buffer: a codepoint before shaping, a glyph after it.
#[derive(Clone, Copy, Debug, PartialEq, Eq, Hash, Structural)]
pub struct GlyphInfo {
    /// The codepoint, or the number of the glyph.
    pub codepoint: u32,
    /// The bits that say which features apply to the glyph.
    pub mask: u32,
    /// The cluster of the item: where in the source text it comes from.
    pub cluster: u32,
}

/// Whether a number is a Unicode scalar value.
pub open spec fn is_scalar_value(value: u32) -> bool {
    value < 0xD800 || (0xDFFF < value && value <= 0x10_FFFF)
}

impl GlyphInfo {
    /// The codepoint as a character, where it is a Unicode scalar value.
    pub fn codepoint(&self) -> (c: Option<char>)
        ensures
            c is Some <==> is_scalar_value(self.codepoint),
            c is Some ==> c->0 as u32 == self.codepoint,
    {
        char_from_u32(self.codepoint)
    }
}

/// `char::from_u32` of std: the character whose number is `value`, where
/// `value` is a Unicode scalar value, and nothing for any other number.
#[verifier::external_body]
pub(crate) fn char_from_u32(value: u32) -> (c: Option<char>)
    ensures
        c is Some <==> is_scalar_value(value),
        c is Some ==> c->0 as u32 == value,
{
    char::from_u32(value)
}

/// Where a glyph stands: how far the pen moves after it, and how far the
/// glyph is drawn from the pen.
#[derive(Clone, Copy, Debug, PartialEq, Eq, Hash, Structural)]
pub struct GlyphPosition {
    pub x_advance: i32,
    pub y_advance: i32,
    pub x_offset: i32,
    pub y_offset: i32,
}

/// The position of a glyph that neither moves the pen nor is moved.
pub open spec fn zero_position() -> GlyphPosition {
    GlyphPosition { x_advance: 0, y_advance: 0, x_offset: 0, y_offset: 0 }
}

/// The properties that all items of one run share.
#[derive(Clone, Copy, Debug, PartialEq, Eq, Hash, Structural)]
pub struct SegmentProperties {
    pub direction: Direction,
    pub script: Script,
    pub language: Language,
}

impl SegmentProperties {
    /// The properties of a run of which nothing is known.
    pub open spec fn unset() -> SegmentProperties {
        SegmentProperties {
            direction: Direction::Invalid,
            script: Script::Invalid,
            language: Language { handle: LANGUAGE_INVALID },
        }
    }

    /// The hash of the properties: the numbers of the three, combined bit
    /// by bit.
    pub open spec fn spec_hash(self) -> u32 {
        self.direction.number() ^ self.script.tag_value() ^ self.language.handle
    }

    /// A hash of the properties, equal for equal properties.
    pub fn hash(&self) -> (h: u32)
        ensures
            h == self.spec_hash(),
    {
        self.direction.to_number() ^ self.script.to_iso15924_tag().value ^ self.language.handle
    }
}

impl Default for SegmentProperties {
    fn default() -> (props: SegmentProperties)
        ensures
            props == SegmentProperties::unset(),
    {
        SegmentProperties {
            direction: Direction::Invalid,
            script: Script::Invalid,
            language: Language::invalid(),
        }
    }
}

/// What a buffer holds, as plain values.
pub ghost struct BufferModel {
    /// What the items are.
    pub content_type: BufferContentType,
    /// The items, in order.
    pub infos: Seq<GlyphInfo>,
    /// The positions of the glyphs, one for each item of a buffer of glyphs
    /// and none otherwise.
    pub positions: Seq<GlyphPosition>,
    /// The properties of the run.
    pub props: SegmentProperties,
    /// The flags.
    pub flags: BufferFlags,
    /// The cluster level.
    pub cluster_level: BufferClusterLevel,
    /// The codepoint that stands in for what cannot be decoded.
    pub replacement: u32,
    /// Whether no request for room has failed since the buffer was new or
    /// reset.
    pub successful: bool,
    /// What the buffer knows of each codepoint.
    pub unicode_funcs: UnicodeFuncs,
}

impl BufferModel {
    /// A new buffer: no items, nothing set.
    pub open spec fn empty() -> BufferModel {
        BufferModel {
            content_type: BufferContentType::Invalid,
            infos: Seq::empty(),
            positions: Seq::empty(),
            props: SegmentProperties::unset(),
            flags: BufferFlags { bits: 0 },
            cluster_level: BufferClusterLevel::MonotoneGraphemes,
            replacement: 0xFFFD,
            successful: true,
            unicode_funcs: no_unicode_funcs(),
        }
    }

    /// The items agree with what the buffer says they are: glyphs have one
    /// position each, codepoints have none, and a buffer whose content is
    /// not set is empty. No buffer holds more than `BUFFER_MAX_LEN` items, and
    /// the replacement is a Unicode scalar value.
    pub open spec fn wf(self) -> bool {
        &&& self.infos.len() <= BUFFER_MAX_LEN
        &&& is_scalar_value(self.replacement)
        &&& match self.content_type {
            BufferContentType::Invalid => self.infos.len() == 0 && self.positions.len() == 0,
            BufferContentType::Unicode => self.positions.len() == 0,
            BufferContentType::Glyphs => self.positions.len() == self.infos.len(),
        }
    }

    /// The buffer after a request to append codepoints. A buffer that has
    /// failed before stays as it is. Where the items would be more than a
    /// buffer holds, none is added and the buffer has failed. Else the items
    /// follow those that were there, and the content is codepoints.
    pub open spec fn appended(self, items: Seq<GlyphInfo>) -> BufferModel {
        if !self.successful {
            self
        } else if self.infos.len() + items.len() > BUFFER_MAX_LEN {
            BufferModel { successful: false, ..self }
        } else {
            BufferModel {
                content_type: BufferContentType::Unicode,
                infos: self.infos + items,
                ..self
            }
        }
    }

    /// The clusters of the items, in order.
    pub open spec fn clusters(self) -> Seq<u32> {
        clusters_of(self.infos)
    }

    /// The buffer with its content read as `content_type`. Glyphs that
    /// were codepoints get the position of no movement, codepoints that
    /// were glyphs lose their positions, and the items stay.
    pub open spec fn with_content_type(self, content_type: BufferContentType) -> BufferModel {
        BufferModel {
            content_type,
            positions: match content_type {
                BufferContentType::Glyphs => if self.content_type == BufferContentType::Glyphs {
                    self.positions
                } else {
                    Seq::new(self.infos.len(), |i: int| zero_position())
                },
                _ => Seq::empty(),
            },
            ..self
        }
    }

    /// The buffer after a request for exactly `length` items. A buffer
    /// that has failed before stays as it is, and a length that no buffer
    /// holds makes it fail. Else items after the length are dropped, and
    /// items that lack are codepoints of number zero, or glyphs of number
    /// zero that do not move. With no item left the content is not set.
    pub open spec fn with_length(self, length: u32) -> BufferModel {
        if !self.successful {
            self
        } else if length > BUFFER_MAX_LEN {
            BufferModel { successful: false, ..self }
        } else if length == 0 {
            BufferModel {
                content_type: BufferContentType::Invalid,
                infos: Seq::empty(),
                positions: Seq::empty(),
                ..self
            }
        } else {
            BufferModel {
                content_type: if self.content_type == BufferContentType::Invalid {
                    BufferContentType::Unicode
                } else {
                    self.content_type
                },
                infos: Seq::new(
                    length as nat,
                    |i: int| if i < self.infos.len() {
                        self.infos[i]
                    } else {
                        unicode_item(0, 0)
                    },
                ),
                positions: if self.content_type == BufferContentType::Glyphs {
                    Seq::new(
                        length as nat,
                        |i: int| if i < self.positions.len() {
                            self.positions[i]
                        } else {
                            zero_position()
                        },
                    )
                } else {
                    Seq::empty()
                },
                ..self
            }
        }
    }

    /// The buffer after a request to append glyphs with their positions. A
    /// buffer that has failed before stays as it is. Where the glyphs would
    /// be more than a buffer holds, none is added and the buffer has failed.
    /// Else the glyphs follow those that were there, and the content is
    /// glyphs.
    pub open spec fn with_glyphs(
        self,
        infos: Seq<GlyphInfo>,
        positions: Seq<GlyphPosition>,
    ) -> BufferModel {
        if !self.successful {
            self
        } else if self.infos.len() + infos.len() > BUFFER_MAX_LEN {
            BufferModel { successful: false, ..self }
        } else {
            BufferModel {
                content_type: BufferContentType::Glyphs,
                infos: self.infos + infos,
                positions: self.positions + positions,
                ..self
            }
        }
    }

    /// The buffer with its items, and the positions of its glyphs, in
    /// reverse order.
    pub open spec fn reversed(self) -> BufferModel {
        BufferModel {
            infos: self.infos.reverse(),
            positions: self.positions.reverse(),
            ..self
        }
    }

    /// The buffer with the items from `start` up to `end`, and their
    /// positions, in reverse order.
    pub open spec fn range_reversed(self, start: int, end: int) -> BufferModel {
        BufferModel {
            infos: reversed_range(self.infos, start, end),
            positions: reversed_range(self.positions, start, end),
            ..self
        }
    }

    /// The buffer with its runs of equal clusters in reverse order, each
    /// run keeping its own order.
    pub open spec fn cluster_reversed(self) -> BufferModel {
        BufferModel {
            infos: reversed_by_clusters(self.infos, self.clusters()),
            positions: reversed_by_clusters(self.positions, self.clusters()),
            ..self
        }
    }

    /// The buffer with the direction and the script that its codepoints
    /// suggest, where they were not set.
    pub open spec fn guessed(self) -> BufferModel {
        BufferModel { props: guessed_properties(self.props, self.infos, self.unicode_funcs), ..self }
    }
}

/// The clusters of some items, in order.
pub open spec fn clusters_of(infos: Seq<GlyphInfo>) -> Seq<u32> {
    Seq::new(infos.len(), |i: int| infos[i].cluster)
}

/// Whether a script says how a run is written: it is none of `Common`,
/// `Inherited` and `Unknown`.
pub open spec fn is_real_script(script: Script) -> bool {
    script != Script::Common && script != Script::Inherited && script != Script::Unknown
}

/// The script of item `i` of a run.
pub open spec fn script_at(infos: Seq<GlyphInfo>, funcs: UnicodeFuncs, i: int) -> Script {
    funcs.script_of(infos[i].codepoint)
}

/// How many of the first `upto` items of a run have a script.
pub open spec fn script_count(
    infos: Seq<GlyphInfo>,
    funcs: UnicodeFuncs,
    script: Script,
    upto: int,
) -> nat
    decreases upto,
{
    if upto <= 0 {
        0
    } else if script_at(infos, funcs, upto - 1) == script {
        script_count(infos, funcs, script, upto - 1) + 1
    } else {
        script_count(infos, funcs, script, upto - 1)
    }
}

/// Whether item `i` is the first item of the script of the run: its
/// script says how the run is written, no such script has more items in
/// the run, and every such script that occurs before it has fewer.
pub open spec fn leads_run(infos: Seq<GlyphInfo>, funcs: UnicodeFuncs, i: int) -> bool {
    let n = infos.len() as int;
    let most = script_count(infos, funcs, script_at(infos, funcs, i), n);
    &&& 0 <= i < n
    &&& is_real_script(script_at(infos, funcs, i))
    &&& forall|j: int|
        0 <= j < n && is_real_script(#[trigger] script_at(infos, funcs, j)) ==> script_count(
            infos,
            funcs,
            script_at(infos, funcs, j),
            n,
        ) <= most
    &&& forall|j: int|
        0 <= j < i && is_real_script(#[trigger] script_at(infos, funcs, j)) ==> script_count(
            infos,
            funcs,
            script_at(infos, funcs, j),
            n,
        ) < most
}

/// The script of a run by its codepoints: among the scripts that say how
/// the run is written, the one that most codepoints have, and of several
/// such the one that occurs first. Codepoints whose script is `Common`,
/// `Inherited` or `Unknown` do not count, and a run of such codepoints only
/// has no script.
pub open spec fn majority_script(infos: Seq<GlyphInfo>, funcs: UnicodeFuncs) -> Script {
    if exists|i: int| leads_run(infos, funcs, i) {
        script_at(infos, funcs, choose|i: int| leads_run(infos, funcs, i))
    } else {
        Script::Invalid
    }
}

/// At most one item leads a run.
pub proof fn lemma_leader_is_unique(infos: Seq<GlyphInfo>, funcs: UnicodeFuncs, a: int, b: int)
    requires
        leads_run(infos, funcs, a),
        leads_run(infos, funcs, b),
    ensures
        a == b,
{
    if a < b {
        assert(is_real_script(script_at(infos, funcs, a)));
        assert(is_real_script(script_at(infos, funcs, b)));
    } else if b < a {
        assert(is_real_script(script_at(infos, funcs, a)));
        assert(is_real_script(script_at(infos, funcs, b)));
    }
}

/// The properties of a run after guessing. A script that is set stays;
/// one that is not becomes the script that most codepoints of the run have:
/// see `majority_script`. A direction that is set stays; one that is not
/// becomes the horizontal direction of the script. The language stays.
pub open spec fn guessed_properties(
    props: SegmentProperties,
    infos: Seq<GlyphInfo>,
    funcs: UnicodeFuncs,
) -> SegmentProperties {
    let script = if props.script == Script::Invalid {
        majority_script(infos, funcs)
    } else {
        props.script
    };
    let direction = if props.direction == Direction::Invalid {
        if script.is_right_to_left() {
            Direction::Rtl
        } else {
            Direction::Ltr
        }
    } else {
        props.direction
    };
    SegmentProperties { direction, script, language: props.language }
}

/// Where the run of equal clusters that holds place `i` starts.
pub open spec fn run_start(clusters: Seq<u32>, i: int) -> int
    decreases i,
{
    if i <= 0 || i >= clusters.len() || clusters[i - 1] != clusters[i] {
        i
    } else {
        run_start(clusters, i - 1)
    }
}

/// Where the run of equal clusters that holds place `i` ends: the place
/// after its last item.
pub open spec fn run_end(clusters: Seq<u32>, i: int) -> int
    decreases clusters.len() - i,
{
    if i < 0 || i + 1 >= clusters.len() || clusters[i + 1] != clusters[i] {
        i + 1
    } else {
        run_end(clusters, i + 1)
    }
}

/// The place from which the item at place `k` comes when the runs of equal
/// clusters are put in reverse order, each run keeping its own order.
pub open spec fn cluster_reversal_source(clusters: Seq<u32>, k: int) -> int {
    let mirror = clusters.len() - 1 - k;
    run_start(clusters, mirror) + run_end(clusters, mirror) + k - clusters.len()
}

/// The place to which the item at place `i` goes when the runs of equal
/// clusters are put in reverse order, each run keeping its own order.
pub open spec fn cluster_reversal_target(clusters: Seq<u32>, i: int) -> int {
    clusters.len() - run_end(clusters, i) + (i - run_start(clusters, i))
}

/// `s` with the runs of equal clusters in reverse order, each run keeping
/// its own order. `clusters` holds the cluster of each item of `s`.
pub open spec fn reversed_by_clusters<T>(s: Seq<T>, clusters: Seq<u32>) -> Seq<T> {
    Seq::new(s.len(), |k: int| s[cluster_reversal_source(clusters, k)])
}

/// Every place of a run of equal clusters has the start and the end of the
/// run for its own.
pub proof fn lemma_run_bounds(clusters: Seq<u32>, a: int, b: int, m: int)
    requires
        0 <= a <= m < b <= clusters.len(),
        forall|k: int| a <= k < b ==> clusters[k] == clusters[a],
        a == 0 || clusters[a - 1] != clusters[a],
        b == clusters.len() || clusters[b] != clusters[a],
    ensures
        run_start(clusters, m) == a,
        run_end(clusters, m) == b,
{
    lemma_run_start_is(clusters, a, b, m);
    lemma_run_end_is(clusters, a, b, m);
}

proof fn lemma_run_start_is(clusters: Seq<u32>, a: int, b: int, m: int)
    requires
        0 <= a <= m < b <= clusters.len(),
        forall|k: int| a <= k < b ==> clusters[k] == clusters[a],
        a == 0 || clusters[a - 1] != clusters[a],
    ensures
        run_start(clusters, m) == a,
    decreases m - a,
{
    if m > a {
        lemma_run_start_is(clusters, a, b, m - 1);
    }
}

proof fn lemma_run_end_is(clusters: Seq<u32>, a: int, b: int, m: int)
    requires
        0 <= a <= m < b <= clusters.len(),
        forall|k: int| a <= k < b ==> clusters[k] == clusters[a],
        b == clusters.len() || clusters[b] != clusters[a],
    ensures
        run_end(clusters, m) == b,
    decreases b - m,
{
    if m + 1 < b {
        lemma_run_end_is(clusters, a, b, m + 1);
    }
}

/// Counts the items of a run that have a script.
fn count_script(info: &Vec<GlyphInfo>, funcs: &UnicodeFuncs, script: Script) -> (count: usize)
    ensures
        count == script_count(info@, *funcs, script, info@.len() as int),
{
    let n: usize = info.len();
    let mut count: usize = 0;
    let mut i: usize = 0;
    while i < n
        invariant
            i <= n,
            n == info@.len(),
            count == script_count(info@, *funcs, script, i as int),
            count <= i,
        decreases n - i,
    {
        if funcs.script(info[i].codepoint) == script {
            count = count + 1;
        }
        i = i + 1;
    }
    count
}

/// Finds the script that most codepoints of a run have.
fn find_majority_script(info: &Vec<GlyphInfo>, funcs: &UnicodeFuncs) -> (script: Script)
    ensures
        script == majority_script(info@, *funcs),
{
    let n: usize = info.len();
    let mut best: usize = n;
    let mut best_count: usize = 0;
    let mut best_script: Script = Script::Invalid;
    let mut i: usize = 0;
    while i < n
        invariant
            i <= n,
            n == info@.len(),
            best == n ==> best_script == Script::Invalid,
            best == n ==> forall|j: int|
                0 <= j < i ==> !is_real_script(#[trigger] script_at(info@, *funcs, j)),
            best != n ==> best < i && best_script == script_at(info@, *funcs, best as int)
                && is_real_script(best_script) && best_count == script_count(
                info@,
                *funcs,
                best_script,
                n as int,
            ),
            best != n ==> forall|j: int|
                0 <= j < i && is_real_script(#[trigger] script_at(info@, *funcs, j))
                    ==> script_count(info@, *funcs, script_at(info@, *funcs, j), n as int)
                    <= best_count,
            best != n ==> forall|j: int|
                0 <= j < best && is_real_script(#[trigger] script_at(info@, *funcs, j))
                    ==> script_count(info@, *funcs, script_at(info@, *funcs, j), n as int)
                    < best_count,
        decreases n - i,
    {
        let s = funcs.script(info[i].codepoint);
        assert(s == script_at(info@, *funcs, i as int));
        if s != Script::Common && s != Script::Inherited && s != Script::Unknown {
            if best == n {
                best_count = count_script(info, funcs, s);
                best_script = s;
                best = i;
            } else if s != best_script {
                let count = count_script(info, funcs, s);
                if count > best_count {
                    best_count = count;
                    best_script = s;
                    best = i;
                }
            }
        }
        i = i + 1;
    }
    proof {
        if best == n {
            assert forall|k: int| !leads_run(info@, *funcs, k) by {
                if 0 <= k < n {
                    assert(!is_real_script(script_at(info@, *funcs, k)));
                }
            }
        } else {
            assert(leads_run(info@, *funcs, best as int));
            let chosen = choose|k: int| leads_run(info@, *funcs, k);
            lemma_leader_is_unique(info@, *funcs, chosen, best as int);
        }
    }
    best_script
}

/// Reversing a buffer twice gives the buffer back.
pub proof fn lemma_reverse_twice(buffer: BufferModel)
    ensures
        buffer.reversed().reversed() == buffer,
        buffer.reversed().wf() == buffer.wf(),
{
    assert(buffer.infos.reverse().reverse() =~= buffer.infos);
    assert(buffer.positions.reverse().reverse() =~= buffer.positions);
}

/// Reversing a range of a buffer twice gives the buffer back.
pub proof fn lemma_reverse_range_twice(buffer: BufferModel, start: int, end: int)
    ensures
        buffer.range_reversed(start, end).range_reversed(start, end) == buffer,
{
    assert(reversed_range(reversed_range(buffer.infos, start, end), start, end)
        =~= buffer.infos);
    assert(reversed_range(reversed_range(buffer.positions, start, end), start, end)
        =~= buffer.positions);
}

/// What holds of the start of the run of a place: it lies at or before the
/// place, all items from it to the place have one cluster, and the item
/// before it, if any, has another.
pub proof fn lemma_run_start_facts(clusters: Seq<u32>, i: int)
    requires
        0 <= i < clusters.len(),
    ensures
        0 <= run_start(clusters, i) <= i,
        forall|k: int| run_start(clusters, i) <= k <= i ==> clusters[k] == clusters[i],
        run_start(clusters, i) == 0 || clusters[run_start(clusters, i) - 1] != clusters[i],
    decreases i,
{
    if i > 0 && clusters[i - 1] == clusters[i] {
        lemma_run_start_facts(clusters, i - 1);
    }
}

/// What holds of the end of the run of a place: it lies after the place,
/// all items from the place up to it have one cluster, and the item at it,
/// if any, has another.
pub proof fn lemma_run_end_facts(clusters: Seq<u32>, i: int)
    requires
        0 <= i < clusters.len(),
    ensures
        i < run_end(clusters, i) <= clusters.len(),
        forall|k: int| i <= k < run_end(clusters, i) ==> clusters[k] == clusters[i],
        run_end(clusters, i) == clusters.len() || clusters[run_end(clusters, i)] != clusters[i],
    decreases clusters.len() - i,
{
    if i + 1 < clusters.len() && clusters[i + 1] == clusters[i] {
        lemma_run_end_facts(clusters, i + 1);
    }
}

/// The item at place `i` goes to the place that `cluster_reversal_target`
/// names, which lies in the sequence.
pub proof fn lemma_cluster_reversal_target<T>(s: Seq<T>, clusters: Seq<u32>, i: int)
    requires
        s.len() == clusters.len(),
        0 <= i < s.len(),
    ensures
        0 <= cluster_reversal_target(clusters, i) < s.len(),
        reversed_by_clusters(s, clusters)[cluster_reversal_target(clusters, i)] == s[i],
{
    lemma_run_start_facts(clusters, i);
    lemma_run_end_facts(clusters, i);
    let a = run_start(clusters, i);
    let b = run_end(clusters, i);
    let k = cluster_reversal_target(clusters, i);
    let mirror = clusters.len() - 1 - k;
    assert(mirror == a + b - 1 - i);
    assert forall|m: int| a <= m < b implies clusters[m] == clusters[a] by {}
    lemma_run_bounds(clusters, a, b, mirror);
}

/// Two items of one run of equal clusters keep their order when the runs
/// are put in reverse order.
pub proof fn lemma_reverse_clusters_keeps_order_in_run(clusters: Seq<u32>, i: int, j: int)
    requires
        0 <= i < j < clusters.len(),
        forall|k: int| i <= k <= j ==> clusters[k] == clusters[i],
    ensures
        cluster_reversal_target(clusters, i) < cluster_reversal_target(clusters, j),
{
    lemma_run_start_facts(clusters, i);
    lemma_run_end_facts(clusters, j);
    let a = run_start(clusters, i);
    let b = run_end(clusters, j);
    assert forall|m: int| a <= m < b implies clusters[m] == clusters[a] by {}
    lemma_run_bounds(clusters, a, b, i);
    lemma_run_bounds(clusters, a, b, j);
}

/// Whether the items of each cluster stand together: between two items of
/// one cluster there is no item of another.
pub open spec fn clusters_grouped(clusters: Seq<u32>) -> bool {
    forall|i: int, j: int, k: int|
        0 <= i <= k <= j < clusters.len() && clusters[i] == clusters[j] ==> clusters[k]
            == clusters[i]
}

/// Whether numbers never decrease from one to the next.
pub open spec fn non_decreasing(s: Seq<u32>) -> bool {
    forall|i: int, j: int| 0 <= i <= j < s.len() ==> s[i] <= s[j]
}

/// Where the clusters never decrease, the items of each cluster stand
/// together.
pub proof fn lemma_ordered_clusters_are_grouped(clusters: Seq<u32>)
    requires
        non_decreasing(clusters),
    ensures
        clusters_grouped(clusters),
{
    assert forall|i: int, j: int, k: int|
        0 <= i <= k <= j < clusters.len() && clusters[i] == clusters[j] implies clusters[k]
        == clusters[i] by {
        assert(clusters[i] <= clusters[k]);
        assert(clusters[k] <= clusters[j]);
    }
}

/// Where the items of each cluster stand together, two items of one cluster
/// keep their order when the runs are put in reverse order, and each item
/// is found again at its new place.
pub proof fn lemma_reverse_clusters_keeps_order<T>(s: Seq<T>, clusters: Seq<u32>, i: int, j: int)
    requires
        s.len() == clusters.len(),
        clusters_grouped(clusters),
        0 <= i < j < clusters.len(),
        clusters[i] == clusters[j],
    ensures
        0 <= cluster_reversal_target(clusters, i) < cluster_reversal_target(clusters, j) < s.len(),
        reversed_by_clusters(s, clusters)[cluster_reversal_target(clusters, i)] == s[i],
        reversed_by_clusters(s, clusters)[cluster_reversal_target(clusters, j)] == s[j],
{
    lemma_reverse_clusters_keeps_order_in_run(clusters, i, j);
    lemma_cluster_reversal_target(s, clusters, i);
    lemma_cluster_reversal_target(s, clusters, j);
}

/// The runs before the last run are the runs of the sequence without it.
proof fn lemma_runs_of_prefix(clusters: Seq<u32>, a: int, m: int)
    requires
        0 <= m < a < clusters.len(),
        clusters[a - 1] != clusters[a],
    ensures
        run_start(clusters.take(a), m) == run_start(clusters, m),
        run_end(clusters.take(a), m) == run_end(clusters, m),
{
    lemma_run_start_facts(clusters, m);
    lemma_run_end_facts(clusters, m);
    let rs = run_start(clusters, m);
    let re = run_end(clusters, m);
    assert(re <= a) by {
        if re > a {
            assert(clusters[a - 1] == clusters[m]);
            assert(clusters[a] == clusters[m]);
        }
    }
    let prefix = clusters.take(a);
    assert forall|k: int| rs <= k < re implies prefix[k] == prefix[rs] by {}
    lemma_run_bounds(prefix, rs, re, m);
}

/// Putting the runs in reverse order puts the last run first and lets the
/// runs before it follow, in reverse order.
proof fn lemma_reverse_clusters_split<T>(s: Seq<T>, clusters: Seq<u32>)
    requires
        s.len() == clusters.len(),
        s.len() > 0,
    ensures
        reversed_by_clusters(s, clusters) == s.subrange(
            run_start(clusters, clusters.len() - 1),
            s.len() as int,
        ) + reversed_by_clusters(
            s.take(run_start(clusters, clusters.len() - 1)),
            clusters.take(run_start(clusters, clusters.len() - 1)),
        ),
{
    let n = s.len() as int;
    let a = run_start(clusters, n - 1);
    lemma_run_start_facts(clusters, n - 1);
    let left = reversed_by_clusters(s, clusters);
    let right = s.subrange(a, n) + reversed_by_clusters(s.take(a), clusters.take(a));
    assert(left.len() == right.len());
    assert forall|k: int| 0 <= k < n implies left[k] == right[k] by {
        let mirror = n - 1 - k;
        if k < n - a {
            assert forall|m: int| a <= m < n implies clusters[m] == clusters[a] by {}
            lemma_run_bounds(clusters, a, n, mirror);
        } else {
            lemma_runs_of_prefix(clusters, a, mirror);
            let k2 = k - (n - a);
            assert(clusters.take(a).len() - 1 - k2 == mirror);
            lemma_run_start_facts(clusters, mirror);
            lemma_run_end_facts(clusters.take(a), mirror);
            assert(cluster_reversal_source(clusters.take(a), k2) == cluster_reversal_source(
                clusters,
                k,
            ));
        }
    }
    assert(left =~= right);
}

/// Putting the runs of equal clusters in reverse order keeps the items:
/// each is there as often as before.
pub proof fn lemma_reverse_clusters_keeps_items<T>(s: Seq<T>, clusters: Seq<u32>)
    requires
        s.len() == clusters.len(),
    ensures
        reversed_by_clusters(s, clusters).to_multiset() == s.to_multiset(),
    decreases s.len(),
{
    if s.len() == 0 {
        assert(reversed_by_clusters(s, clusters) =~= s);
    } else {
        let n = s.len() as int;
        let a = run_start(clusters, n - 1);
        lemma_run_start_facts(clusters, n - 1);
        lemma_reverse_clusters_split(s, clusters);
        lemma_reverse_clusters_keeps_items(s.take(a), clusters.take(a));
        let last = s.subrange(a, n);
        let rest = reversed_by_clusters(s.take(a), clusters.take(a));
        vstd::seq_lib::lemma_multiset_commutative(last, rest);
        vstd::seq_lib::lemma_multiset_commutative(s.take(a), last);
        assert(s.take(a) + last =~= s);
        assert(last.to_multiset().add(rest.to_multiset()) =~= s.take(a).to_multiset().add(
            last.to_multiset(),
        ));
    }
}

/// Putting the runs of equal clusters of a buffer in reverse order keeps
/// the clusters: each is there as often as before.
pub proof fn lemma_reverse_clusters_keeps_clusters(buffer: BufferModel)
    ensures
        buffer.cluster_reversed().clusters().to_multiset() == buffer.clusters().to_multiset(),
        buffer.cluster_reversed().infos.to_multiset() == buffer.infos.to_multiset(),
{
    let c = buffer.clusters();
    lemma_reverse_clusters_keeps_items(buffer.infos, c);
    lemma_reverse_clusters_keeps_items(c, c);
    assert(buffer.cluster_reversed().clusters() =~= reversed_by_clusters(c, c)) by {
        assert forall|k: int| 0 <= k < c.len() implies buffer.cluster_reversed().clusters()[k]
            == reversed_by_clusters(c, c)[k] by {
            let mirror = c.len() - 1 - k;
            lemma_run_start_facts(c, mirror);
            lemma_run_end_facts(c, mirror);
        }
    }
}

/// Puts the runs of equal clusters in reverse order.
fn reverse_vec_by_clusters<T: Copy>(v: &Vec<T>, info: &Vec<GlyphInfo>) -> (out: Vec<T>)
    requires
        v@.len() == info@.len(),
    ensures
        out@ == reversed_by_clusters(v@, clusters_of(info@)),
{
    let n: usize = info.len();
    let ghost c = clusters_of(info@);
    let mut out: Vec<T> = Vec::new();
    let mut b: usize = n;
    while b > 0
        invariant
            b <= n,
            n == info@.len(),
            n == v@.len(),
            c == clusters_of(info@),
            b == n || b == 0 || c[b - 1] != c[b as int],
            out@.len() == n - b,
            forall|k: int| 0 <= k < n - b ==> out@[k] == v@[cluster_reversal_source(c, k)],
        decreases b,
    {
        let cluster: u32 = info[b - 1].cluster;
        let mut a: usize = b - 1;
        while a > 0 && info[a - 1].cluster == cluster
            invariant
                a < b <= n,
                n == info@.len(),
                c == clusters_of(info@),
                cluster == c[b - 1],
                forall|k: int| a <= k < b ==> c[k] == cluster,
            decreases a,
        {
            a = a - 1;
        }
        let mut k: usize = a;
        while k < b
            invariant
                a <= k <= b <= n,
                n == info@.len(),
                n == v@.len(),
                c == clusters_of(info@),
                forall|m: int| a <= m < b ==> c[m] == c[a as int],
                a == 0 || c[a - 1] != c[a as int],
                b == n || c[b as int] != c[a as int],
                out@.len() == n - b + (k - a),
                forall|p: int|
                    0 <= p < n - b + (k - a) ==> out@[p] == v@[cluster_reversal_source(c, p)],
            decreases b - k,
        {
            proof {
                let p = n - b + (k - a);
                lemma_run_bounds(c, a as int, b as int, n - 1 - p);
                assert(cluster_reversal_source(c, p) == k);
            }
            out.push(v[k]);
            k = k + 1;
        }
        b = a;
    }
    assert(out@ =~= reversed_by_clusters(v@, c));
    out
}

/// The source of text that a buffer can take in: text in one of the
/// encodings, of which a window is read.
pub trait BufferAdd {
    /// The items that the window of the text gives. The window starts at
    /// code unit `item_offset` and holds `item_length` code units, or the
    /// rest of the text where `item_length` is -1.
    spec fn items(&self, item_offset: u32, item_length: i32, replacement: u32) -> Seq<GlyphInfo>;

    /// Appends the items of the window to the buffer.
    fn add_to_buffer(&self, buffer: &mut Buffer, item_offset: u32, item_length: i32)
        requires
            old(buffer).wf(),
            old(buffer)@.content_type != BufferContentType::Glyphs,
        ensures
            final(buffer).wf(),
            final(buffer)@ == old(buffer)@.appended(
                self.items(item_offset, item_length, old(buffer)@.replacement),
            ),
    ;
}

/// Text in UTF-8. The places of the window count bytes.
impl BufferAdd for str {
    open spec fn items(&self, item_offset: u32, item_length: i32, replacement: u32) -> Seq<
        GlyphInfo,
    > {
        let bytes = self.spec_bytes();
        let start = window_start(bytes.len() as int, item_offset);
        let end = window_end(bytes.len() as int, item_offset, item_length);
        utf8_items(bytes.subrange(start, end), start, replacement)
    }

    fn add_to_buffer(&self, buffer: &mut Buffer, item_offset: u32, item_length: i32) {
        let bytes = self.as_bytes();
        let (start, end) = window(bytes.len(), item_offset, item_length);
        let items = decode_utf8_window(bytes, start, end, buffer.replacement);
        buffer.append(items);
    }
}

/// Text in Latin-1: each byte is the codepoint of its own number.
impl BufferAdd for [u8] {
    open spec fn items(&self, item_offset: u32, item_length: i32, replacement: u32) -> Seq<
        GlyphInfo,
    > {
        let start = window_start(self@.len() as int, item_offset);
        let end = window_end(self@.len() as int, item_offset, item_length);
        latin1_items(self@.subrange(start, end), start)
    }

    fn add_to_buffer(&self, buffer: &mut Buffer, item_offset: u32, item_length: i32) {
        let (start, end) = window(self.len(), item_offset, item_length);
        let items = decode_latin1_window(self, start, end);
        buffer.append(items);
    }
}

/// Text in UTF-16.
impl BufferAdd for [u16] {
    open spec fn items(&self, item_offset: u32, item_length: i32, replacement: u32) -> Seq<
        GlyphInfo,
    > {
        let start = window_start(self@.len() as int, item_offset);
        let end = window_end(self@.len() as int, item_offset, item_length);
        utf16_items(self@.subrange(start, end), start, replacement)
    }

    fn add_to_buffer(&self, buffer: &mut Buffer, item_offset: u32, item_length: i32) {
        let (start, end) = window(self.len(), item_offset, item_length);
        let items = decode_utf16_window(self, start, end, buffer.replacement);
        buffer.append(items);
    }
}

/// Text in UTF-32.
impl BufferAdd for [u32] {
    open spec fn items(&self, item_offset: u32, item_length: i32, replacement: u32) -> Seq<
        GlyphInfo,
    > {
        let start = window_start(self@.len() as int, item_offset);
        let end = window_end(self@.len() as int, item_offset, item_length);
        utf32_items(self@.subrange(start, end), start, replacement)
    }

    fn add_to_buffer(&self, buffer: &mut Buffer, item_offset: u32, item_length: i32) {
        let (start, end) = window(self.len(), item_offset, item_length);
        let items = decode_utf32_window(self, start, end, buffer.replacement);
        buffer.append(items);
    }
}

/// Characters, which need no decoding.
impl BufferAdd for [char] {
    open spec fn items(&self, item_offset: u32, item_length: i32, replacement: u32) -> Seq<
        GlyphInfo,
    > {
        let start = window_start(self@.len() as int, item_offset);
        let end = window_end(self@.len() as int, item_offset, item_length);
        char_items(self@.subrange(start, end), start)
    }

    fn add_to_buffer(&self, buffer: &mut Buffer, item_offset: u32, item_length: i32) {
        let (start, end) = window(self.len(), item_offset, item_length);
        let items = decode_chars_window(self, start, end);
        buffer.append(items);
    }
}

/// The item that a codepoint makes when it enters a buffer.
pub open spec fn unicode_item(codepoint: u32, cluster: u32) -> GlyphInfo {
    GlyphInfo { codepoint, mask: 0, cluster }
}

/// `s` with the part from `start` up to `end` in reverse order. An `end`
/// after the last item counts as the end, and a `start` after `end` as `end`.
pub open spec fn reversed_range<T>(s: Seq<T>, start: int, end: int) -> Seq<T> {
    let e = if end < s.len() { if end < 0 { 0 } else { end } } else { s.len() as int };
    let b = if start < e { if start < 0 { 0 } else { start } } else { e };
    Seq::new(s.len(), |i: int| if b <= i < e { s[b + e - 1 - i] } else { s[i] })
}

/// Reverses the part of `v` from `start` up to `end` in place.
fn reverse_vec_range<T: Copy>(v: &mut Vec<T>, start: usize, end: usize)
    requires
        start <= end <= old(v)@.len(),
    ensures
        final(v)@ == reversed_range(old(v)@, start as int, end as int),
{
    if end - start < 2 {
        assert(v@ =~= reversed_range(v@, start as int, end as int));
        return;
    }
    let ghost before = v@;
    let mut i: usize = start;
    let mut j: usize = end - 1;
    while i < j
        invariant
            start <= i,
            j < end,
            end <= before.len(),
            i + j == start + end - 1,
            v@.len() == before.len(),
            forall|k: int| 0 <= k < start || end <= k < before.len() ==> v@[k] == before[k],
            forall|k: int| i <= k <= j ==> v@[k] == before[k],
            forall|k: int| start <= k < i || j < k < end ==> v@[k] == before[start + end - 1 - k],
        decreases end - i,
    {
        let a = v[i];
        let b = v[j];
        v[i] = b;
        v[j] = a;
        i = i + 1;
        j = j - 1;
    }
    assert(v@ =~= reversed_range(before, start as int, end as int));
}

/// The working set of a run of text.
pub struct Buffer {
    content_type: BufferContentType,
    props: SegmentProperties,
    flags: BufferFlags,
    cluster_level: BufferClusterLevel,
    replacement: u32,
    successful: bool,
    unicode: UnicodeFuncs,
    info: Vec<GlyphInfo>,
    pos: Vec<GlyphPosition>,
}

impl View for Buffer {
    type V = BufferModel;

    closed spec fn view(&self) -> BufferModel {
        BufferModel {
            content_type: self.content_type,
            infos: self.info@,
            positions: self.pos@,
            props: self.props,
            flags: self.flags,
            cluster_level: self.cluster_level,
            replacement: self.replacement,
            successful: self.successful,
            unicode_funcs: self.unicode,
        }
    }
}

impl Buffer {
    /// Whether the buffer is in order: see `BufferModel::wf`.
    pub open spec fn wf(&self) -> bool {
        self@.wf()
    }

    /// A new buffer, with no item and nothing set.
    pub fn new() -> (buffer: Buffer)
        ensures
            buffer.wf(),
            buffer@ == BufferModel::empty(),
    {
        Buffer {
            content_type: BufferContentType::Invalid,
            props: SegmentProperties::default(),
            flags: BufferFlags { bits: 0 },
            cluster_level: BufferClusterLevel::MonotoneGraphemes,
            replacement: 0xFFFD,
            successful: true,
            unicode: UnicodeFuncs::get_default(),
            info: Vec::new(),
            pos: Vec::new(),
        }
    }

    /// Says what the items are. Codepoints that become glyphs get the
    /// position of no movement, and glyphs that become codepoints lose
    /// their positions. Only an empty buffer can have its content not set.
    pub fn set_content_type(&mut self, content_type: BufferContentType)
        requires
            old(self).wf(),
            content_type == BufferContentType::Invalid ==> old(self)@.infos.len() == 0,
        ensures
            final(self).wf(),
            final(self)@ == old(self)@.with_content_type(content_type),
    {
        match content_type {
            BufferContentType::Glyphs => {
                if self.content_type != BufferContentType::Glyphs {
                    let n: usize = self.info.len();
                    let mut pos: Vec<GlyphPosition> = Vec::new();
                    let mut i: usize = 0;
                    while i < n
                        invariant
                            i <= n,
                            pos@.len() == i,
                            forall|k: int| 0 <= k < i ==> pos@[k] == zero_position(),
                        decreases n - i,
                    {
                        pos.push(
                            GlyphPosition { x_advance: 0, y_advance: 0, x_offset: 0, y_offset: 0 },
                        );
                        i = i + 1;
                    }
                    self.pos = pos;
                }
            },
            _ => {
                self.pos = Vec::new();
            },
        }
        self.content_type = content_type;
        assert(self@.positions =~= old(self)@.with_content_type(content_type).positions);
    }

    /// Sets what the buffer knows of each codepoint.
    pub fn set_unicode_funcs(&mut self, unicode_funcs: UnicodeFuncs)
        ensures
            final(self)@ == (BufferModel { unicode_funcs, ..old(self)@ }),
    {
        self.unicode = unicode_funcs;
    }

    /// What the buffer knows of each codepoint.
    pub fn unicode_funcs(&self) -> (unicode_funcs: &UnicodeFuncs)
        ensures
            *unicode_funcs == self@.unicode_funcs,
    {
        &self.unicode
    }

    /// Sets the direction of the run.
    pub fn set_direction(&mut self, direction: Direction)
        ensures
            final(self)@ == (BufferModel {
                props: SegmentProperties { direction, ..old(self)@.props },
                ..old(self)@
            }),
    {
        self.props.direction = direction;
    }

    /// The direction of the run.
    pub fn direction(&self) -> (direction: Direction)
        ensures
            direction == self@.props.direction,
    {
        self.props.direction
    }

    /// Sets the script of the run.
    pub fn set_script(&mut self, script: Script)
        ensures
            final(self)@ == (BufferModel {
                props: SegmentProperties { script, ..old(self)@.props },
                ..old(self)@
            }),
    {
        self.props.script = script;
    }

    /// The script of the run.
    pub fn script(&self) -> (script: Script)
        ensures
            script == self@.props.script,
    {
        self.props.script
    }

    /// Sets the language of the run.
    pub fn set_language(&mut self, language: Language)
        ensures
            final(self)@ == (BufferModel {
                props: SegmentProperties { language, ..old(self)@.props },
                ..old(self)@
            }),
    {
        self.props.language = language;
    }

    /// The language of the run.
    pub fn language(&self) -> (language: Language)
        ensures
            language == self@.props.language,
    {
        self.props.language
    }

    /// Sets the three properties of the run.
    pub fn set_segment_properties(&mut self, props: &SegmentProperties)
        ensures
            final(self)@ == (BufferModel { props: *props, ..old(self)@ }),
    {
        self.props = *props;
    }

    /// The three properties of the run.
    pub fn segment_properties(&self) -> (props: SegmentProperties)
        ensures
            props == self@.props,
    {
        self.props
    }

    /// Sets the script and the direction of the run from its codepoints,
    /// each only where it was not set: see `guessed_properties`.
    pub fn guess_segment_properties(&mut self)
        requires
            old(self).wf(),
            old(self)@.content_type != BufferContentType::Glyphs,
        ensures
            final(self).wf(),
            final(self)@ == old(self)@.guessed(),
    {
        if self.props.script == Script::Invalid {
            self.props.script = find_majority_script(&self.info, &self.unicode);
        }
        if self.props.direction == Direction::Invalid {
            self.props.direction = self.props.script.horizontal_direction();
        }
    }

    /// Sets the flags.
    pub fn set_flags(&mut self, flags: BufferFlags)
        ensures
            final(self)@ == (BufferModel { flags, ..old(self)@ }),
    {
        self.flags = flags;
    }

    /// The flags.
    pub fn flags(&self) -> (flags: BufferFlags)
        ensures
            flags == self@.flags,
    {
        self.flags
    }

    /// Sets the cluster level.
    pub fn set_cluster_level(&mut self, cluster_level: BufferClusterLevel)
        ensures
            final(self)@ == (BufferModel { cluster_level, ..old(self)@ }),
    {
        self.cluster_level = cluster_level;
    }

    /// The cluster level.
    pub fn cluster_level(&self) -> (cluster_level: BufferClusterLevel)
        ensures
            cluster_level == self@.cluster_level,
    {
        self.cluster_level
    }

    /// Sets the codepoint that stands in for what cannot be decoded.
    pub fn set_replacement_codepoint(&mut self, replacement_codepoint: char)
        requires
            old(self).wf(),
        ensures
            final(self).wf(),
            final(self)@ == (BufferModel {
                replacement: replacement_codepoint as u32,
                ..old(self)@
            }),
    {
        self.replacement = replacement_codepoint as u32;
    }

    /// The codepoint that stands in for what cannot be decoded.
    pub fn replacement_codepoint(&self) -> (replacement_codepoint: char)
        requires
            self.wf(),
        ensures
            replacement_codepoint as u32 == self@.replacement,
    {
        match char_from_u32(self.replacement) {
            Some(c) => c,
            None => '\u{FFFD}',
        }
    }

    /// Makes the buffer as it was when new.
    pub fn reset(&mut self)
        ensures
            final(self).wf(),
            final(self)@ == BufferModel::empty(),
    {
        self.unicode = UnicodeFuncs::get_default();
        self.flags = BufferFlags { bits: 0 };
        self.replacement = 0xFFFD;
        self.cluster_level = BufferClusterLevel::MonotoneGraphemes;
        self.props = SegmentProperties::default();
        self.content_type = BufferContentType::Invalid;
        self.successful = true;
        self.info.clear();
        self.pos.clear();
    }

    /// Makes the buffer as it was when new, but for what it knows of each
    /// codepoint and for the replacement, which stay.
    pub fn clear_contents(&mut self)
        requires
            old(self).wf(),
        ensures
            final(self).wf(),
            final(self)@ == (BufferModel {
                unicode_funcs: old(self)@.unicode_funcs,
                replacement: old(self)@.replacement,
                ..BufferModel::empty()
            }),
    {
        self.flags = BufferFlags { bits: 0 };
        self.cluster_level = BufferClusterLevel::MonotoneGraphemes;
        self.props = SegmentProperties::default();
        self.content_type = BufferContentType::Invalid;
        self.successful = true;
        self.info.clear();
        self.pos.clear();
    }

    /// Asks for room for `size` items. A buffer that has failed before
    /// fails again. A size that no buffer holds makes the buffer fail. A
    /// size that the buffer has reached needs no room and succeeds. For
    /// any other size the allocator decides, and where it refuses the
    /// buffer has failed. The items stay in any case.
    pub fn pre_allocate(&mut self, size: u32) -> (ok: bool)
        requires
            old(self).wf(),
        ensures
            final(self).wf(),
            final(self)@ == (BufferModel { successful: ok, ..old(self)@ }),
            !old(self)@.successful || size > BUFFER_MAX_LEN ==> !ok,
            old(self)@.successful && size <= old(self)@.infos.len() ==> ok,
    {
        if !self.successful {
            return false;
        }
        if size > BUFFER_MAX_LEN {
            self.successful = false;
            return false;
        }
        let n: usize = self.info.len();
        if size as usize <= n {
            return true;
        }
        let additional: usize = size as usize - n;
        let mut ok: bool = self.info.try_reserve(additional).is_ok();
        if ok && self.content_type == BufferContentType::Glyphs {
            ok = self.pos.try_reserve(additional).is_ok();
        }
        if !ok {
            self.successful = false;
        }
        ok
    }

    /// Whether no request for room has failed since the buffer was new or
    /// reset.
    pub fn allocation_successful(&self) -> (successful: bool)
        ensures
            successful == self@.successful,
    {
        self.successful
    }

    /// Appends one codepoint with its cluster. A buffer that has failed
    /// before, or that is full, takes nothing.
    pub fn add(&mut self, codepoint: char, cluster: u32)
        requires
            old(self).wf(),
            old(self)@.content_type != BufferContentType::Glyphs,
        ensures
            final(self).wf(),
            final(self)@ == old(self)@.appended(seq![unicode_item(codepoint as u32, cluster)]),
    {
        let mut items: Vec<GlyphInfo> = Vec::new();
        items.push(GlyphInfo { codepoint: codepoint as u32, mask: 0, cluster });
        assert(items@ =~= seq![unicode_item(codepoint as u32, cluster)]);
        self.append(items);
    }

    /// Appends codepoints that are ready. A buffer that has failed before
    /// takes nothing; where the items would be more than a buffer holds,
    /// none is taken and the buffer has failed.
    pub fn append(&mut self, items: Vec<GlyphInfo>)
        requires
            old(self).wf(),
            old(self)@.content_type != BufferContentType::Glyphs,
        ensures
            final(self).wf(),
            final(self)@ == old(self)@.appended(items@),
    {
        if !self.successful {
            return ;
        }
        if items.len() > (BUFFER_MAX_LEN as usize) - self.info.len() {
            self.successful = false;
            return ;
        }
        let mut items = items;
        self.info.append(&mut items);
        self.content_type = BufferContentType::Unicode;
    }

    /// Appends the items of a window of `text`: see `BufferAdd`.
    pub fn extend<T: ?Sized + BufferAdd>(&mut self, text: &T, item_offset: u32, item_length: i32)
        requires
            old(self).wf(),
            old(self)@.content_type != BufferContentType::Glyphs,
        ensures
            final(self).wf(),
            final(self)@ == old(self)@.appended(
                text.items(item_offset, item_length, old(self)@.replacement),
            ),
    {
        text.add_to_buffer(self, item_offset, item_length)
    }

    /// Makes the buffer hold exactly `length` items: see
    /// `BufferModel::with_length`. Says whether it did.
    pub fn set_length(&mut self, length: u32) -> (ok: bool)
        requires
            old(self).wf(),
        ensures
            final(self).wf(),
            final(self)@ == old(self)@.with_length(length),
            ok == (old(self)@.successful && length <= BUFFER_MAX_LEN),
    {
        if !self.successful {
            return false;
        }
        if length > BUFFER_MAX_LEN {
            self.successful = false;
            return false;
        }
        if length == 0 {
            self.info.clear();
            self.pos.clear();
            self.content_type = BufferContentType::Invalid;
            return true;
        }
        let glyphs: bool = self.content_type == BufferContentType::Glyphs;
        let n: usize = self.info.len();
        let target: usize = length as usize;
        if target <= n {
            self.info.truncate(target);
            if glyphs {
                self.pos.truncate(target);
            }
        } else {
            let mut i: usize = n;
            while i < target
                invariant
                    n <= i <= target,
                    self.info@.len() == i,
                    glyphs ==> self.pos@.len() == i,
                    !glyphs ==> self.pos@ == old(self).pos@,
                    forall|k: int| 0 <= k < n ==> self.info@[k] == old(self).info@[k],
                    forall|k: int| n <= k < i ==> self.info@[k] == unicode_item(0, 0),
                    glyphs ==> forall|k: int| 0 <= k < n ==> self.pos@[k] == old(self).pos@[k],
                    glyphs ==> forall|k: int| n <= k < i ==> self.pos@[k] == zero_position(),
                    self.content_type == old(self).content_type,
                    self.props == old(self).props,
                    self.flags == old(self).flags,
                    self.cluster_level == old(self).cluster_level,
                    self.replacement == old(self).replacement,
                    self.successful == old(self).successful,
                    self.unicode == old(self).unicode,
                decreases target - i,
            {
                self.info.push(GlyphInfo { codepoint: 0, mask: 0, cluster: 0 });
                if glyphs {
                    self.pos.push(
                        GlyphPosition { x_advance: 0, y_advance: 0, x_offset: 0, y_offset: 0 },
                    );
                }
                i = i + 1;
            }
        }
        if self.content_type == BufferContentType::Invalid {
            self.content_type = BufferContentType::Unicode;
        }
        assert(self@.infos =~= old(self)@.with_length(length).infos);
        assert(self@.positions =~= old(self)@.with_length(length).positions);
        true
    }

    /// The items, in order.
    pub fn glyph_infos(&self) -> (infos: &[GlyphInfo])
        ensures
            infos@ == self@.infos,
    {
        self.info.as_slice()
    }

    /// The positions of the glyphs, in order: one for each item of a
    /// buffer of glyphs, and none before shaping.
    pub fn glyph_positions(&self) -> (positions: &[GlyphPosition])
        ensures
            positions@ == self@.positions,
    {
        self.pos.as_slice()
    }

    /// Appends glyphs with their positions to a buffer of glyphs, or to an
    /// empty buffer whose content is not set, and says whether it did. A
    /// buffer that has failed before takes nothing; where the glyphs would
    /// be more than a buffer holds, none is taken and the buffer has failed.
    pub fn append_glyphs(&mut self, infos: Vec<GlyphInfo>, positions: Vec<GlyphPosition>) -> (ok:
        bool)
        requires
            old(self).wf(),
            old(self)@.content_type != BufferContentType::Unicode,
            infos@.len() == positions@.len(),
        ensures
            final(self).wf(),
            final(self)@ == old(self)@.with_glyphs(infos@, positions@),
            ok == (old(self)@.successful && old(self)@.infos.len() + infos@.len()
                <= BUFFER_MAX_LEN),
    {
        if !self.successful {
            return false;
        }
        if infos.len() > (BUFFER_MAX_LEN as usize) - self.info.len() {
            self.successful = false;
            return false;
        }
        let mut infos = infos;
        let mut positions = positions;
        self.info.append(&mut infos);
        self.pos.append(&mut positions);
        self.content_type = BufferContentType::Glyphs;
        true
    }

    /// Puts glyphs in the place of the items: the buffer then holds the
    /// given glyphs with the given positions.
    pub fn replace_with_glyphs(&mut self, infos: Vec<GlyphInfo>, positions: Vec<GlyphPosition>)
        requires
            old(self).wf(),
            infos@.len() == positions@.len(),
            infos@.len() <= BUFFER_MAX_LEN,
        ensures
            final(self).wf(),
            final(self)@ == (BufferModel {
                content_type: BufferContentType::Glyphs,
                infos: infos@,
                positions: positions@,
                ..old(self)@
            }),
    {
        self.info = infos;
        self.pos = positions;
        self.content_type = BufferContentType::Glyphs;
    }

    /// Puts the runs of equal clusters in reverse order, each run keeping
    /// its own order, with the positions of the glyphs.
    pub fn reverse_clusters(&mut self)
        requires
            old(self).wf(),
        ensures
            final(self).wf(),
            final(self)@ == old(self)@.cluster_reversed(),
    {
        if self.pos.len() == self.info.len() {
            let pos = reverse_vec_by_clusters(&self.pos, &self.info);
            self.pos = pos;
        } else {
            assert(self.pos@ =~= reversed_by_clusters(self.pos@, clusters_of(self.info@)));
        }
        let info = reverse_vec_by_clusters(&self.info, &self.info);
        self.info = info;
    }

    /// What the items are.
    pub fn content_type(&self) -> (content_type: BufferContentType)
        ensures
            content_type == self@.content_type,
    {
        self.content_type
    }

    /// The number of items.
    pub fn len(&self) -> (len: u32)
        requires
            self.wf(),
        ensures
            len == self@.infos.len(),
    {
        self.info.len() as u32
    }

    /// Reverses the items from `start` up to `end`, with their positions.
    /// An `end` after the last item counts as the end, and a `start` after
    /// `end` as `end`.
    pub fn reverse_range(&mut self, start: u32, end: u32)
        requires
            old(self).wf(),
        ensures
            final(self).wf(),
            final(self)@ == old(self)@.range_reversed(start as int, end as int),
    {
        let n: usize = self.info.len();
        let e: usize = if (end as usize) < n { end as usize } else { n };
        let b: usize = if (start as usize) < e { start as usize } else { e };
        reverse_vec_range(&mut self.info, b, e);
        if self.pos.len() == n {
            reverse_vec_range(&mut self.pos, b, e);
        }
        assert(self.info@ =~= reversed_range(old(self).info@, start as int, end as int));
        assert(self.pos@ =~= reversed_range(old(self).pos@, start as int, end as int));
    }

    /// Reverses the order of the items, with their positions.
    pub fn reverse(&mut self)
        requires
            old(self).wf(),
        ensures
            final(self).wf(),
            final(self)@ == old(self)@.reversed(),
    {
        let n: u32 = self.len();
        self.reverse_range(0, n);
        assert(self.info@ =~= old(self).info@.reverse());
        assert(self.pos@ =~= old(self).pos@.reverse());
    }
}

/// A buffer of the codepoints of a text.
impl<'a> From<&'a str> for Buffer {
    fn from(text: &'a str) -> (buffer: Buffer)
        ensures
            buffer.wf(),
            buffer@ == BufferModel::empty().appended(text.items(0, -1i32, 0xFFFD)),
    {
        let mut buffer = Buffer::new();
        buffer.extend(text, 0, -1);
        buffer
    }
}

/// Two buffers that hold the same are not for that reason one value, so no
/// buffer can be named as the result of the conversion: what `from` gives
/// is said by its own contract.
impl<'a> FromSpecImpl<&'a str> for Buffer {
    open spec fn obeys_from_spec() -> bool {
        false
    }

    open spec fn from_spec(text: &'a str) -> Buffer {
        arbitrary()
    }
}

/// The whole of a text in UTF-8, taken into a buffer that has room for
/// it, gives one item for each character of the text, in order, with the
/// number of the character for its codepoint: nothing is replaced.
pub proof fn lemma_extend_whole_text(buffer: BufferModel, text: &str)
    requires
        buffer.successful,
        text.spec_bytes().len() <= 0xFFFF_FFFF,
        buffer.infos.len() + text@.len() <= BUFFER_MAX_LEN,
    ensures
        codepoints_of(text.items(0, -1i32, buffer.replacement)) == scalars_of(text@),
        text.items(0, -1i32, buffer.replacement).len() == text@.len(),
        buffer.appended(text.items(0, -1i32, buffer.replacement)).infos == buffer.infos + text.items(
            0,
            -1i32,
            buffer.replacement,
        ),
        buffer.appended(text.items(0, -1i32, buffer.replacement)).content_type
            == BufferContentType::Unicode,
{
    let bytes = text.spec_bytes();
    assert(bytes.subrange(0, bytes.len() as int) =~= bytes);
    lemma_utf8_items_of_text(text@, 0, buffer.replacement);
    assert(codepoints_of(text.items(0, -1i32, buffer.replacement)).len() == scalars_of(text@).len());
}

} // verus!
