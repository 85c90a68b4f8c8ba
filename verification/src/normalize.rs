//! The canonical order of the glyphs of a cluster.
//!
//! The glyphs of one cluster are drawn at places that follow from their
//! advances and offsets. Normalizing gives the whole advance of the cluster
//! to one glyph, moves what the other advances did into the offsets, so
//! that every glyph is drawn where it was, and puts the other glyphs in the
//! order of their numbers, the largest first.

use crate::buffer::{
    clusters_of, lemma_run_bounds, run_end, Buffer, BufferContentType, BufferModel, GlyphInfo,
    GlyphPosition,
};
use crate::font::{add_wrapping, sub_wrapping, wrapping_difference, wrapping_sum};
use crate::shape::is_backward;
use vstd::prelude::*;

verus! {

/// A glyph with its position.
pub type Placed = (GlyphInfo, GlyphPosition);

/// The advances of the first `i` glyphs added up, along x and along y,
/// wrapping round at the ends of 32 bits.
pub open spec fn advance_before(positions: Seq<GlyphPosition>, i: int) -> (i32, i32)
    decreases i,
{
    if i <= 0 {
        (0, 0)
    } else {
        (
            wrapping_sum(advance_before(positions, i - 1).0, positions[i - 1].x_advance),
            wrapping_sum(advance_before(positions, i - 1).1, positions[i - 1].y_advance),
        )
    }
}

/// The position of glyph `i` of a cluster after normalizing. The advances
/// of the glyphs before it go into its offsets. In a run that runs
/// forwards the first glyph gets the whole advance of the cluster, and the
/// others are moved back by it; in a run that runs backwards the last
/// glyph gets the whole advance.
pub open spec fn moved_position(positions: Seq<GlyphPosition>, backward: bool, i: int) -> GlyphPosition {
    let n = positions.len() as int;
    let total = advance_before(positions, n);
    let before = advance_before(positions, i);
    let x = wrapping_sum(positions[i].x_offset, before.0);
    let y = wrapping_sum(positions[i].y_offset, before.1);
    if backward {
        GlyphPosition {
            x_advance: if i == n - 1 { total.0 } else { 0 },
            y_advance: if i == n - 1 { total.1 } else { 0 },
            x_offset: x,
            y_offset: y,
        }
    } else if i == 0 {
        GlyphPosition { x_advance: total.0, y_advance: total.1, x_offset: x, y_offset: y }
    } else {
        GlyphPosition {
            x_advance: 0,
            y_advance: 0,
            x_offset: wrapping_difference(x, total.0),
            y_offset: wrapping_difference(y, total.1),
        }
    }
}

/// The glyphs of a cluster with their positions after normalizing, still
/// in their old order.
pub open spec fn moved(infos: Seq<GlyphInfo>, positions: Seq<GlyphPosition>, backward: bool) -> Seq<
    Placed,
> {
    Seq::new(infos.len(), |i: int| (infos[i], moved_position(positions, backward, i)))
}

/// Where a glyph goes into glyphs that are in the order of their numbers,
/// the largest first: after the last glyph whose number is not smaller.
pub open spec fn insert_index(sorted: Seq<Placed>, glyph: u32) -> int
    decreases sorted.len(),
{
    if sorted.len() == 0 || sorted.last().0.codepoint >= glyph {
        sorted.len() as int
    } else {
        insert_index(sorted.drop_last(), glyph)
    }
}

/// Glyphs in the order of their numbers, the largest first; glyphs of one
/// number keep the order that they had.
pub open spec fn sorted_by_glyph(items: Seq<Placed>) -> Seq<Placed>
    decreases items.len(),
{
    if items.len() == 0 {
        Seq::empty()
    } else {
        let before = sorted_by_glyph(items.drop_last());
        before.insert(insert_index(before, items.last().0.codepoint), items.last())
    }
}

/// The glyphs of one cluster after normalizing: the glyph that has the
/// advance of the cluster stays at its end of the cluster, the first in a
/// run that runs forwards and the last in one that runs backwards, and the
/// others are put in the order of their numbers.
pub open spec fn normalized_cluster(
    infos: Seq<GlyphInfo>,
    positions: Seq<GlyphPosition>,
    backward: bool,
) -> Seq<Placed> {
    let items = moved(infos, positions, backward);
    if items.len() == 0 {
        items
    } else if backward {
        sorted_by_glyph(items.drop_last()).push(items.last())
    } else {
        seq![items[0]] + sorted_by_glyph(items.drop_first())
    }
}

/// The glyphs of a run after normalizing: cluster by cluster.
pub open spec fn normalized(
    infos: Seq<GlyphInfo>,
    positions: Seq<GlyphPosition>,
    backward: bool,
) -> Seq<Placed>
    decreases infos.len(),
{
    let b = run_end(clusters_of(infos), 0);
    if infos.len() == 0 || b <= 0 || b > infos.len() {
        Seq::empty()
    } else {
        normalized_cluster(infos.take(b), positions.take(b), backward) + normalized(
            infos.skip(b),
            positions.skip(b),
            backward,
        )
    }
}

/// The glyphs of some placed glyphs.
pub open spec fn infos_of(items: Seq<Placed>) -> Seq<GlyphInfo> {
    Seq::new(items.len(), |i: int| items[i].0)
}

/// The positions of some placed glyphs.
pub open spec fn positions_of(items: Seq<Placed>) -> Seq<GlyphPosition> {
    Seq::new(items.len(), |i: int| items[i].1)
}

/// The place where a glyph goes in lies in the glyphs or at their end,
/// the glyphs before it have numbers that are not smaller, and those from
/// it on have smaller numbers.
pub proof fn lemma_insert_index(sorted: Seq<Placed>, glyph: u32)
    ensures
        0 <= insert_index(sorted, glyph) <= sorted.len(),
        insert_index(sorted, glyph) > 0 ==> sorted[insert_index(sorted, glyph) - 1].0.codepoint
            >= glyph,
        forall|k: int|
            insert_index(sorted, glyph) <= k < sorted.len() ==> sorted[k].0.codepoint < glyph,
    decreases sorted.len(),
{
    if sorted.len() == 0 || sorted.last().0.codepoint >= glyph {
    } else {
        let head = sorted.drop_last();
        lemma_insert_index(head, glyph);
        assert forall|k: int| insert_index(sorted, glyph) <= k < sorted.len() implies sorted[k].0.codepoint
            < glyph by {
            if k < head.len() {
                assert(head[k] == sorted[k]);
            }
        }
        if insert_index(sorted, glyph) > 0 {
            assert(head[insert_index(sorted, glyph) - 1] == sorted[insert_index(sorted, glyph)
                - 1]);
        }
    }
}

/// Whether glyphs are in the order of their numbers, the largest first.
pub open spec fn is_sorted_by_glyph(items: Seq<Placed>) -> bool {
    forall|i: int, j: int|
        0 <= i <= j < items.len() ==> items[i].0.codepoint >= items[j].0.codepoint
}

/// Sorting puts the glyphs in the order of their numbers, the largest
/// first, and keeps them all: each is there as often as before.
pub proof fn lemma_sorted_by_glyph(items: Seq<Placed>)
    ensures
        sorted_by_glyph(items).len() == items.len(),
        is_sorted_by_glyph(sorted_by_glyph(items)),
        sorted_by_glyph(items).to_multiset() == items.to_multiset(),
    decreases items.len(),
{
    if items.len() == 0 {
        assert(items =~= Seq::<Placed>::empty());
    } else {
        let before = sorted_by_glyph(items.drop_last());
        let x = items.last();
        let at = insert_index(before, x.0.codepoint);
        lemma_sorted_by_glyph(items.drop_last());
        lemma_insert_index(before, x.0.codepoint);
        let after = before.insert(at, x);
        assert forall|i: int, j: int| 0 <= i <= j < after.len() implies after[i].0.codepoint
            >= after[j].0.codepoint by {
            if i < at && j < at {
                assert(after[i] == before[i] && after[j] == before[j]);
            } else if i < at && j == at {
                assert(after[i] == before[i]);
                assert(before[i].0.codepoint >= before[at - 1].0.codepoint);
            } else if i < at {
                assert(after[i] == before[i] && after[j] == before[j - 1]);
            } else if i == at && j == at {
            } else if i == at {
                assert(after[j] == before[j - 1]);
            } else {
                assert(after[i] == before[i - 1] && after[j] == before[j - 1]);
            }
        }
        vstd::seq_lib::to_multiset_insert(before, at, x);
        vstd::seq_lib::to_multiset_build(items.drop_last(), x);
        assert(items.drop_last().push(x) =~= items);
        assert(after.to_multiset() =~= items.to_multiset());
    }
}

/// Sorts glyphs by their numbers, the largest first.
fn sort_by_glyph(items: &Vec<Placed>) -> (sorted: Vec<Placed>)
    ensures
        sorted@ == sorted_by_glyph(items@),
{
    let mut sorted: Vec<Placed> = Vec::new();
    let mut j: usize = 0;
    while j < items.len()
        invariant
            j <= items@.len(),
            sorted@ == sorted_by_glyph(items@.subrange(0, j as int)),
            sorted@.len() == j,
        decreases items@.len() - j,
    {
        let x = items[j];
        let mut at: usize = sorted.len();
        assert(sorted@.subrange(0, at as int) =~= sorted@);
        while at > 0 && sorted[at - 1].0.codepoint < x.0.codepoint
            invariant
                at <= sorted@.len(),
                insert_index(sorted@.subrange(0, at as int), x.0.codepoint) == insert_index(
                    sorted@,
                    x.0.codepoint,
                ),
            decreases at,
        {
            let ghost head = sorted@.subrange(0, at as int);
            assert(head.drop_last() =~= sorted@.subrange(0, at - 1));
            assert(head.last() == sorted@[at - 1]);
            at = at - 1;
        }
        proof {
            let head = sorted@.subrange(0, at as int);
            if at > 0 {
                assert(head.last() == sorted@[at - 1]);
            }
            assert(insert_index(head, x.0.codepoint) == at);
            let next = items@.subrange(0, j + 1);
            assert(next.drop_last() =~= items@.subrange(0, j as int));
            assert(next.last() == x);
        }
        sorted.insert(at, x);
        j = j + 1;
    }
    assert(items@.subrange(0, j as int) =~= items@);
    sorted
}

/// Normalizes the glyphs of one cluster, which stand from `a` up to `b`,
/// and appends them.
fn normalize_cluster(
    infos: &[GlyphInfo],
    positions: &[GlyphPosition],
    a: usize,
    b: usize,
    backward: bool,
    out_infos: &mut Vec<GlyphInfo>,
    out_positions: &mut Vec<GlyphPosition>,
)
    requires
        a < b <= infos@.len(),
        infos@.len() == positions@.len(),
    ensures
        final(out_infos)@ == old(out_infos)@ + infos_of(
            normalized_cluster(
                infos@.subrange(a as int, b as int),
                positions@.subrange(a as int, b as int),
                backward,
            ),
        ),
        final(out_positions)@ == old(out_positions)@ + positions_of(
            normalized_cluster(
                infos@.subrange(a as int, b as int),
                positions@.subrange(a as int, b as int),
                backward,
            ),
        ),
{
    let ghost run_infos = infos@.subrange(a as int, b as int);
    let ghost run_positions = positions@.subrange(a as int, b as int);
    let n: usize = b - a;
    // the whole advance of the cluster
    let mut total_x: i32 = 0;
    let mut total_y: i32 = 0;
    let mut i: usize = 0;
    while i < n
        invariant
            i <= n,
            n == b - a,
            a < b <= positions@.len(),
            run_positions == positions@.subrange(a as int, b as int),
            (total_x, total_y) == advance_before(run_positions, i as int),
        decreases n - i,
    {
        total_x = add_wrapping(total_x, positions[a + i].x_advance);
        total_y = add_wrapping(total_y, positions[a + i].y_advance);
        i = i + 1;
    }
    // the glyphs with their new positions, in their old order
    let mut items: Vec<Placed> = Vec::new();
    let mut before_x: i32 = 0;
    let mut before_y: i32 = 0;
    let mut i: usize = 0;
    while i < n
        invariant
            i <= n,
            n == b - a,
            a < b <= infos@.len(),
            infos@.len() == positions@.len(),
            run_infos == infos@.subrange(a as int, b as int),
            run_positions == positions@.subrange(a as int, b as int),
            (total_x, total_y) == advance_before(run_positions, n as int),
            (before_x, before_y) == advance_before(run_positions, i as int),
            items@.len() == i,
            forall|k: int|
                0 <= k < i ==> items@[k] == (
                    run_infos[k],
                    moved_position(run_positions, backward, k),
                ),
        decreases n - i,
    {
        let p = positions[a + i];
        let x: i32 = add_wrapping(p.x_offset, before_x);
        let y: i32 = add_wrapping(p.y_offset, before_y);
        let position = if backward {
            GlyphPosition {
                x_advance: if i == n - 1 { total_x } else { 0 },
                y_advance: if i == n - 1 { total_y } else { 0 },
                x_offset: x,
                y_offset: y,
            }
        } else if i == 0 {
            GlyphPosition { x_advance: total_x, y_advance: total_y, x_offset: x, y_offset: y }
        } else {
            GlyphPosition {
                x_advance: 0,
                y_advance: 0,
                x_offset: sub_wrapping(x, total_x),
                y_offset: sub_wrapping(y, total_y),
            }
        };
        items.push((infos[a + i], position));
        before_x = add_wrapping(before_x, p.x_advance);
        before_y = add_wrapping(before_y, p.y_advance);
        i = i + 1;
    }
    assert(items@ =~= moved(run_infos, run_positions, backward));
    // all but the glyph that has the advance, in the order of their numbers
    let mut rest: Vec<Placed> = Vec::new();
    let first: usize = if backward { 0 } else { 1 };
    let last: usize = if backward { n - 1 } else { n };
    let mut i: usize = first;
    while i < last
        invariant
            first <= i <= last <= n,
            n == items@.len(),
            rest@ == items@.subrange(first as int, i as int),
        decreases last - i,
    {
        rest.push(items[i]);
        i = i + 1;
        assert(rest@ =~= items@.subrange(first as int, i as int));
    }
    let sorted = sort_by_glyph(&rest);
    let ghost result = normalized_cluster(run_infos, run_positions, backward);
    proof {
        if backward {
            assert(rest@ =~= items@.drop_last());
        } else {
            assert(rest@ =~= items@.drop_first());
        }
        lemma_sorted_by_glyph(rest@);
    }
    let ghost base_infos = out_infos@;
    let ghost base_positions = out_positions@;
    if !backward {
        out_infos.push(items[0].0);
        out_positions.push(items[0].1);
    }
    let ghost start_infos = out_infos@;
    let ghost start_positions = out_positions@;
    let mut i: usize = 0;
    while i < sorted.len()
        invariant
            i <= sorted@.len(),
            out_infos@ == start_infos + infos_of(sorted@.subrange(0, i as int)),
            out_positions@ == start_positions + positions_of(sorted@.subrange(0, i as int)),
        decreases sorted@.len() - i,
    {
        out_infos.push(sorted[i].0);
        out_positions.push(sorted[i].1);
        i = i + 1;
        assert(out_infos@ =~= start_infos + infos_of(sorted@.subrange(0, i as int)));
        assert(out_positions@ =~= start_positions + positions_of(sorted@.subrange(0, i as int)));
    }
    assert(sorted@.subrange(0, i as int) =~= sorted@);
    if backward {
        out_infos.push(items[n - 1].0);
        out_positions.push(items[n - 1].1);
    }
    assert(out_infos@ =~= base_infos + infos_of(result));
    assert(out_positions@ =~= base_positions + positions_of(result));
}

impl BufferModel {
    /// The buffer with the glyphs of each cluster in their canonical order:
    /// see `normalized`. A buffer that does not hold glyphs stays as it
    /// is.
    pub open spec fn glyphs_normalized(self) -> BufferModel {
        if self.content_type == BufferContentType::Glyphs {
            BufferModel {
                infos: infos_of(
                    normalized(self.infos, self.positions, is_backward(self.props.direction)),
                ),
                positions: positions_of(
                    normalized(self.infos, self.positions, is_backward(self.props.direction)),
                ),
                ..self
            }
        } else {
            self
        }
    }
}

/// Normalizing keeps the number of the glyphs.
pub proof fn lemma_normalized_len(
    infos: Seq<GlyphInfo>,
    positions: Seq<GlyphPosition>,
    backward: bool,
)
    requires
        infos.len() == positions.len(),
    ensures
        normalized(infos, positions, backward).len() == infos.len(),
    decreases infos.len(),
{
    if infos.len() > 0 {
        let c = clusters_of(infos);
        crate::buffer::lemma_run_end_facts(c, 0);
        let b = run_end(c, 0);
        let run = moved(infos.take(b), positions.take(b), backward);
        if backward {
            lemma_sorted_by_glyph(run.drop_last());
        } else {
            lemma_sorted_by_glyph(run.drop_first());
        }
        lemma_normalized_len(infos.skip(b), positions.skip(b), backward);
    }
}

/// Sorting glyphs that all have one cluster gives glyphs of that cluster.
proof fn lemma_sorted_keeps_cluster(items: Seq<Placed>, cluster: u32)
    requires
        forall|i: int| 0 <= i < items.len() ==> (#[trigger] items[i]).0.cluster == cluster,
    ensures
        sorted_by_glyph(items).len() == items.len(),
        forall|i: int|
            0 <= i < items.len() ==> (#[trigger] sorted_by_glyph(items)[i]).0.cluster == cluster,
    decreases items.len(),
{
    if items.len() > 0 {
        let head = items.drop_last();
        assert forall|i: int| 0 <= i < head.len() implies (#[trigger] head[i]).0.cluster
            == cluster by {
            assert(head[i] == items[i]);
        }
        lemma_sorted_keeps_cluster(head, cluster);
        let before = sorted_by_glyph(head);
        let at = insert_index(before, items.last().0.codepoint);
        lemma_insert_index(before, items.last().0.codepoint);
        let after = before.insert(at, items.last());
        assert forall|i: int| 0 <= i < items.len() implies (#[trigger] after[i]).0.cluster
            == cluster by {
            if i < at {
                assert(after[i] == before[i]);
            } else if i == at {
                assert(after[i] == items[items.len() - 1]);
            } else {
                assert(after[i] == before[i - 1]);
            }
        }
    }
}

/// Normalizing keeps the cluster of every place: the glyphs change places
/// only inside their cluster.
pub proof fn lemma_normalize_keeps_clusters(
    infos: Seq<GlyphInfo>,
    positions: Seq<GlyphPosition>,
    backward: bool,
)
    requires
        infos.len() == positions.len(),
    ensures
        clusters_of(infos_of(normalized(infos, positions, backward))) == clusters_of(infos),
    decreases infos.len(),
{
    let result = normalized(infos, positions, backward);
    lemma_normalized_len(infos, positions, backward);
    if infos.len() == 0 {
        assert(clusters_of(infos_of(result)) =~= clusters_of(infos));
    } else {
        let c = clusters_of(infos);
        crate::buffer::lemma_run_end_facts(c, 0);
        let b = run_end(c, 0);
        let run_infos = infos.take(b);
        let run = moved(run_infos, positions.take(b), backward);
        assert forall|i: int| 0 <= i < run.len() implies (#[trigger] run[i]).0.cluster == c[0] by {
            assert(run_infos[i] == infos[i]);
            assert(c[i] == c[0]);
        }
        let first = normalized_cluster(run_infos, positions.take(b), backward);
        assert(first.len() == b && forall|i: int|
            0 <= i < b ==> (#[trigger] first[i]).0.cluster == c[0]) by {
            if backward {
                let head = run.drop_last();
                assert forall|i: int| 0 <= i < head.len() implies (#[trigger] head[i]).0.cluster
                    == c[0] by {
                    assert(head[i] == run[i]);
                }
                lemma_sorted_keeps_cluster(head, c[0]);
                assert forall|i: int| 0 <= i < b implies (#[trigger] first[i]).0.cluster
                    == c[0] by {
                    if i < b - 1 {
                        assert(first[i] == sorted_by_glyph(head)[i]);
                    } else {
                        assert(first[i] == run[b - 1]);
                    }
                }
            } else {
                let tail = run.drop_first();
                assert forall|i: int| 0 <= i < tail.len() implies (#[trigger] tail[i]).0.cluster
                    == c[0] by {
                    assert(tail[i] == run[i + 1]);
                }
                lemma_sorted_keeps_cluster(tail, c[0]);
                assert forall|i: int| 0 <= i < b implies (#[trigger] first[i]).0.cluster
                    == c[0] by {
                    if i == 0 {
                        assert(first[i] == run[0]);
                    } else {
                        assert(first[i] == sorted_by_glyph(tail)[i - 1]);
                    }
                }
            }
        }
        lemma_normalize_keeps_clusters(infos.skip(b), positions.skip(b), backward);
        lemma_normalized_len(infos.skip(b), positions.skip(b), backward);
        let rest = normalized(infos.skip(b), positions.skip(b), backward);
        assert(result == first + rest);
        assert forall|i: int| 0 <= i < infos.len() implies clusters_of(infos_of(result))[i]
            == c[i] by {
            if i < b {
                assert(result[i] == first[i]);
                assert(c[i] == c[0]);
            } else {
                assert(result[i] == rest[i - b]);
                assert(clusters_of(infos_of(rest))[i - b] == clusters_of(infos.skip(b))[i - b]);
                assert(infos.skip(b)[i - b] == infos[i]);
            }
        }
        assert(clusters_of(infos_of(result)) =~= c);
    }
}

impl Buffer {
    /// Puts the glyphs of each cluster in their canonical order: see
    /// `normalized`. A buffer that does not hold glyphs stays as it is.
    pub fn normalize_glyphs(&mut self)
        requires
            old(self).wf(),
        ensures
            final(self).wf(),
            final(self)@ == old(self)@.glyphs_normalized(),
    {
        match self.content_type() {
            BufferContentType::Glyphs => {},
            _ => {
                return ;
            },
        }
        let backward: bool = self.direction().is_backward();
        let n: usize = self.len() as usize;
        let mut out_infos: Vec<GlyphInfo> = Vec::new();
        let mut out_positions: Vec<GlyphPosition> = Vec::new();
        let ghost infos = self@.infos;
        let ghost positions = self@.positions;
        let ghost whole = normalized(infos, positions, backward);
        let mut start: usize = 0;
        assert(infos.skip(0) =~= infos);
        assert(positions.skip(0) =~= positions);
        while start < n
            invariant
                start <= n,
                n == infos.len(),
                infos.len() == positions.len(),
                self@ == old(self)@,
                infos == self@.infos,
                positions == self@.positions,
                whole == normalized(infos, positions, backward),
                out_infos@ + infos_of(
                    normalized(infos.skip(start as int), positions.skip(start as int), backward),
                ) == infos_of(whole),
                out_positions@ + positions_of(
                    normalized(infos.skip(start as int), positions.skip(start as int), backward),
                ) == positions_of(whole),
            decreases n - start,
        {
            let cluster: u32 = self.glyph_infos()[start].cluster;
            let mut end: usize = start + 1;
            while end < n && self.glyph_infos()[end].cluster == cluster
                invariant
                    start < end <= n,
                    n == infos.len(),
                    infos == self@.infos,
                    cluster == infos[start as int].cluster,
                    forall|k: int| start <= k < end ==> infos[k].cluster == cluster,
                decreases n - end,
            {
                end = end + 1;
            }
            let ghost rest_infos = infos.skip(start as int);
            let ghost rest_positions = positions.skip(start as int);
            let ghost len = end - start;
            proof {
                let c = clusters_of(rest_infos);
                assert forall|k: int| 0 <= k < len implies #[trigger] c[k] == c[0] by {
                    assert(rest_infos[k] == infos[start + k]);
                }
                if len < c.len() {
                    assert(rest_infos[len] == infos[end as int]);
                }
                lemma_run_bounds(c, 0, len, 0);
                assert(rest_infos.take(len) =~= infos.subrange(start as int, end as int));
                assert(rest_positions.take(len) =~= positions.subrange(start as int, end as int));
                assert(rest_infos.skip(len) =~= infos.skip(end as int));
                assert(rest_positions.skip(len) =~= positions.skip(end as int));
            }
            let ghost cluster_items = normalized_cluster(
                infos.subrange(start as int, end as int),
                positions.subrange(start as int, end as int),
                backward,
            );
            let ghost tail = normalized(infos.skip(end as int), positions.skip(end as int), backward);
            let ghost before_infos = out_infos@;
            let ghost before_positions = out_positions@;
            normalize_cluster(
                self.glyph_infos(),
                self.glyph_positions(),
                start,
                end,
                backward,
                &mut out_infos,
                &mut out_positions,
            );
            proof {
                assert(normalized(rest_infos, rest_positions, backward) == cluster_items + tail);
                assert(infos_of(cluster_items + tail) =~= infos_of(cluster_items) + infos_of(tail));
                assert(positions_of(cluster_items + tail) =~= positions_of(cluster_items)
                    + positions_of(tail));
                assert(out_infos@ + infos_of(tail) =~= before_infos + (infos_of(cluster_items)
                    + infos_of(tail)));
                assert(out_positions@ + positions_of(tail) =~= before_positions + (positions_of(
                    cluster_items,
                ) + positions_of(tail)));
            }
            start = end;
        }
        proof {
            assert(infos.skip(n as int).len() == 0);
            assert(out_infos@ =~= infos_of(whole));
            assert(out_positions@ =~= positions_of(whole));
            lemma_normalized_len(infos, positions, backward);
        }
        self.replace_with_glyphs(out_infos, out_positions);
    }
}

} // verus!
