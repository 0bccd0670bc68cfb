//! The layered flex resolver: distributes elements along a main axis,
//! layer group by layer group.

use vstd::prelude::*;

use crate::align::{align_shift, Align};
use crate::geometry::{sat_add, sat_sub, spec_max, Bound, MaxSize, Point, Size};
use crate::limits::Limits;
use crate::node::{nodes_view, Node, NodeView};
use crate::participant::{Participant, Renderer};

verus! {

broadcast use crate::node::lemma_nodes_view;

/// The main axis of a flex layout: the direction elements flow in. The
/// perpendicular direction is the cross axis.
#[derive(Clone, Copy, PartialEq, Eq, Structural, Debug)]
pub enum Axis {
    /// Elements flow left to right.
    Horizontal,
    /// Elements flow top to bottom.
    Vertical,
}

impl Axis {
    /// The main-axis component of a size.
    pub open spec fn spec_main(self, size: Size) -> u32 {
        match self {
            Axis::Horizontal => size.width,
            Axis::Vertical => size.height,
        }
    }

    /// The cross-axis component of a size.
    pub open spec fn spec_cross(self, size: Size) -> u32 {
        match self {
            Axis::Horizontal => size.height,
            Axis::Vertical => size.width,
        }
    }

    /// Recombines a main-axis and a cross-axis component into a
    /// `(width, height)` pair: the exact inverse of the decomposition
    /// through [`Axis::spec_main`] and [`Axis::spec_cross`].
    pub open spec fn spec_pack(self, main: u32, cross: u32) -> (u32, u32) {
        match self {
            Axis::Horizontal => (main, cross),
            Axis::Vertical => (cross, main),
        }
    }

    /// The main-axis component of a maximum size.
    pub open spec fn spec_main_bound(self, max: MaxSize) -> Bound {
        match self {
            Axis::Horizontal => max.width,
            Axis::Vertical => max.height,
        }
    }

    /// The cross-axis component of a maximum size.
    pub open spec fn spec_cross_bound(self, max: MaxSize) -> Bound {
        match self {
            Axis::Horizontal => max.height,
            Axis::Vertical => max.width,
        }
    }

    /// Recombines main-axis and cross-axis bounds into a maximum size.
    pub open spec fn spec_pack_bounds(self, main: Bound, cross: Bound) -> MaxSize {
        match self {
            Axis::Horizontal => MaxSize { width: main, height: cross },
            Axis::Vertical => MaxSize { width: cross, height: main },
        }
    }

    /// Exec counterpart of [`Axis::spec_main`].
    pub fn main(&self, size: Size) -> (r: u32)
        ensures
            r == self.spec_main(size),
    {
        match self {
            Axis::Horizontal => size.width,
            Axis::Vertical => size.height,
        }
    }

    /// Exec counterpart of [`Axis::spec_cross`].
    pub fn cross(&self, size: Size) -> (r: u32)
        ensures
            r == self.spec_cross(size),
    {
        match self {
            Axis::Horizontal => size.height,
            Axis::Vertical => size.width,
        }
    }

    /// Exec counterpart of [`Axis::spec_pack`].
    pub fn pack(&self, main: u32, cross: u32) -> (r: (u32, u32))
        ensures
            r == self.spec_pack(main, cross),
    {
        match self {
            Axis::Horizontal => (main, cross),
            Axis::Vertical => (cross, main),
        }
    }

    /// Exec counterpart of [`Axis::spec_main_bound`].
    pub fn main_bound(&self, max: MaxSize) -> (r: Bound)
        ensures
            r == self.spec_main_bound(max),
    {
        match self {
            Axis::Horizontal => max.width,
            Axis::Vertical => max.height,
        }
    }

    /// Exec counterpart of [`Axis::spec_cross_bound`].
    pub fn cross_bound(&self, max: MaxSize) -> (r: Bound)
        ensures
            r == self.spec_cross_bound(max),
    {
        match self {
            Axis::Horizontal => max.height,
            Axis::Vertical => max.width,
        }
    }

    /// Exec counterpart of [`Axis::spec_pack_bounds`].
    pub fn pack_bounds(&self, main: Bound, cross: Bound) -> (r: MaxSize)
        ensures
            r == self.spec_pack_bounds(main, cross),
    {
        match self {
            Axis::Horizontal => MaxSize { width: main, height: cross },
            Axis::Vertical => MaxSize { width: cross, height: main },
        }
    }
}

/// Packing the main and cross components of a size recovers the size, on
/// either axis.
pub proof fn lemma_pack_inverse(axis: Axis, size: Size)
    ensures
        axis.spec_pack(axis.spec_main(size), axis.spec_cross(size)) == (size.width, size.height),
        axis.spec_main(Size { width: size.width, height: size.height }) == axis.spec_main(size),
{
}

/// Decomposing a packed pair recovers its components, on either axis.
pub proof fn lemma_unpack_inverse(axis: Axis, main: u32, cross: u32)
    ensures
        axis.spec_main(
            Size { width: axis.spec_pack(main, cross).0, height: axis.spec_pack(main, cross).1 },
        ) == main,
        axis.spec_cross(
            Size { width: axis.spec_pack(main, cross).0, height: axis.spec_pack(main, cross).1 },
        ) == cross,
{
}

// ----------------------------------------------------------------------
// The mathematical model of the resolver, pass by pass.
// ----------------------------------------------------------------------

/// The layer index of every participant, in order.
pub open spec fn layers_of<R: Renderer, P: Participant<R>>(items: Seq<P>) -> Seq<i32> {
    items.map_values(|p: P| p.spec_layer())
}

/// The predicate "belongs to `layer`".
pub open spec fn has_layer<R: Renderer, P: Participant<R>>(layer: i32) -> spec_fn(P) -> bool {
    |p: P| p.spec_layer() == layer
}

/// The participants of one layer, in their original relative order.
pub open spec fn group_items<R: Renderer, P: Participant<R>>(items: Seq<P>, layer: i32) -> Seq<P> {
    items.filter(has_layer::<R, P>(layer))
}

/// The predicate "differs from `m`".
pub open spec fn ne_pred(m: i32) -> spec_fn(i32) -> bool {
    |x: i32| x != m
}

/// The smallest value of a nonempty sequence of layer indices.
pub open spec fn seq_min_i32(s: Seq<i32>) -> i32
    recommends
        s.len() > 0,
    decreases s.len(),
{
    if s.len() <= 1 {
        s[0]
    } else {
        let rest = seq_min_i32(s.drop_first());
        if s[0] <= rest {
            s[0]
        } else {
            rest
        }
    }
}

/// The distinct values of `s` in ascending order: the processing order of
/// the layer groups.
pub open spec fn ascending_layers(s: Seq<i32>) -> Seq<i32>
    decreases s.len(),
    via ascending_layers_decreases
{
    if s.len() == 0 {
        Seq::empty()
    } else {
        let m = seq_min_i32(s);
        seq![m] + ascending_layers(s.filter(ne_pred(m)))
    }
}

#[via_fn]
proof fn ascending_layers_decreases(s: Seq<i32>) {
    if s.len() != 0 {
        let m = seq_min_i32(s);
        lemma_seq_min_i32(s);
        let i = choose|i: int| 0 <= i < s.len() && s[i] == m;
        lemma_filter_drops_one(s, ne_pred(m), i);
    }
}

/// The minimum of a nonempty sequence occurs in it and is a lower bound.
pub proof fn lemma_seq_min_i32(s: Seq<i32>)
    requires
        s.len() > 0,
    ensures
        s.contains(seq_min_i32(s)),
        forall|i: int| 0 <= i < s.len() ==> seq_min_i32(s) <= s[i],
    decreases s.len(),
{
    if s.len() == 1 {
        assert(s[0] == seq_min_i32(s));
    } else {
        let rest = s.drop_first();
        lemma_seq_min_i32(rest);
        let m = seq_min_i32(s);
        if s[0] <= seq_min_i32(rest) {
            assert(s.contains(m)) by {
                assert(s[0] == m);
            }
        } else {
            let j = choose|j: int| 0 <= j < rest.len() && rest[j] == m;
            assert(s[j + 1] == m);
        }
        assert forall|i: int| 0 <= i < s.len() implies m <= s[i] by {
            if i > 0 {
                assert(rest[i - 1] == s[i]);
            }
        }
    }
}

/// Filtering out a value that occurs at least once shortens a sequence.
pub proof fn lemma_filter_drops_one<A>(s: Seq<A>, pred: spec_fn(A) -> bool, i: int)
    requires
        0 <= i < s.len(),
        !pred(s[i]),
    ensures
        s.filter(pred).len() < s.len(),
    decreases s.len(),
{
    reveal(Seq::filter);
    if i == s.len() - 1 {
        s.drop_last().lemma_filter_len(pred);
    } else {
        lemma_filter_drops_one(s.drop_last(), pred, i);
    }
}

/// Filtering a sequence extended by one element extends the filtered
/// sequence exactly when the element satisfies the predicate.
pub proof fn lemma_filter_push<A>(s: Seq<A>, pred: spec_fn(A) -> bool, x: A)
    ensures
        pred(x) ==> s.push(x).filter(pred) == s.filter(pred).push(x),
        !pred(x) ==> s.push(x).filter(pred) == s.filter(pred),
{
    reveal(Seq::filter);
    assert(s.push(x).drop_last() =~= s);
    assert(s.push(x).last() == x);
}

/// No value occurs twice and values grow with the index.
pub open spec fn strictly_ascending(s: Seq<i32>) -> bool {
    forall|i: int, j: int| 0 <= i < j < s.len() ==> s[i] < s[j]
}

/// The ascending layer list is strictly ascending and holds exactly the
/// values of the underlying sequence.
pub proof fn lemma_ascending_layers(ls: Seq<i32>)
    ensures
        strictly_ascending(ascending_layers(ls)),
        forall|x: i32| #[trigger] ascending_layers(ls).contains(x) <==> ls.contains(x),
    decreases ls.len(),
{
    if ls.len() != 0 {
        let m = seq_min_i32(ls);
        lemma_seq_min_i32(ls);
        let wi = choose|wi: int| 0 <= wi < ls.len() && ls[wi] == m;
        lemma_filter_drops_one(ls, ne_pred(m), wi);
        let fs = ls.filter(ne_pred(m));
        lemma_ascending_layers(fs);
        let rest = ascending_layers(fs);
        let out = ascending_layers(ls);
        assert(out == seq![m] + rest);
        assert forall|x: i32| #[trigger] out.contains(x) implies ls.contains(x) by {
            let k = choose|k: int| 0 <= k < out.len() && out[k] == x;
            if k == 0 {
                assert(x == m);
            } else {
                assert(rest[k - 1] == x);
                assert(rest.contains(x));
                ls.lemma_filter_contains_rev(ne_pred(m), x);
            }
        }
        assert forall|x: i32| ls.contains(x) implies #[trigger] out.contains(x) by {
            if x == m {
                assert(out[0] == m);
            } else {
                let k = choose|k: int| 0 <= k < ls.len() && ls[k] == x;
                ls.lemma_filter_contains(ne_pred(m), k);
                assert(rest.contains(x));
                let k2 = choose|k2: int| 0 <= k2 < rest.len() && rest[k2] == x;
                assert(out[k2 + 1] == x);
            }
        }
        assert forall|i: int, j: int| 0 <= i < j < out.len() implies out[i] < out[j] by {
            assert(rest.contains(out[j])) by {
                assert(rest[j - 1] == out[j]);
            }
            assert(fs.contains(out[j]));
            ls.lemma_filter_contains_rev(ne_pred(m), out[j]);
            let w = choose|w: int| 0 <= w < ls.len() && ls[w] == out[j];
            assert(m <= ls[w]);
            assert(out[j] != m) by {
                let kf = choose|kf: int| 0 <= kf < fs.len() && fs[kf] == out[j];
                ls.lemma_filter_pred(ne_pred(m), kf);
            }
            if i == 0 {
            } else {
                assert(rest[i - 1] == out[i]);
            }
        }
    } else {
        assert forall|x: i32| #[trigger] ascending_layers(ls).contains(x) <==> ls.contains(
            x,
        ) by {
            assert(!ascending_layers(ls).contains(x));
            assert(!ls.contains(x));
        }
    }
}

/// Two strictly ascending sequences over the same set of values are the
/// same sequence.
pub proof fn lemma_strictly_ascending_unique(a: Seq<i32>, b: Seq<i32>)
    requires
        strictly_ascending(a),
        strictly_ascending(b),
        forall|x: i32| a.contains(x) <==> b.contains(x),
    ensures
        a == b,
    decreases a.len(),
{
    if a.len() == 0 {
        if b.len() > 0 {
            assert(b.contains(b[0]));
            assert(a.contains(b[0]));
        }
        assert(a =~= b);
    } else {
        assert(a.contains(a[0]));
        assert(b.contains(a[0]));
        assert(b.len() > 0);
        assert(b.contains(b[0]));
        assert(a.contains(b[0]));
        assert(a[0] == b[0]) by {
            let i = choose|i: int| 0 <= i < b.len() && b[i] == a[0];
            let j = choose|j: int| 0 <= j < a.len() && a[j] == b[0];
            assert(b[0] <= b[i]);
            assert(a[0] <= a[j]);
        }
        let at = a.drop_first();
        let bt = b.drop_first();
        assert forall|x: i32| at.contains(x) <==> bt.contains(x) by {
            lemma_tail_contains(a, x);
            lemma_tail_contains(b, x);
        }
        lemma_strictly_ascending_unique(at, bt);
        assert(a =~= b) by {
            assert(forall|i: int| 1 <= i < a.len() ==> a[i] == at[i - 1] && b[i] == bt[i - 1]);
        }
    }
}

/// In a strictly ascending sequence, the tail holds exactly the values
/// other than the head.
proof fn lemma_tail_contains(s: Seq<i32>, x: i32)
    requires
        strictly_ascending(s),
        s.len() > 0,
    ensures
        s.drop_first().contains(x) <==> (s.contains(x) && x != s[0]),
{
    let t = s.drop_first();
    if t.contains(x) {
        let i = choose|i: int| 0 <= i < t.len() && t[i] == x;
        assert(s[i + 1] == x);
        assert(s[0] < s[i + 1]);
    }
    if s.contains(x) && x != s[0] {
        let i = choose|i: int| 0 <= i < s.len() && s[i] == x;
        assert(i != 0);
        assert(t[i - 1] == x);
    }
}

/// Collects the distinct layer indices of the participants, in ascending
/// order: the processing order of the layer groups.
#[verifier::loop_isolation(false)]
fn distinct_ascending_layers<R: Renderer, P: Participant<R>>(items: &Vec<P>) -> (layers: Vec<i32>)
    ensures
        layers@ == ascending_layers(layers_of::<R, P>(items@)),
{
    let ghost all = layers_of::<R, P>(items@);
    let mut layers: Vec<i32> = Vec::new();
    let mut k: usize = 0;
    while k < items.len()
        invariant
            k <= items@.len(),
            strictly_ascending(layers@),
            forall|x: i32| #[trigger] layers@.contains(x) <==> all.take(k as int).contains(x),
        decreases items@.len() - k,
    {
        let p: &P = &items[k];
        let l = p.layer();
        let ghost prior = layers@;
        insert_layer(&mut layers, l);
        proof {
            assert(all[k as int] == l);
            let ghost before = all.take(k as int);
            let ghost after = all.take(k as int + 1);
            assert(after =~= before.push(l));
            assert forall|x: i32| #[trigger] layers@.contains(x) <==> after.contains(x) by {
                if layers@.contains(x) {
                    if x == l {
                        assert(after[k as int] == l);
                    } else {
                        assert(prior.contains(x));
                        let i = choose|i: int| 0 <= i < before.len() && before[i] == x;
                        assert(after[i] == x);
                    }
                }
                if after.contains(x) {
                    let i = choose|i: int| 0 <= i < after.len() && after[i] == x;
                    if i < k as int {
                        assert(before[i] == x);
                    }
                }
            }
        }
        k = k + 1;
    }
    proof {
        assert(all.take(items@.len() as int) =~= all);
        lemma_ascending_layers(all);
        lemma_strictly_ascending_unique(layers@, ascending_layers(all));
    }
    layers
}

/// Inserts a layer index into a strictly ascending list, keeping it
/// strictly ascending; a value already present is left alone.
#[verifier::loop_isolation(false)]
fn insert_layer(layers: &mut Vec<i32>, l: i32)
    requires
        strictly_ascending(old(layers)@),
    ensures
        strictly_ascending(final(layers)@),
        forall|x: i32| #[trigger]
            final(layers)@.contains(x) <==> (old(layers)@.contains(x) || x == l),
{
    let ghost orig = layers@;
    let mut idx: usize = 0;
    while idx < layers.len() && layers[idx] < l
        invariant
            idx <= layers@.len(),
            layers@ == orig,
            forall|i: int| 0 <= i < idx ==> layers@[i] < l,
        decreases layers@.len() - idx,
    {
        idx = idx + 1;
    }
    if idx < layers.len() && layers[idx] == l {
        proof {
            assert(layers@.contains(l)) by {
                assert(layers@[idx as int] == l);
            }
            assert forall|x: i32| #[trigger] layers@.contains(x) <==> (orig.contains(x) || x
                == l) by {
                if x == l {
                    assert(orig[idx as int] == l);
                }
            }
        }
        return ;
    }
    layers.insert(idx, l);
    proof {
        assert forall|i: int, j: int| 0 <= i < j < layers@.len() implies layers@[i]
            < layers@[j] by {
            if i < idx as int {
                assert(layers@[i] == orig[i]);
            }
            if j < idx as int {
                assert(layers@[j] == orig[j]);
            }
            if i > idx as int {
                assert(layers@[i] == orig[i - 1]);
            }
            if j > idx as int {
                assert(layers@[j] == orig[j - 1]);
            }
            if j == idx as int {
                assert(layers@[j] == l);
                assert(orig[i] < l);
            }
            if i == idx as int {
                assert(layers@[i] == l);
                assert(orig[j - 1] >= l) by {
                    if (idx as int) < orig.len() {
                        assert(orig[idx as int] > l || orig[idx as int] >= l);
                    }
                    if j - 1 > idx as int {
                        assert(orig[idx as int] < orig[j - 1]);
                    }
                }
                assert(l != orig[j - 1]) by {
                    if (idx as int) < orig.len() {
                        assert(!(orig[idx as int] < l) && orig[idx as int] != l);
                    }
                }
            }
        }
        assert forall|x: i32| #[trigger] layers@.contains(x) <==> (orig.contains(x) || x == l) by {
            if layers@.contains(x) {
                let i = choose|i: int| 0 <= i < layers@.len() && layers@[i] == x;
                if i < idx as int {
                    assert(orig[i] == x);
                } else if i > idx as int {
                    assert(orig[i - 1] == x);
                }
            }
            if orig.contains(x) {
                let i = choose|i: int| 0 <= i < orig.len() && orig[i] == x;
                if i < idx as int {
                    assert(layers@[i] == x);
                } else {
                    assert(layers@[i + 1] == x);
                }
            }
            if x == l {
                assert(layers@[idx as int] == l);
            }
        }
    }
}

/// The constraints handed to a content-sized child during the intrinsic
/// pass: minimum zero, the remaining main-axis room, the group's cross
/// bound.
pub open spec fn content_limits(axis: Axis, available: Bound, max_cross: Bound) -> Limits {
    Limits {
        min: Size { width: 0, height: 0 },
        max: axis.spec_pack_bounds(available, max_cross),
    }
}

/// State of the intrinsic pass after measuring the first `j` participants
/// of a group: the main-axis room still available, the running cross-axis
/// extent, and one measurement per participant so far (`None` for the fill
/// participants, which this pass skips).
pub open spec fn intrinsic_pass<R: Renderer, P: Participant<R>>(
    axis: Axis,
    renderer: R,
    group: Seq<P>,
    max_cross: Bound,
    available0: Bound,
    cross0: u32,
    j: int,
) -> (Bound, u32, Seq<Option<NodeView>>)
    decreases j,
{
    if j <= 0 {
        (available0, cross0, Seq::empty())
    } else {
        let state = intrinsic_pass(axis, renderer, group, max_cross, available0, cross0, j - 1);
        let p = group[j - 1];
        if p.spec_fill_factor(axis) == 0 {
            let child = p.spec_layout(renderer, content_limits(axis, state.0, max_cross));
            (
                state.0.spec_shrink(axis.spec_main(child.size)),
                spec_max(state.1, axis.spec_cross(child.size)),
                state.2.push(Some(child)),
            )
        } else {
            (state.0, state.1, state.2.push(None))
        }
    }
}

/// The sum of the fill weights of the first `j` participants of a group.
pub open spec fn fill_sum<R: Renderer, P: Participant<R>>(axis: Axis, group: Seq<P>, j: int) -> int
    decreases j,
{
    if j <= 0 {
        0
    } else {
        fill_sum(axis, group, j - 1) + group[j - 1].spec_fill_factor(axis)
    }
}

/// The main-axis room granted to a fill participant: its proportional
/// share of the remaining space, or unlimited room if the remaining space
/// is unlimited.
pub open spec fn fill_share(remaining: Bound, factor: u16, total: int) -> Bound {
    match remaining {
        Bound::Finite(rem) => Bound::Finite(((rem * factor) / total) as u32),
        Bound::Infinite => Bound::Infinite,
    }
}

/// The constraints handed to a fill participant: its share as the
/// main-axis maximum and also the main-axis minimum — unless the share is
/// unlimited, in which case the minimum is floored at zero so no infinite
/// minimum propagates. The cross axis keeps the group's own bounds.
pub open spec fn fill_limits(
    axis: Axis,
    padded: Limits,
    remaining: Bound,
    factor: u16,
    total: int,
) -> Limits {
    let share = fill_share(remaining, factor, total);
    let min_main: u32 = match share {
        Bound::Finite(v) => v,
        Bound::Infinite => 0,
    };
    let packed_min = axis.spec_pack(min_main, axis.spec_cross(padded.min));
    Limits {
        min: Size { width: packed_min.0, height: packed_min.1 },
        max: axis.spec_pack_bounds(share, axis.spec_cross_bound(padded.max)),
    }
}

/// State of the fill pass after the first `j` participants of a group: the
/// running cross-axis extent and the measured subtree of every participant
/// so far, in order — intrinsic measurements are taken over from the
/// intrinsic pass, fill participants are measured against their share.
pub open spec fn fill_pass<R: Renderer, P: Participant<R>>(
    axis: Axis,
    renderer: R,
    group: Seq<P>,
    padded: Limits,
    remaining: Bound,
    total: int,
    measured: Seq<Option<NodeView>>,
    cross0: u32,
    j: int,
) -> (u32, Seq<NodeView>)
    decreases j,
{
    if j <= 0 {
        (cross0, Seq::empty())
    } else {
        let state = fill_pass(
            axis,
            renderer,
            group,
            padded,
            remaining,
            total,
            measured,
            cross0,
            j - 1,
        );
        let p = group[j - 1];
        if p.spec_fill_factor(axis) == 0 {
            let child = match measured[j - 1] {
                Some(c) => c,
                None => NodeView {
                    size: Size { width: 0, height: 0 },
                    offset: Point { x: 0, y: 0 },
                    children: Seq::empty(),
                },
            };
            (state.0, state.1.push(child))
        } else {
            let child = p.spec_layout(
                renderer,
                fill_limits(axis, padded, remaining, p.spec_fill_factor(axis), total),
            );
            (spec_max(state.0, axis.spec_cross(child.size)), state.1.push(child))
        }
    }
}

/// State of the positioning pass after the first `j` measured children:
/// the main-axis cursor (which starts at the padding) and the children
/// placed so far. Each child lands at the cursor, `spacing` ahead of its
/// predecessor, shifted on the cross axis by its alignment within the
/// group's cross extent; then the cursor advances past it.
pub open spec fn place_pass(
    axis: Axis,
    align: Align,
    padding: u16,
    spacing: u16,
    cross: u32,
    nodes: Seq<NodeView>,
    j: int,
) -> (u32, Seq<NodeView>)
    decreases j,
{
    if j <= 0 {
        ((padding as u32), Seq::empty())
    } else {
        let state = place_pass(axis, align, padding, spacing, cross, nodes, j - 1);
        let main = if j - 1 > 0 {
            sat_add(state.0, spacing as u32)
        } else {
            state.0
        };
        let n = nodes[j - 1];
        let at = axis.spec_pack(main, padding as u32);
        let shift = axis.spec_pack(0, align_shift(align, cross, axis.spec_cross(n.size)));
        let placed = NodeView {
            size: n.size,
            offset: Point { x: sat_add(at.0, shift.0), y: sat_add(at.1, shift.1) },
            children: n.children,
        };
        (sat_add(main, axis.spec_main(n.size)), state.1.push(placed))
    }
}

/// The total spacing a group of `n` children reserves between them.
pub open spec fn total_spacing(spacing: u16, n: int) -> int {
    if n <= 1 {
        0
    } else {
        spacing * (n - 1)
    }
}

/// A bound lowered by a mathematical amount, floored at zero.
pub open spec fn bound_minus(b: Bound, d: int) -> Bound {
    match b {
        Bound::Finite(m) => Bound::Finite(
            (if m - d >= 0 {
                m - d
            } else {
                0
            }) as u32,
        ),
        Bound::Infinite => Bound::Infinite,
    }
}

/// The layout of one layer group: its overall size (main extent without
/// the leading padding, packed with the cross extent) and its positioned
/// children in original relative order.
pub open spec fn group_layout<R: Renderer, P: Participant<R>>(
    axis: Axis,
    renderer: R,
    limits: Limits,
    padding: u16,
    spacing: u16,
    align: Align,
    group: Seq<P>,
) -> (Size, Seq<NodeView>) {
    let padded = limits.spec_pad(padding);
    let available0 = bound_minus(
        axis.spec_main_bound(padded.max),
        total_spacing(spacing, group.len() as int),
    );
    let max_cross = axis.spec_cross_bound(padded.max);
    let cross0 = axis.spec_cross(padded.min);
    let n = group.len() as int;
    let intrinsic = intrinsic_pass(axis, renderer, group, max_cross, available0, cross0, n);
    let total = fill_sum(axis, group, n);
    let filled = fill_pass(
        axis,
        renderer,
        group,
        padded,
        intrinsic.0,
        total,
        intrinsic.2,
        intrinsic.1,
        n,
    );
    let placed = place_pass(axis, align, padding, spacing, filled.0, filled.1, n);
    let extent = axis.spec_pack(sat_sub(placed.0, padding as u32), filled.0);
    (Size { width: extent.0, height: extent.1 }, placed.1)
}

/// The overall size and merged children after the first `k` layer groups:
/// sizes are maximized per dimension — layers overlap rather than stack —
/// and children are concatenated group by group.
pub open spec fn run_groups<R: Renderer, P: Participant<R>>(
    axis: Axis,
    renderer: R,
    limits: Limits,
    padding: u16,
    spacing: u16,
    align: Align,
    items: Seq<P>,
    layers: Seq<i32>,
    k: int,
) -> (Size, Seq<NodeView>)
    decreases k,
{
    if k <= 0 {
        (Size { width: 0, height: 0 }, Seq::empty())
    } else {
        let acc = run_groups(axis, renderer, limits, padding, spacing, align, items, layers, k - 1);
        let g = group_layout(
            axis,
            renderer,
            limits,
            padding,
            spacing,
            align,
            group_items(items, layers[k - 1]),
        );
        (
            Size {
                width: spec_max(acc.0.width, g.0.width),
                height: spec_max(acc.0.height, g.0.height),
            },
            acc.1 + g.1,
        )
    }
}

/// Extending the scanned prefix by one participant extends its layer
/// group exactly when the participant belongs to the layer.
pub proof fn lemma_group_items_take_step<R: Renderer, P: Participant<R>>(
    items: Seq<P>,
    layer: i32,
    k: int,
)
    requires
        0 <= k < items.len(),
    ensures
        items[k].spec_layer() == layer ==> group_items(items.take(k + 1), layer) == group_items(
            items.take(k),
            layer,
        ).push(items[k]),
        items[k].spec_layer() != layer ==> group_items(items.take(k + 1), layer) == group_items(
            items.take(k),
            layer,
        ),
{
    assert(items.take(k + 1) =~= items.take(k).push(items[k]));
    lemma_filter_push(items.take(k), has_layer::<R, P>(layer), items[k]);
}

/// Partial fill sums are nonnegative and grow with the prefix.
pub proof fn lemma_fill_sum_grows<R: Renderer, P: Participant<R>>(
    axis: Axis,
    group: Seq<P>,
    i: int,
    j: int,
)
    requires
        i <= j,
    ensures
        fill_sum(axis, group, i) <= fill_sum(axis, group, j),
        fill_sum(axis, group, 0) == 0,
    decreases j - i,
{
    if i < j {
        lemma_fill_sum_grows(axis, group, i, j - 1);
    }
}

/// The full fill sum dominates each participant's own fill weight.
pub proof fn lemma_fill_sum_covers<R: Renderer, P: Participant<R>>(
    axis: Axis,
    group: Seq<P>,
    j: int,
    n: int,
)
    requires
        0 <= j < n,
    ensures
        fill_sum(axis, group, n) >= group[j].spec_fill_factor(axis),
        fill_sum(axis, group, n) >= 0,
{
    lemma_fill_sum_grows::<R, P>(axis, group, 0, j);
    lemma_fill_sum_grows::<R, P>(axis, group, j + 1, n);
}

/// The models of a sequence of optional measurements.
pub open spec fn options_view(s: Seq<Option<Node>>) -> Seq<Option<NodeView>> {
    s.map_values(
        |o: Option<Node>| match o {
            Option::Some(n) => Some(node_opt_view(n)),
            Option::None => None,
        },
    )
}

/// The model of one measured node (a named form of the view, so the
/// mapping in [`options_view`] stays the same function wherever it is
/// spoken of).
pub open spec fn node_opt_view(n: Node) -> NodeView {
    n@
}

/// A filter that keeps every element returns the sequence itself.
pub proof fn lemma_filter_keeps_all<A>(s: Seq<A>, pred: spec_fn(A) -> bool)
    requires
        forall|i: int| 0 <= i < s.len() ==> pred(s[i]),
    ensures
        s.filter(pred) == s,
    decreases s.len(),
{
    reveal(Seq::filter);
    if s.len() > 0 {
        lemma_filter_keeps_all(s.drop_last(), pred);
        assert(s.drop_last().push(s.last()) =~= s);
    }
}

/// When every participant sits on one layer, the processing order is that
/// single layer and its group is the whole list.
pub proof fn lemma_single_layer<R: Renderer, P: Participant<R>>(items: Seq<P>, layer: i32)
    requires
        items.len() > 0,
        forall|i: int| 0 <= i < items.len() ==> items[i].spec_layer() == layer,
    ensures
        ascending_layers(layers_of(items)) == seq![layer],
        group_items(items, layer) == items,
{
    let ls = layers_of(items);
    assert(forall|i: int| 0 <= i < ls.len() ==> ls[i] == layer);
    lemma_seq_min_i32(ls);
    let m = seq_min_i32(ls);
    assert(m == layer) by {
        let i = choose|i: int| 0 <= i < ls.len() && ls[i] == m;
    }
    ls.lemma_all_neg_filter_empty(ne_pred(m));
    assert(ascending_layers(ls.filter(ne_pred(m))) == Seq::<i32>::empty());
    assert(ascending_layers(ls) =~= seq![layer]);
    assert(forall|i: int|
        0 <= i < items.len() ==> #[trigger] has_layer::<R, P>(layer)(items[i]));
    lemma_filter_keeps_all(items, has_layer::<R, P>(layer));
}

/// The intrinsic pass measures one participant per step.
pub proof fn lemma_intrinsic_pass_len<R: Renderer, P: Participant<R>>(
    axis: Axis,
    renderer: R,
    group: Seq<P>,
    max_cross: Bound,
    available0: Bound,
    cross0: u32,
    j: int,
)
    requires
        0 <= j,
    ensures
        intrinsic_pass(axis, renderer, group, max_cross, available0, cross0, j).2.len() == j,
    decreases j,
{
    if j > 0 {
        lemma_intrinsic_pass_len(axis, renderer, group, max_cross, available0, cross0, j - 1);
    }
}

/// What the intrinsic pass records for the participant at `j`: a
/// measurement against the room left by its content-sized predecessors,
/// or nothing for a fill participant.
pub proof fn lemma_intrinsic_pass_index<R: Renderer, P: Participant<R>>(
    axis: Axis,
    renderer: R,
    group: Seq<P>,
    max_cross: Bound,
    available0: Bound,
    cross0: u32,
    j: int,
    n: int,
)
    requires
        0 <= j < n,
    ensures
        intrinsic_pass(axis, renderer, group, max_cross, available0, cross0, n).2[j] == (
        if group[j].spec_fill_factor(axis) == 0 {
            Some(
                group[j].spec_layout(
                    renderer,
                    content_limits(
                        axis,
                        intrinsic_pass(axis, renderer, group, max_cross, available0, cross0, j).0,
                        max_cross,
                    ),
                ),
            )
        } else {
            None
        }),
    decreases n,
{
    lemma_intrinsic_pass_len(axis, renderer, group, max_cross, available0, cross0, j);
    if j < n - 1 {
        lemma_intrinsic_pass_index(
            axis,
            renderer,
            group,
            max_cross,
            available0,
            cross0,
            j,
            n - 1,
        );
        lemma_intrinsic_pass_len(axis, renderer, group, max_cross, available0, cross0, n - 1);
    }
}

/// The fill pass produces one child per participant.
pub proof fn lemma_fill_pass_len<R: Renderer, P: Participant<R>>(
    axis: Axis,
    renderer: R,
    group: Seq<P>,
    padded: Limits,
    remaining: Bound,
    total: int,
    measured: Seq<Option<NodeView>>,
    cross0: u32,
    j: int,
)
    requires
        0 <= j,
    ensures
        fill_pass(axis, renderer, group, padded, remaining, total, measured, cross0, j).1.len()
            == j,
    decreases j,
{
    if j > 0 {
        lemma_fill_pass_len(
            axis,
            renderer,
            group,
            padded,
            remaining,
            total,
            measured,
            cross0,
            j - 1,
        );
    }
}

/// What the fill pass hands on for the participant at `j`: its intrinsic
/// measurement, or a fresh measurement against its share.
pub proof fn lemma_fill_pass_index<R: Renderer, P: Participant<R>>(
    axis: Axis,
    renderer: R,
    group: Seq<P>,
    padded: Limits,
    remaining: Bound,
    total: int,
    measured: Seq<Option<NodeView>>,
    cross0: u32,
    j: int,
    n: int,
)
    requires
        0 <= j < n,
    ensures
        fill_pass(axis, renderer, group, padded, remaining, total, measured, cross0, n).1[j] == (
        if group[j].spec_fill_factor(axis) == 0 {
            match measured[j] {
                Some(c) => c,
                None => NodeView {
                    size: Size { width: 0, height: 0 },
                    offset: Point { x: 0, y: 0 },
                    children: Seq::empty(),
                },
            }
        } else {
            group[j].spec_layout(
                renderer,
                fill_limits(axis, padded, remaining, group[j].spec_fill_factor(axis), total),
            )
        }),
    decreases n,
{
    lemma_fill_pass_len(axis, renderer, group, padded, remaining, total, measured, cross0, j);
    if j < n - 1 {
        lemma_fill_pass_index(
            axis,
            renderer,
            group,
            padded,
            remaining,
            total,
            measured,
            cross0,
            j,
            n - 1,
        );
        lemma_fill_pass_len(
            axis,
            renderer,
            group,
            padded,
            remaining,
            total,
            measured,
            cross0,
            n - 1,
        );
    }
}

/// The positioning pass places one child per measured child.
pub proof fn lemma_place_pass_len(
    axis: Axis,
    align: Align,
    padding: u16,
    spacing: u16,
    cross: u32,
    nodes: Seq<NodeView>,
    j: int,
)
    requires
        0 <= j,
    ensures
        place_pass(axis, align, padding, spacing, cross, nodes, j).1.len() == j,
    decreases j,
{
    if j > 0 {
        lemma_place_pass_len(axis, align, padding, spacing, cross, nodes, j - 1);
    }
}

/// Where the positioning pass puts the child at `j`, and that it keeps
/// the child's size and subtree.
pub proof fn lemma_place_pass_index(
    axis: Axis,
    align: Align,
    padding: u16,
    spacing: u16,
    cross: u32,
    nodes: Seq<NodeView>,
    j: int,
    n: int,
)
    requires
        0 <= j < n,
    ensures
        place_pass(axis, align, padding, spacing, cross, nodes, n).1[j] == (
        {
            let before = place_pass(axis, align, padding, spacing, cross, nodes, j).0;
            let main = if j > 0 {
                sat_add(before, spacing as u32)
            } else {
                before
            };
            let at = axis.spec_pack(main, padding as u32);
            let shift = axis.spec_pack(
                0,
                align_shift(align, cross, axis.spec_cross(nodes[j].size)),
            );
            NodeView {
                size: nodes[j].size,
                offset: Point { x: sat_add(at.0, shift.0), y: sat_add(at.1, shift.1) },
                children: nodes[j].children,
            }
        }),
    decreases n,
{
    lemma_place_pass_len(axis, align, padding, spacing, cross, nodes, j);
    if j < n - 1 {
        lemma_place_pass_index(axis, align, padding, spacing, cross, nodes, j, n - 1);
        lemma_place_pass_len(axis, align, padding, spacing, cross, nodes, n - 1);
    }
}

/// The complete model of [`resolve`]: participants are grouped by layer
/// index, groups are laid out independently in ascending layer order, the
/// overall extent is the per-dimension maximum over the groups, and the
/// result is that extent resolved against the outer limits, grown back by
/// the padding, owning all groups' children in order.
pub open spec fn resolve_spec<R: Renderer, P: Participant<R>>(
    axis: Axis,
    renderer: R,
    limits: Limits,
    padding: u16,
    spacing: u16,
    align_items: Align,
    items: Seq<P>,
) -> NodeView {
    let layers = ascending_layers(layers_of(items));
    let merged = run_groups(
        axis,
        renderer,
        limits,
        padding,
        spacing,
        align_items,
        items,
        layers,
        layers.len() as int,
    );
    NodeView {
        size: limits.spec_resolve(merged.0).spec_pad(padding),
        offset: Point { x: 0, y: 0 },
        children: merged.1,
    }
}

/// Collects the indices of the participants on `layer`, in original
/// order: the `j`-th collected index points at the `j`-th member of the
/// layer's group.
#[verifier::loop_isolation(false)]
fn collect_layer_indices<R: Renderer, P: Participant<R>>(items: &Vec<P>, layer: i32) -> (idxs: Vec<
    usize,
>)
    ensures
        idxs@.len() == group_items(items@, layer).len(),
        forall|j: int|
            0 <= j < idxs@.len() ==> #[trigger] idxs@[j] < items@.len() && items@[idxs@[j] as int]
                == group_items(items@, layer)[j],
{
    let mut idxs: Vec<usize> = Vec::new();
    let mut k: usize = 0;
    while k < items.len()
        invariant
            k <= items@.len(),
            idxs@.len() == group_items(items@.take(k as int), layer).len(),
            forall|j: int|
                0 <= j < idxs@.len() ==> #[trigger] idxs@[j] < items@.len() && items@[idxs@[j] as int]
                    == group_items(items@.take(k as int), layer)[j],
        decreases items@.len() - k,
    {
        let p: &P = &items[k];
        let ghost idxs_before = idxs@;
        let matches_layer = p.layer() == layer;
        if matches_layer {
            idxs.push(k);
        }
        proof {
            lemma_group_items_take_step::<R, P>(items@, layer, k as int);
            if matches_layer {
                assert(group_items(items@.take(k as int + 1), layer) == group_items(
                    items@.take(k as int),
                    layer,
                ).push(items@[k as int]));
                assert(idxs@ == idxs_before.push(k));
            } else {
                assert(group_items(items@.take(k as int + 1), layer) == group_items(
                    items@.take(k as int),
                    layer,
                ));
                assert(idxs@ == idxs_before);
            }
            assert(idxs@.len() == group_items(items@.take(k as int + 1), layer).len());
            assert forall|j: int| 0 <= j < idxs@.len() implies #[trigger] idxs@[j] < items@.len()
                && items@[idxs@[j] as int] == group_items(
                items@.take(k as int + 1),
                layer,
            )[j] by {
                if j < idxs_before.len() {
                    assert(idxs@[j] == idxs_before[j]);
                    assert(group_items(items@.take(k as int + 1), layer)[j] == group_items(
                        items@.take(k as int),
                        layer,
                    )[j]);
                } else {
                    assert(idxs@[j] == k);
                }
            }
        }
        k = k + 1;
    }
    proof {
        assert(items@.take(items@.len() as int) =~= items@);
    }
    idxs
}

/// Lays out the participants of one layer as a flex group: an intrinsic
/// pass over the content-sized participants, a fill pass distributing the
/// leftover main-axis room, and a positioning pass. Returns the group's
/// overall size and its positioned children in original relative order.
#[verifier::loop_isolation(false)]
#[verifier::rlimit(60)]
fn layout_group<R: Renderer, P: Participant<R>>(
    axis: Axis,
    renderer: &R,
    limits: &Limits,
    padding: u16,
    spacing: u16,
    align_items: Align,
    items: &Vec<P>,
    layer: i32,
) -> (r: (Size, Vec<Node>))
    ensures
        r.0 == group_layout(
            axis,
            *renderer,
            *limits,
            padding,
            spacing,
            align_items,
            group_items(items@, layer),
        ).0,
        nodes_view(r.1@) == group_layout(
            axis,
            *renderer,
            *limits,
            padding,
            spacing,
            align_items,
            group_items(items@, layer),
        ).1,
{
    let ghost g = group_items(items@, layer);

    // Gather the group: the indices of the participants on this layer, in
    // original order.
    let idxs = collect_layer_indices::<R, P>(items, layer);
    let n = idxs.len();
    assert(g.len() == n);

    // Shared group-wide quantities.
    let padded = limits.pad(padding);
    let ts: u128 = if n == 0 {
        0
    } else {
        proof {
            vstd::arithmetic::mul::lemma_mul_upper_bound(
                spacing as int,
                0xffff,
                (n - 1) as int,
                0xffff_ffff_ffff_ffff,
            );
        }
        (spacing as u128) * ((n - 1) as u128)
    };
    proof {
        if n > 0 {
            vstd::arithmetic::mul::lemma_mul_basics(spacing as int);
            assert(ts == (spacing as int) * (n as int - 1));
        }
        assert(ts == total_spacing(spacing, n as int));
    }
    let main_max = axis.main_bound(padded.max);
    let available0 = match main_max {
        Bound::Finite(m) => {
            if ts >= m as u128 {
                Bound::Finite(0)
            } else {
                Bound::Finite(m - (ts as u32))
            }
        },
        Bound::Infinite => Bound::Infinite,
    };
    assert(available0 == bound_minus(
        axis.spec_main_bound(padded.max),
        total_spacing(spacing, g.len() as int),
    ));
    let max_cross = axis.cross_bound(padded.max);
    let cross0 = axis.cross(padded.min);

    // Intrinsic pass: measure the content-sized participants against the
    // room that is left, and add up the fill weights of the others.
    let ghost rv = *renderer;
    let mut available = available0;
    let mut cross = cross0;
    let mut fill_total: u128 = 0;
    let mut measured: Vec<Option<Node>> = Vec::new();
    let mut j: usize = 0;
    while j < n
        invariant
            j <= n,
            g.len() == n,
            forall|i: int|
                0 <= i < idxs@.len() ==> #[trigger] idxs@[i] < items@.len()
                    && items@[idxs@[i] as int] == g[i],
            idxs@.len() == n,
            available == intrinsic_pass(axis, rv, g, max_cross, available0, cross0, j as int).0,
            cross == intrinsic_pass(axis, rv, g, max_cross, available0, cross0, j as int).1,
            options_view(measured@) == intrinsic_pass(
                axis,
                rv,
                g,
                max_cross,
                available0,
                cross0,
                j as int,
            ).2,
            measured@.len() == j,
            fill_total == fill_sum(axis, g, j as int),
            fill_total <= 0xffff * (j as u128),
        decreases n - j,
    {
        let p: &P = &items[idxs[j]];
        let f = p.fill_factor(axis);
        let ghost before = measured@;
        if f == 0 {
            let child_limits = Limits::new(
                Size::new(0, 0),
                axis.pack_bounds(available, max_cross),
            );
            assert(child_limits == content_limits(axis, available, max_cross));
            let child = p.layout(renderer, &child_limits);
            available = available.shrink(axis.main(child.size()));
            cross = crate::geometry::max_len(cross, axis.cross(child.size()));
            measured.push(Some(child));
        } else {
            fill_total = fill_total + (f as u128);
            measured.push(None);
        }
        proof {
            assert(options_view(measured@) =~= options_view(before).push(
                options_view(measured@).last(),
            ));
        }
        j = j + 1;
    }
    let remaining = available;
    let ghost full_measured = intrinsic_pass(axis, rv, g, max_cross, available0, cross0, n as int);
    let ghost total = fill_sum(axis, g, n as int);

    // Fill pass: grant every fill participant its share of what is left.
    let mut out: Vec<Node> = Vec::new();
    j = 0;
    while j < n
        invariant
            j <= n,
            g.len() == n,
            forall|i: int|
                0 <= i < idxs@.len() ==> #[trigger] idxs@[i] < items@.len()
                    && items@[idxs@[i] as int] == g[i],
            idxs@.len() == n,
            fill_total == total,
            options_view(measured@) == full_measured.2.skip(j as int),
            measured@.len() == n - j,
            cross == fill_pass(
                axis,
                rv,
                g,
                padded,
                remaining,
                total,
                full_measured.2,
                full_measured.1,
                j as int,
            ).0,
            nodes_view(out@) == fill_pass(
                axis,
                rv,
                g,
                padded,
                remaining,
                total,
                full_measured.2,
                full_measured.1,
                j as int,
            ).1,
            out@.len() == j,
        decreases n - j,
    {
        let p: &P = &items[idxs[j]];
        let f = p.fill_factor(axis);
        let ghost out_before = out@;
        let ghost measured_before = measured@;
        let head = measured.remove(0);
        proof {
            assert(options_view(measured_before)[0] == options_view(measured_before).index(0));
            assert(options_view(measured@) =~= options_view(measured_before).remove(0));
            assert(options_view(measured_before).remove(0) =~= full_measured.2.skip(j as int + 1));
        }
        if f == 0 {
            match head {
                Some(child) => {
                    out.push(child);
                },
                None => {
                    // A content-sized participant always has a measurement;
                    // mirroring the model's stand-in value keeps the
                    // correspondence free of a reachability argument.
                    out.push(Node::new(Size::new(0, 0)));
                },
            }
        } else {
            proof {
                lemma_fill_sum_covers::<R, P>(axis, g, j as int, n as int);
            }
            let share: Bound = match remaining {
                Bound::Finite(rem) => {
                    proof {
                        vstd::arithmetic::mul::lemma_mul_upper_bound(
                            rem as int,
                            0xffff_ffff,
                            f as int,
                            0xffff,
                        );
                    }
                    let granted: u128 = (rem as u128) * (f as u128) / fill_total;
                    proof {
                        assert((rem as int) * (f as int) / (total as int) <= rem as int)
                            by (nonlinear_arith)
                            requires
                                total >= f as int,
                                f as int >= 1,
                                rem as int >= 0,
                        ;
                    }
                    Bound::Finite(granted as u32)
                },
                Bound::Infinite => Bound::Infinite,
            };
            assert(share == fill_share(remaining, f, total));
            let min_main = match share {
                Bound::Finite(v) => v,
                Bound::Infinite => 0,
            };
            let pm = axis.pack(min_main, axis.cross(padded.min));
            let child_limits = Limits::new(
                Size::new(pm.0, pm.1),
                axis.pack_bounds(share, axis.cross_bound(padded.max)),
            );
            assert(child_limits == fill_limits(axis, padded, remaining, f, total));
            let child = p.layout(renderer, &child_limits);
            cross = crate::geometry::max_len(cross, axis.cross(child.size()));
            out.push(child);
        }
        proof {
            crate::node::lemma_nodes_view_push(out_before, out@[out@.len() - 1]);
            assert(out@ =~= out_before.push(out@[out@.len() - 1]));
        }
        j = j + 1;
    }
    let ghost filled = fill_pass(
        axis,
        rv,
        g,
        padded,
        remaining,
        total,
        full_measured.2,
        full_measured.1,
        n as int,
    );

    // Positioning pass: walk the children in order, advancing a main-axis
    // cursor and aligning each on the cross axis.
    let mut main: u32 = padding as u32;
    let mut placed: Vec<Node> = Vec::new();
    j = 0;
    while j < n
        invariant
            j <= n,
            g.len() == n,
            cross == filled.0,
            nodes_view(out@) == filled.1.skip(j as int),
            out@.len() == n - j,
            main == place_pass(axis, align_items, padding, spacing, cross, filled.1, j as int).0,
            nodes_view(placed@) == place_pass(
                axis,
                align_items,
                padding,
                spacing,
                cross,
                filled.1,
                j as int,
            ).1,
            placed@.len() == j,
        decreases n - j,
    {
        if j > 0 {
            main = crate::geometry::add_sat(main, spacing as u32);
        }
        let ghost out_before = out@;
        let ghost placed_before = placed@;
        let mut node = out.remove(0);
        proof {
            crate::node::lemma_nodes_view_remove_first(out_before);
            assert(nodes_view(out@) =~= filled.1.skip(j as int + 1));
        }
        let at = axis.pack(main, padding as u32);
        node.move_to(Point::new(at.0, at.1));
        match axis {
            Axis::Horizontal => {
                node.align(Align::Start, align_items, Size::new(0, cross));
            },
            Axis::Vertical => {
                node.align(align_items, Align::Start, Size::new(cross, 0));
            },
        }
        main = crate::geometry::add_sat(main, axis.main(node.size()));
        placed.push(node);
        proof {
            crate::node::lemma_nodes_view_push(placed_before, placed@[placed@.len() - 1]);
            assert(placed@ =~= placed_before.push(placed@[placed@.len() - 1]));
        }
        j = j + 1;
    }

    let ext = axis.pack(crate::geometry::sub_sat(main, padding as u32), cross);
    (Size::new(ext.0, ext.1), placed)
}

/// Computes the flex layout for the given axis, constraints, padding,
/// spacing and cross-axis alignment: participants are grouped by layer
/// index, each group flows independently as a flex box, the groups overlap
/// at the same origin, and the result is one node over all the groups'
/// children. Its exact behavior is [`resolve_spec`].
#[verifier::loop_isolation(false)]
pub fn resolve<R: Renderer, P: Participant<R>>(
    axis: Axis,
    renderer: &R,
    limits: &Limits,
    padding: u16,
    spacing: u16,
    align_items: Align,
    items: &Vec<P>,
) -> (node: Node)
    ensures
        node@ == resolve_spec(axis, *renderer, *limits, padding, spacing, align_items, items@),
{
    let ghost rv = *renderer;
    let layers = distinct_ascending_layers::<R, P>(items);
    let ghost ls = layers@;
    let mut overall_width: u32 = 0;
    let mut overall_height: u32 = 0;
    let mut all_nodes: Vec<Node> = Vec::new();
    let mut k: usize = 0;
    while k < layers.len()
        invariant
            k <= ls.len(),
            overall_width == run_groups(
                axis,
                rv,
                *limits,
                padding,
                spacing,
                align_items,
                items@,
                ls,
                k as int,
            ).0.width,
            overall_height == run_groups(
                axis,
                rv,
                *limits,
                padding,
                spacing,
                align_items,
                items@,
                ls,
                k as int,
            ).0.height,
            nodes_view(all_nodes@) == run_groups(
                axis,
                rv,
                *limits,
                padding,
                spacing,
                align_items,
                items@,
                ls,
                k as int,
            ).1,
        decreases ls.len() - k,
    {
        let layer = layers[k];
        let r = layout_group(axis, renderer, limits, padding, spacing, align_items, items, layer);
        let (group_size, group_nodes) = r;
        overall_width = crate::geometry::max_len(overall_width, group_size.width);
        overall_height = crate::geometry::max_len(overall_height, group_size.height);
        let ghost all_before = all_nodes@;
        let mut group_nodes = group_nodes;
        let ghost gns = group_nodes@;
        all_nodes.append(&mut group_nodes);
        proof {
            crate::node::lemma_nodes_view_concat(all_before, gns);
        }
        k = k + 1;
    }
    let size = limits.resolve(Size::new(overall_width, overall_height));
    Node::with_children(size.pad(padding), all_nodes)
}

} // verus!
