//! Laws of the resolver, each proved once and for all over the
//! mathematical model that [`crate::flex::resolve`] is bound to.

use vstd::prelude::*;

use crate::align::Align;
use crate::flex::{
    ascending_layers, bound_minus, content_limits, fill_limits, fill_pass, fill_share, fill_sum,
    group_layout, intrinsic_pass, layers_of, lemma_fill_pass_index, lemma_place_pass_index,
    lemma_place_pass_len, lemma_single_layer, place_pass, resolve_spec, run_groups, total_spacing,
    Axis,
};
use crate::geometry::{Bound, MaxSize, Point, Size};
use crate::limits::Limits;
use crate::node::NodeView;
use crate::participant::{Participant, Renderer};

verus! {

/// A participant that honors its constraints: every layout it produces
/// for well-formed limits fits between their minimum and maximum.
pub open spec fn honors_limits<R: Renderer, P: Participant<R>>(p: P, renderer: R) -> bool {
    forall|cl: Limits|
        cl.wf() ==> {
            let n = #[trigger] p.spec_layout(renderer, cl);
            cl.min.width <= n.size.width && cl.min.height <= n.size.height && cl.max.admits(n.size)
        }
}

/// The constraints handed to a fill participant are well-formed whenever
/// the padded group limits are.
pub proof fn lemma_fill_limits_wf(
    axis: Axis,
    padded: Limits,
    remaining: Bound,
    factor: u16,
    total: int,
)
    requires
        padded.wf(),
    ensures
        fill_limits(axis, padded, remaining, factor, total).wf(),
{
}

/// Padding by zero changes nothing on well-formed limits.
pub proof fn lemma_pad_zero(limits: Limits)
    requires
        limits.wf(),
    ensures
        limits.spec_pad(0) == limits,
{
}

/// The intrinsic pass walks past fill participants without touching its
/// room or its cross extent.
pub proof fn lemma_intrinsic_pass_all_fill<R: Renderer, P: Participant<R>>(
    axis: Axis,
    renderer: R,
    group: Seq<P>,
    max_cross: Bound,
    available0: Bound,
    cross0: u32,
    j: int,
)
    requires
        0 <= j,
        forall|i: int| 0 <= i < j ==> #[trigger] group[i].spec_fill_factor(axis) != 0,
    ensures
        intrinsic_pass(axis, renderer, group, max_cross, available0, cross0, j).0 == available0,
        intrinsic_pass(axis, renderer, group, max_cross, available0, cross0, j).1 == cross0,
    decreases j,
{
    if j > 0 {
        lemma_intrinsic_pass_all_fill(
            axis,
            renderer,
            group,
            max_cross,
            available0,
            cross0,
            j - 1,
        );
    }
}

/// The fill sum of a group whose members all carry the same weight is the
/// group size times that weight.
pub proof fn lemma_fill_sum_constant<R: Renderer, P: Participant<R>>(
    axis: Axis,
    group: Seq<P>,
    factor: u16,
    j: int,
)
    requires
        0 <= j,
        forall|i: int| 0 <= i < j ==> #[trigger] group[i].spec_fill_factor(axis) == factor,
    ensures
        fill_sum(axis, group, j) == j * factor,
    decreases j,
{
    if j > 0 {
        lemma_fill_sum_constant(axis, group, factor, j - 1);
        assert((j - 1) * factor + factor == j * factor) by (nonlinear_arith);
    } else {
        assert(0 * factor == 0) by (nonlinear_arith);
    }
}

/// Order preservation, counted: a layer group contributes exactly one
/// positioned child per participant, in the group's own relative order —
/// the order in which [`crate::flex::group_layout`]'s passes walk it.
pub proof fn lemma_one_child_per_participant<R: Renderer, P: Participant<R>>(
    axis: Axis,
    renderer: R,
    limits: Limits,
    padding: u16,
    spacing: u16,
    align: Align,
    group: Seq<P>,
)
    ensures
        group_layout(axis, renderer, limits, padding, spacing, align, group).1.len()
            == group.len(),
{
    let padded = limits.spec_pad(padding);
    let n = group.len() as int;
    let available0 = bound_minus(axis.spec_main_bound(padded.max), total_spacing(spacing, n));
    let max_cross = axis.spec_cross_bound(padded.max);
    let cross0 = axis.spec_cross(padded.min);
    let intrinsic = intrinsic_pass(axis, renderer, group, max_cross, available0, cross0, n);
    let total = fill_sum(axis, group, n);
    let filled = fill_pass(
        axis,
        renderer,
        group,
        padded,
        intrinsic.0,
        total,
        intrinsic.2,
        intrinsic.1,
        n,
    );
    lemma_place_pass_len(axis, align, padding, spacing, filled.0, filled.1, n);
}

/// The sum of the main-axis extents of a run of children.
pub open spec fn total_main(axis: Axis, nodes: Seq<NodeView>) -> int
    decreases nodes.len(),
{
    if nodes.len() == 0 {
        0
    } else {
        total_main(axis, nodes.drop_last()) + axis.spec_main(nodes.last().size)
    }
}

/// A run of children with equal main-axis extents sums to their count
/// times that extent.
pub proof fn lemma_total_main_constant(axis: Axis, nodes: Seq<NodeView>, v: int)
    requires
        forall|i: int| 0 <= i < nodes.len() ==> axis.spec_main(#[trigger] nodes[i].size) == v,
    ensures
        total_main(axis, nodes) == nodes.len() * v,
    decreases nodes.len(),
{
    if nodes.len() == 0 {
        assert(0 * v == 0) by (nonlinear_arith);
    } else {
        lemma_total_main_constant(axis, nodes.drop_last(), v);
        assert((nodes.len() - 1) * v + v == nodes.len() * v) by (nonlinear_arith);
    }
}

/// Fill distribution sums to the available space: when every participant
/// of a single-layer run carries the same nonzero fill weight and there
/// is no padding and no spacing, each is granted the same whole-pixel
/// share of the available main-axis room, and — whenever the room divides
/// evenly — the shares sum to exactly the room. (With a remainder, each
/// share is the floored quotient, so the sum falls short by the
/// remainder.)
pub proof fn lemma_fill_distribution<R: Renderer, P: Participant<R>>(
    axis: Axis,
    renderer: R,
    limits: Limits,
    align_items: Align,
    items: Seq<P>,
    factor: u16,
    avail: u32,
)
    requires
        items.len() > 0,
        limits.wf(),
        axis.spec_main_bound(limits.max) == Bound::Finite(avail),
        factor != 0,
        forall|i: int|
            0 <= i < items.len() ==> #[trigger] items[i].spec_layer() == items[0].spec_layer(),
        forall|i: int|
            0 <= i < items.len() ==> #[trigger] items[i].spec_fill_factor(axis) == factor,
        forall|i: int| 0 <= i < items.len() ==> honors_limits(#[trigger] items[i], renderer),
    ensures
        resolve_spec(axis, renderer, limits, 0, 0, align_items, items).children.len()
            == items.len(),
        forall|i: int|
            0 <= i < items.len() ==> axis.spec_main(
                #[trigger] resolve_spec(
                    axis,
                    renderer,
                    limits,
                    0,
                    0,
                    align_items,
                    items,
                ).children[i].size,
            ) == avail as int / items.len() as int,
        avail as int % (items.len() as int) == 0 ==> total_main(
            axis,
            resolve_spec(axis, renderer, limits, 0, 0, align_items, items).children,
        ) == avail,
{
    let n = items.len() as int;
    let layer = items[0].spec_layer();
    lemma_single_layer(items, layer);
    let ls = ascending_layers(layers_of(items));
    lemma_pad_zero(limits);
    let padded = limits.spec_pad(0);
    let available0 = bound_minus(axis.spec_main_bound(padded.max), total_spacing(0, n));
    assert(total_spacing(0, n) == 0) by {
        if n > 1 {
            assert(0 * (n - 1) == 0) by (nonlinear_arith);
        }
    }
    assert(available0 == Bound::Finite(avail));
    let max_cross = axis.spec_cross_bound(padded.max);
    let cross0 = axis.spec_cross(padded.min);
    lemma_intrinsic_pass_all_fill(axis, renderer, items, max_cross, available0, cross0, n);
    let intrinsic = intrinsic_pass(axis, renderer, items, max_cross, available0, cross0, n);
    lemma_fill_sum_constant(axis, items, factor, n);
    let total = fill_sum(axis, items, n);
    assert(total == n * factor);
    assert(total > 0) by {
        assert(n * factor >= 1 * 1) by (nonlinear_arith)
            requires
                n >= 1,
                factor >= 1,
        ;
    }

    // Each participant's share is the same whole-pixel quotient.
    let share = (avail as int) * (factor as int) / total;
    assert(share == avail as int / n) by {
        vstd::arithmetic::div_mod::lemma_div_multiples_vanish_quotient(
            factor as int,
            avail as int,
            n,
        );
        assert((factor as int) * (avail as int) == (avail as int) * (factor as int))
            by (nonlinear_arith);
        assert((factor as int) * n == n * (factor as int)) by (nonlinear_arith);
    }
    assert(0 <= share <= avail) by {
        vstd::arithmetic::div_mod::lemma_div_is_ordered_by_denominator(avail as int, 1, n);
        vstd::arithmetic::div_mod::lemma_div_pos_is_pos(avail as int, n);
        vstd::arithmetic::div_mod::lemma_div_basics(avail as int);
    }

    let out = resolve_spec(axis, renderer, limits, 0, 0, align_items, items);
    let filled = fill_pass(
        axis,
        renderer,
        items,
        padded,
        intrinsic.0,
        total,
        intrinsic.2,
        intrinsic.1,
        n,
    );
    let placed = place_pass(axis, align_items, 0, 0, filled.0, filled.1, n);
    assert(run_groups(axis, renderer, limits, 0, 0, align_items, items, ls, 0).1 == Seq::<
        NodeView,
    >::empty());
    assert(ls[0] == layer);
    assert(run_groups(axis, renderer, limits, 0, 0, align_items, items, ls, 1).1 == Seq::<
        NodeView,
    >::empty() + group_layout(axis, renderer, limits, 0, 0, align_items, items).1);
    lemma_place_pass_len(axis, align_items, 0, 0, filled.0, filled.1, n);
    assert(out.children =~= placed.1);

    assert forall|i: int| 0 <= i < n implies axis.spec_main(
        #[trigger] out.children[i].size,
    ) == avail as int / n by {
        lemma_fill_pass_index(
            axis,
            renderer,
            items,
            padded,
            intrinsic.0,
            total,
            intrinsic.2,
            intrinsic.1,
            i,
            n,
        );
        lemma_place_pass_index(axis, align_items, 0, 0, filled.0, filled.1, i, n);
        let cl = fill_limits(axis, padded, intrinsic.0, factor, total);
        assert(fill_share(intrinsic.0, factor, total) == Bound::Finite(share as u32));
        lemma_fill_limits_wf(axis, padded, intrinsic.0, factor, total);
        assert(honors_limits(items[i], renderer));
        let child = items[i].spec_layout(renderer, cl);
        assert(cl.min.width <= child.size.width && cl.min.height <= child.size.height
            && cl.max.admits(child.size));
        assert(axis.spec_main(child.size) == share);
    }

    if avail as int % n == 0 {
        lemma_total_main_constant(axis, out.children, avail as int / n);
        vstd::arithmetic::div_mod::lemma_fundamental_div_mod(avail as int, n);
        assert(n * (avail as int / n) == (avail as int / n) * n) by (nonlinear_arith);
        assert(out.children.len() * (avail as int / n) == avail);
    }
}

/// The intrinsic pass cannot tell two runs apart that agree on which
/// participants are content-sized and on those participants' layouts.
pub proof fn lemma_intrinsic_pass_congruent<R: Renderer, P: Participant<R>>(
    axis: Axis,
    renderer: R,
    g1: Seq<P>,
    g2: Seq<P>,
    max_cross: Bound,
    available0: Bound,
    cross0: u32,
    j: int,
)
    requires
        0 <= j <= g1.len(),
        g1.len() == g2.len(),
        forall|i: int|
            0 <= i < j ==> ((#[trigger] g1[i].spec_fill_factor(axis) == 0) <==> (
            #[trigger] g2[i].spec_fill_factor(axis) == 0)),
        forall|i: int, cl: Limits|
            0 <= i < j && g1[i].spec_fill_factor(axis) == 0 ==> #[trigger] g1[i].spec_layout(
                renderer,
                cl,
            ) == g2[i].spec_layout(renderer, cl),
    ensures
        intrinsic_pass(axis, renderer, g1, max_cross, available0, cross0, j) == intrinsic_pass(
            axis,
            renderer,
            g2,
            max_cross,
            available0,
            cross0,
            j,
        ),
    decreases j,
{
    if j > 0 {
        lemma_intrinsic_pass_congruent(
            axis,
            renderer,
            g1,
            g2,
            max_cross,
            available0,
            cross0,
            j - 1,
        );
    }
}

/// Content-sized participants get exactly their intrinsic size: each is
/// measured against room determined only by the content-sized
/// participants before it, and siblings' fill weights cannot change the
/// outcome. Stated for a single-layer run: two runs agreeing on which
/// participants are content-sized and on those participants' layouts give
/// every content-sized child the same size, however the fill weights of
/// the other participants differ.
pub proof fn lemma_intrinsic_size_independent<R: Renderer, P: Participant<R>>(
    axis: Axis,
    renderer: R,
    limits: Limits,
    padding: u16,
    spacing: u16,
    align_items: Align,
    items1: Seq<P>,
    items2: Seq<P>,
)
    requires
        items1.len() == items2.len(),
        items1.len() > 0,
        forall|i: int|
            0 <= i < items1.len() ==> #[trigger] items1[i].spec_layer() == items1[0].spec_layer(),
        forall|i: int|
            0 <= i < items2.len() ==> #[trigger] items2[i].spec_layer() == items2[0].spec_layer(),
        forall|i: int|
            0 <= i < items1.len() ==> ((#[trigger] items1[i].spec_fill_factor(axis) == 0) <==> (
            #[trigger] items2[i].spec_fill_factor(axis) == 0)),
        forall|i: int, cl: Limits|
            0 <= i < items1.len() && items1[i].spec_fill_factor(axis) == 0
                ==> #[trigger] items1[i].spec_layout(renderer, cl) == items2[i].spec_layout(
                renderer,
                cl,
            ),
    ensures
        forall|i: int|
            0 <= i < items1.len() && #[trigger] items1[i].spec_fill_factor(axis) == 0 ==> {
                let out1 = resolve_spec(axis, renderer, limits, padding, spacing, align_items, items1);
                let out2 = resolve_spec(axis, renderer, limits, padding, spacing, align_items, items2);
                out1.children[i].size == out2.children[i].size
            },
{
    let n = items1.len() as int;
    lemma_single_layer(items1, items1[0].spec_layer());
    lemma_single_layer(items2, items2[0].spec_layer());
    let padded = limits.spec_pad(padding);
    let max_cross = axis.spec_cross_bound(padded.max);
    let cross0 = axis.spec_cross(padded.min);
    let available0 = bound_minus(axis.spec_main_bound(padded.max), total_spacing(spacing, n));
    lemma_intrinsic_pass_congruent(
        axis,
        renderer,
        items1,
        items2,
        max_cross,
        available0,
        cross0,
        n,
    );
    let intrinsic = intrinsic_pass(axis, renderer, items1, max_cross, available0, cross0, n);
    let total1 = fill_sum(axis, items1, n);
    let total2 = fill_sum(axis, items2, n);
    let filled1 = fill_pass(
        axis,
        renderer,
        items1,
        padded,
        intrinsic.0,
        total1,
        intrinsic.2,
        intrinsic.1,
        n,
    );
    let filled2 = fill_pass(
        axis,
        renderer,
        items2,
        padded,
        intrinsic.0,
        total2,
        intrinsic.2,
        intrinsic.1,
        n,
    );
    let out1 = resolve_spec(axis, renderer, limits, padding, spacing, align_items, items1);
    let out2 = resolve_spec(axis, renderer, limits, padding, spacing, align_items, items2);
    let ls1 = ascending_layers(layers_of(items1));
    let ls2 = ascending_layers(layers_of(items2));
    assert(run_groups(axis, renderer, limits, padding, spacing, align_items, items1, ls1, 0).1
        == Seq::<NodeView>::empty());
    assert(run_groups(axis, renderer, limits, padding, spacing, align_items, items2, ls2, 0).1
        == Seq::<NodeView>::empty());
    let placed1 = place_pass(axis, align_items, padding, spacing, filled1.0, filled1.1, n);
    let placed2 = place_pass(axis, align_items, padding, spacing, filled2.0, filled2.1, n);
    lemma_place_pass_len(axis, align_items, padding, spacing, filled1.0, filled1.1, n);
    lemma_place_pass_len(axis, align_items, padding, spacing, filled2.0, filled2.1, n);
    assert(out1.children =~= placed1.1);
    assert(out2.children =~= placed2.1);
    assert forall|i: int|
        0 <= i < items1.len() && #[trigger] items1[i].spec_fill_factor(axis) == 0 implies {
        let o1 = resolve_spec(axis, renderer, limits, padding, spacing, align_items, items1);
        let o2 = resolve_spec(axis, renderer, limits, padding, spacing, align_items, items2);
        o1.children[i].size == o2.children[i].size
    } by {
        lemma_fill_pass_index(
            axis,
            renderer,
            items1,
            padded,
            intrinsic.0,
            total1,
            intrinsic.2,
            intrinsic.1,
            i,
            n,
        );
        lemma_fill_pass_index(
            axis,
            renderer,
            items2,
            padded,
            intrinsic.0,
            total2,
            intrinsic.2,
            intrinsic.1,
            i,
            n,
        );
        lemma_place_pass_index(axis, align_items, padding, spacing, filled1.0, filled1.1, i, n);
        lemma_place_pass_index(axis, align_items, padding, spacing, filled2.0, filled2.1, i, n);
    }
}

/// A content-sized participant gets exactly its intrinsic size: if its
/// layout reports one fixed size whatever room it is offered, that is the
/// size its child has in the resolved output — its siblings, their fill
/// weights, the spacing and the padding notwithstanding. Stated for a
/// single-layer run, where the child keeps the participant's position.
pub proof fn lemma_intrinsic_exact_size<R: Renderer, P: Participant<R>>(
    axis: Axis,
    renderer: R,
    limits: Limits,
    padding: u16,
    spacing: u16,
    align_items: Align,
    items: Seq<P>,
    i: int,
    content: Size,
)
    requires
        0 <= i < items.len(),
        forall|k: int|
            0 <= k < items.len() ==> #[trigger] items[k].spec_layer() == items[0].spec_layer(),
        items[i].spec_fill_factor(axis) == 0,
        forall|cl: Limits| (#[trigger] items[i].spec_layout(renderer, cl)).size == content,
    ensures
        resolve_spec(axis, renderer, limits, padding, spacing, align_items, items).children[i].size
            == content,
{
    let n = items.len() as int;
    lemma_single_layer(items, items[0].spec_layer());
    let ls = ascending_layers(layers_of(items));
    let padded = limits.spec_pad(padding);
    let max_cross = axis.spec_cross_bound(padded.max);
    let cross0 = axis.spec_cross(padded.min);
    let available0 = bound_minus(axis.spec_main_bound(padded.max), total_spacing(spacing, n));
    let intrinsic = intrinsic_pass(axis, renderer, items, max_cross, available0, cross0, n);
    let total = fill_sum(axis, items, n);
    let filled = fill_pass(
        axis,
        renderer,
        items,
        padded,
        intrinsic.0,
        total,
        intrinsic.2,
        intrinsic.1,
        n,
    );
    let placed = place_pass(axis, align_items, padding, spacing, filled.0, filled.1, n);
    assert(run_groups(axis, renderer, limits, padding, spacing, align_items, items, ls, 0).1
        == Seq::<NodeView>::empty());
    lemma_place_pass_len(axis, align_items, padding, spacing, filled.0, filled.1, n);
    let out = resolve_spec(axis, renderer, limits, padding, spacing, align_items, items);
    assert(out.children =~= placed.1);
    crate::flex::lemma_intrinsic_pass_index(
        axis,
        renderer,
        items,
        max_cross,
        available0,
        cross0,
        i,
        n,
    );
    lemma_fill_pass_index(
        axis,
        renderer,
        items,
        padded,
        intrinsic.0,
        total,
        intrinsic.2,
        intrinsic.1,
        i,
        n,
    );
    lemma_place_pass_index(axis, align_items, padding, spacing, filled.0, filled.1, i, n);
}

/// Padding round-trip: a single content-sized child of intrinsic size
/// `content`, resolved under loose limits with room to spare, yields a
/// container of exactly the content size grown by the padding on each
/// side, with the child sitting at the padding offset — whatever the
/// alignment, since the lone child spans the group's whole cross extent.
pub proof fn lemma_padding_round_trip<R: Renderer, P: Participant<R>>(
    axis: Axis,
    renderer: R,
    limits: Limits,
    padding: u16,
    spacing: u16,
    align_items: Align,
    item: P,
    content: Size,
)
    requires
        limits.min == (Size { width: 0, height: 0 }),
        limits.max.admits(content),
        content.width + 2 * (padding as int) <= u32::MAX,
        content.height + 2 * (padding as int) <= u32::MAX,
        item.spec_fill_factor(axis) == 0,
        forall|cl: Limits| (#[trigger] item.spec_layout(renderer, cl)).size == content,
    ensures
        resolve_spec(axis, renderer, limits, padding, spacing, align_items, seq![item]).size == (
        Size {
            width: (content.width + 2 * padding as int) as u32,
            height: (content.height + 2 * padding as int) as u32,
        }),
        resolve_spec(axis, renderer, limits, padding, spacing, align_items, seq![item]).children.len()
            == 1,
        resolve_spec(
            axis,
            renderer,
            limits,
            padding,
            spacing,
            align_items,
            seq![item],
        ).children[0].offset == (Point { x: padding as u32, y: padding as u32 }),
        resolve_spec(
            axis,
            renderer,
            limits,
            padding,
            spacing,
            align_items,
            seq![item],
        ).children[0].size == content,
{
    let items: Seq<P> = seq![item];
    lemma_single_layer(items, item.spec_layer());
    let ls = ascending_layers(layers_of(items));
    let padded = limits.spec_pad(padding);
    let max_cross = axis.spec_cross_bound(padded.max);
    let cross0 = axis.spec_cross(padded.min);
    assert(cross0 == 0);
    let available0 = bound_minus(axis.spec_main_bound(padded.max), total_spacing(spacing, 1));
    let base = intrinsic_pass(axis, renderer, items, max_cross, available0, cross0, 0);
    assert(base == (available0, cross0, Seq::<Option<NodeView>>::empty()));
    let intrinsic = intrinsic_pass(axis, renderer, items, max_cross, available0, cross0, 1);
    let child = item.spec_layout(renderer, content_limits(axis, available0, max_cross));
    assert(child.size == content);
    assert(intrinsic.1 == axis.spec_cross(content));
    assert(intrinsic.2 == Seq::<Option<NodeView>>::empty().push(Some(child)));
    let total = fill_sum(axis, items, 1);
    let fill_base = fill_pass(
        axis,
        renderer,
        items,
        padded,
        intrinsic.0,
        total,
        intrinsic.2,
        intrinsic.1,
        0,
    );
    assert(fill_base == (intrinsic.1, Seq::<NodeView>::empty()));
    let filled = fill_pass(
        axis,
        renderer,
        items,
        padded,
        intrinsic.0,
        total,
        intrinsic.2,
        intrinsic.1,
        1,
    );
    assert(filled.0 == axis.spec_cross(content));
    assert(filled.1 == Seq::<NodeView>::empty().push(child));
    let place_base = place_pass(axis, align_items, padding, spacing, filled.0, filled.1, 0);
    assert(place_base == ((padding as u32), Seq::<NodeView>::empty()));
    let placed = place_pass(axis, align_items, padding, spacing, filled.0, filled.1, 1);
    assert(crate::align::align_shift(align_items, filled.0, axis.spec_cross(child.size)) == 0);
    assert(placed.1[0].offset == (Point { x: padding as u32, y: padding as u32 }));
    assert(placed.1[0].size == content);
    assert(placed.0 == crate::geometry::sat_add(padding as u32, axis.spec_main(content)));
    let group = group_layout(axis, renderer, limits, padding, spacing, align_items, items);
    assert(group.0 == (Size { width: content.width, height: content.height }));
    assert(run_groups(axis, renderer, limits, padding, spacing, align_items, items, ls, 0) == (
        (Size { width: 0, height: 0 }, Seq::<NodeView>::empty()),
    ).0);
    let merged = run_groups(axis, renderer, limits, padding, spacing, align_items, items, ls, 1);
    assert(merged.0 == (Size { width: content.width, height: content.height }));
    assert(merged.1 =~= placed.1);
    assert(limits.spec_resolve(merged.0) == (Size { width: content.width, height: content.height }));
}

/// The resolver is a pure function of its inputs: its contract pins the
/// whole output tree to [`resolve_spec`], so two calls on identical
/// inputs yield identical trees.
pub proof fn lemma_resolve_pure<R: Renderer, P: Participant<R>>(
    axis: Axis,
    renderer: R,
    limits: Limits,
    padding: u16,
    spacing: u16,
    align_items: Align,
    items: Seq<P>,
    n1: NodeView,
    n2: NodeView,
)
    requires
        n1 == resolve_spec(axis, renderer, limits, padding, spacing, align_items, items),
        n2 == resolve_spec(axis, renderer, limits, padding, spacing, align_items, items),
    ensures
        n1 == n2,
{
}

/// With unlimited room on the main axis, a fill participant is measured
/// against a constraint whose main-axis minimum is zero — the unlimited
/// maximum never propagates into a minimum — and the resolution goes
/// through without arithmetic trouble, as [`crate::flex::resolve`]'s own
/// verification shows.
pub proof fn lemma_infinite_fill_guard<R: Renderer, P: Participant<R>>(
    axis: Axis,
    renderer: R,
    limits: Limits,
    padding: u16,
    spacing: u16,
    align_items: Align,
    item: P,
)
    requires
        axis.spec_main_bound(limits.max) == Bound::Infinite,
        item.spec_fill_factor(axis) != 0,
    ensures
        ({
            let cl = fill_limits(
                axis,
                limits.spec_pad(padding),
                Bound::Infinite,
                item.spec_fill_factor(axis),
                item.spec_fill_factor(axis) as int,
            );
            let out = resolve_spec(axis, renderer, limits, padding, spacing, align_items, seq![item]);
            axis.spec_main(cl.min) == 0 && axis.spec_main_bound(cl.max) == Bound::Infinite
                && out.children.len() == 1 && out.children[0].size == item.spec_layout(
                renderer,
                cl,
            ).size
        }),
{
    let items: Seq<P> = seq![item];
    lemma_single_layer(items, item.spec_layer());
    let ls = ascending_layers(layers_of(items));
    let padded = limits.spec_pad(padding);
    assert(axis.spec_main_bound(padded.max) == Bound::Infinite);
    let available0 = bound_minus(axis.spec_main_bound(padded.max), total_spacing(spacing, 1));
    assert(available0 == Bound::Infinite);
    let max_cross = axis.spec_cross_bound(padded.max);
    let cross0 = axis.spec_cross(padded.min);
    let base = intrinsic_pass(axis, renderer, items, max_cross, available0, cross0, 0);
    assert(base == (available0, cross0, Seq::<Option<NodeView>>::empty()));
    let intrinsic = intrinsic_pass(axis, renderer, items, max_cross, available0, cross0, 1);
    assert(intrinsic.0 == Bound::Infinite);
    let total = fill_sum(axis, items, 1);
    assert(fill_sum(axis, items, 0) == 0);
    assert(total == item.spec_fill_factor(axis) as int);
    let cl = fill_limits(axis, padded, Bound::Infinite, item.spec_fill_factor(axis), total);
    assert(fill_share(Bound::Infinite, item.spec_fill_factor(axis), total) == Bound::Infinite);
    let fill_base = fill_pass(
        axis,
        renderer,
        items,
        padded,
        intrinsic.0,
        total,
        intrinsic.2,
        intrinsic.1,
        0,
    );
    assert(fill_base == (intrinsic.1, Seq::<NodeView>::empty()));
    let filled = fill_pass(
        axis,
        renderer,
        items,
        padded,
        intrinsic.0,
        total,
        intrinsic.2,
        intrinsic.1,
        1,
    );
    let child = item.spec_layout(renderer, cl);
    assert(filled.1 == Seq::<NodeView>::empty().push(child));
    let place_base = place_pass(axis, align_items, padding, spacing, filled.0, filled.1, 0);
    assert(place_base == ((padding as u32), Seq::<NodeView>::empty()));
    let placed = place_pass(axis, align_items, padding, spacing, filled.0, filled.1, 1);
    assert(placed.1.len() == 1);
    assert(run_groups(axis, renderer, limits, padding, spacing, align_items, items, ls, 0).1
        == Seq::<NodeView>::empty());
    let merged = run_groups(axis, renderer, limits, padding, spacing, align_items, items, ls, 1);
    assert(merged.1 =~= placed.1);
    assert(placed.1[0].size == child.size);
}

} // verus!
