//! The per-element contract the resolver consumes: a fill weight per axis,
//! a layer index, and a recursive layout operation.

use vstd::prelude::*;

use crate::flex::Axis;
use crate::limits::Limits;
use crate::node::{Node, NodeView};

verus! {

/// The opaque backend handed through to every participant's layout call,
/// so that an element can consult text measurement or platform metrics.
/// The resolver never inspects it.
pub trait Renderer: Sized {

}

/// A layout participant. Each implementor gives a mathematical model of
/// what it reports — its fill weight, its layer index, and the layout it
/// produces for given constraints — and its executable methods are bound
/// to that model, so the resolver's own contract can speak about the tree
/// it assembles.
pub trait Participant<R: Renderer>: Sized {
    /// Model of the fill weight along `axis`: zero sizes to content, a
    /// nonzero weight claims a proportional share of leftover space.
    spec fn spec_fill_factor(&self, axis: Axis) -> u16;

    /// Model of the layer index the participant belongs to.
    spec fn spec_layer(&self) -> i32;

    /// Model of the layout subtree the participant produces for the given
    /// constraints.
    spec fn spec_layout(&self, renderer: R, limits: Limits) -> NodeView;

    /// The fill weight along `axis`.
    fn fill_factor(&self, axis: Axis) -> (r: u16)
        ensures
            r == self.spec_fill_factor(axis),
    ;

    /// The layer index.
    fn layer(&self) -> (r: i32)
        ensures
            r == self.spec_layer(),
    ;

    /// Computes the participant's own layout within `limits`.
    fn layout(&self, renderer: &R, limits: &Limits) -> (n: Node)
        ensures
            n@ == self.spec_layout(*renderer, *limits),
    ;
}

/// A backend with no services: enough for participants whose layout
/// depends on their own configuration alone.
pub struct Headless;

impl Renderer for Headless {

}

} // verus!
