//! A wrapper that lifts its content onto a layer of its own.

use vstd::prelude::*;

use crate::flex::Axis;
use crate::geometry::{Point, Size};
use crate::length::Length;
use crate::limits::Limits;
use crate::node::{nodes_view, Node, NodeView};
use crate::participant::{Participant, Renderer};

verus! {

/// An element decorating some content, normally used to create
/// superposable layers: the wrapped content keeps its own layout, but the
/// wrapper reports a layer of its own to the resolver (1 unless
/// overridden, while bare elements sit on layer 0).
#[derive(Clone, Copy, PartialEq, Eq, Structural, Debug)]
pub struct Layer<P> {
    /// The layer the wrapped content is lifted onto.
    pub layer_num: i32,
    /// Sizing policy along the horizontal axis.
    pub width: Length,
    /// Sizing policy along the vertical axis.
    pub height: Length,
    /// An explicit bound on the width, for embedders that size layers
    /// directly.
    pub max_width: u32,
    /// An explicit bound on the height.
    pub max_height: u32,
    /// The wrapped content.
    pub content: P,
}

/// The layout a [`Layer`] produces: its content's own layout, wrapped in
/// a node whose size is the content's size resolved against the
/// constraints.
pub open spec fn layer_layout_spec<R: Renderer, P: Participant<R>>(
    wrapper: Layer<P>,
    renderer: R,
    limits: Limits,
) -> NodeView {
    let content = wrapper.content.spec_layout(renderer, limits);
    NodeView {
        size: limits.spec_resolve(content.size),
        offset: Point { x: 0, y: 0 },
        children: seq![content],
    }
}

impl<P> Layer<P> {
    /// Wraps `content`, lifting it onto layer 1.
    pub fn new(content: P) -> (layer: Layer<P>)
        ensures
            layer.layer_num == 1,
            layer.width == Length::Shrink,
            layer.height == Length::Shrink,
            layer.max_width == u32::MAX,
            layer.max_height == u32::MAX,
            layer.content == content,
    {
        Layer {
            layer_num: 1,
            width: Length::Shrink,
            height: Length::Shrink,
            max_width: u32::MAX,
            max_height: u32::MAX,
            content,
        }
    }

    /// Sets the layer number. Elements behave as if on layer 0 unless
    /// overridden.
    pub fn layer_num(self, layer_num: i32) -> (layer: Layer<P>)
        ensures
            layer == (Layer { layer_num, ..self }),
    {
        Layer { layer_num, ..self }
    }

    /// Sets the width policy.
    pub fn width(self, width: Length) -> (layer: Layer<P>)
        ensures
            layer == (Layer { width, ..self }),
    {
        Layer { width, ..self }
    }

    /// Sets the height policy.
    pub fn height(self, height: Length) -> (layer: Layer<P>)
        ensures
            layer == (Layer { height, ..self }),
    {
        Layer { height, ..self }
    }

    /// Sets the maximum width.
    pub fn max_width(self, max_width: u32) -> (layer: Layer<P>)
        ensures
            layer == (Layer { max_width, ..self }),
    {
        Layer { max_width, ..self }
    }

    /// Sets the maximum height.
    pub fn max_height(self, max_height: u32) -> (layer: Layer<P>)
        ensures
            layer == (Layer { max_height, ..self }),
    {
        Layer { max_height, ..self }
    }
}

impl<R: Renderer, P: Participant<R>> Participant<R> for Layer<P> {
    open spec fn spec_fill_factor(&self, axis: Axis) -> u16 {
        match axis {
            Axis::Horizontal => self.width.spec_fill_factor(),
            Axis::Vertical => self.height.spec_fill_factor(),
        }
    }

    open spec fn spec_layer(&self) -> i32 {
        self.layer_num
    }

    open spec fn spec_layout(&self, renderer: R, limits: Limits) -> NodeView {
        layer_layout_spec(*self, renderer, limits)
    }

    fn fill_factor(&self, axis: Axis) -> (r: u16) {
        match axis {
            Axis::Horizontal => self.width.fill_factor(),
            Axis::Vertical => self.height.fill_factor(),
        }
    }

    fn layer(&self) -> (r: i32) {
        self.layer_num
    }

    fn layout(&self, renderer: &R, limits: &Limits) -> (n: Node) {
        let content = self.content.layout(renderer, limits);
        let size = limits.resolve(content.size());
        let ghost content_view = content@;
        let children = vec![content];
        proof {
            crate::node::lemma_nodes_view(children@);
            assert(children@.map_values(|m: Node| m@) =~= seq![content_view]);
        }
        Node::with_children(size, children)
    }
}

} // verus!
