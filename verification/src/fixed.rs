//! A leaf participant with a fixed intrinsic size.

use vstd::prelude::*;

use crate::flex::Axis;
use crate::geometry::{Point, Size};
use crate::length::Length;
use crate::limits::Limits;
use crate::node::{Node, NodeView};
use crate::participant::{Participant, Renderer};

verus! {

/// An element whose content wants exactly `content` pixels: its layout is
/// that size resolved against the constraints it is given, after its own
/// width and height policies are applied. Useful as a plain box and as the
/// simplest participant an embedder can start from.
#[derive(Clone, Copy, PartialEq, Eq, Structural, Debug)]
pub struct Fixed {
    /// Sizing policy along the horizontal axis; its fill weight is what
    /// the resolver sees for a horizontal main axis.
    pub width: Length,
    /// Sizing policy along the vertical axis.
    pub height: Length,
    /// The layer the element belongs to.
    pub layer_index: i32,
    /// The intrinsic content size.
    pub content: Size,
}

/// The layout a [`Fixed`] element produces for given constraints.
pub open spec fn fixed_layout_spec(item: Fixed, limits: Limits) -> NodeView {
    NodeView {
        size: limits.spec_width(item.width).spec_height(item.height).spec_resolve(item.content),
        offset: Point { x: 0, y: 0 },
        children: Seq::empty(),
    }
}

impl Fixed {
    /// An element of the given intrinsic size, sized to content on both
    /// axes, on layer 0.
    pub fn new(content: Size) -> (item: Fixed)
        ensures
            item == (Fixed {
                width: Length::Shrink,
                height: Length::Shrink,
                layer_index: 0,
                content,
            }),
    {
        Fixed { width: Length::Shrink, height: Length::Shrink, layer_index: 0, content }
    }

    /// Sets the width policy.
    pub fn width(self, width: Length) -> (item: Fixed)
        ensures
            item == (Fixed { width, ..self }),
    {
        Fixed { width, ..self }
    }

    /// Sets the height policy.
    pub fn height(self, height: Length) -> (item: Fixed)
        ensures
            item == (Fixed { height, ..self }),
    {
        Fixed { height, ..self }
    }

    /// Puts the element on the given layer.
    pub fn on_layer(self, layer_index: i32) -> (item: Fixed)
        ensures
            item == (Fixed { layer_index, ..self }),
    {
        Fixed { layer_index, ..self }
    }
}

impl<R: Renderer> Participant<R> for Fixed {
    open spec fn spec_fill_factor(&self, axis: Axis) -> u16 {
        match axis {
            Axis::Horizontal => self.width.spec_fill_factor(),
            Axis::Vertical => self.height.spec_fill_factor(),
        }
    }

    open spec fn spec_layer(&self) -> i32 {
        self.layer_index
    }

    open spec fn spec_layout(&self, renderer: R, limits: Limits) -> NodeView {
        fixed_layout_spec(*self, limits)
    }

    fn fill_factor(&self, axis: Axis) -> (r: u16) {
        match axis {
            Axis::Horizontal => self.width.fill_factor(),
            Axis::Vertical => self.height.fill_factor(),
        }
    }

    fn layer(&self) -> (r: i32) {
        self.layer_index
    }

    fn layout(&self, renderer: &R, limits: &Limits) -> (n: Node) {
        let constrained = limits.width(self.width).height(self.height);
        Node::new(constrained.resolve(self.content))
    }
}

} // verus!
