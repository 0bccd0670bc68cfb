//! A container that distributes its contents along an axis.

use vstd::prelude::*;

use crate::align::{align_shift, Align};
use crate::flex::{resolve, resolve_spec, Axis};
use crate::geometry::{sat_add, Point, Size};
use crate::length::Length;
use crate::limits::Limits;
use crate::node::{Node, NodeView};
use crate::participant::{Participant, Renderer};

verus! {

/// A container that distributes its children horizontally or vertically,
/// with spacing between them, padding around them, and per-axis
/// alignment; children on distinct layers overlap instead of flowing
/// together.
#[derive(Clone, PartialEq, Eq, Debug)]
pub struct Block<P> {
    /// The gap between consecutive children of the same layer.
    pub spacing: u16,
    /// Room reserved on all four sides.
    pub padding: u16,
    /// Sizing policy along the horizontal axis.
    pub width: Length,
    /// Sizing policy along the vertical axis.
    pub height: Length,
    /// An explicit bound on the width.
    pub max_width: u32,
    /// An explicit bound on the height.
    pub max_height: u32,
    /// How the contents align horizontally.
    pub horizontal_alignment: Align,
    /// How the contents align vertically.
    pub vertical_alignment: Align,
    /// The children, in order.
    pub children: Vec<P>,
    /// The main axis the children flow along.
    pub flex_axis: Axis,
}

/// The cross-axis alignment a block hands to the resolver: the alignment
/// perpendicular to its flex axis.
pub open spec fn cross_alignment<P>(block: Block<P>) -> Align {
    match block.flex_axis {
        Axis::Horizontal => block.vertical_alignment,
        Axis::Vertical => block.horizontal_alignment,
    }
}

/// The constraints a block measures its contents against: the incoming
/// limits loosened, bounded, narrowed by the block's own sizing policies,
/// and padded.
pub open spec fn block_limits<P>(block: Block<P>, limits: Limits) -> Limits {
    limits.spec_loose().spec_max_width(block.max_width).spec_max_height(
        block.max_height,
    ).spec_width(block.width).spec_height(block.height).spec_pad(block.padding)
}

/// The layout a [`Block`] produces: the flex resolution of its children
/// within [`block_limits`], realigned within the resolved bounds
/// according to the block's own alignments.
pub open spec fn block_layout_spec<R: Renderer, P: Participant<R>>(
    block: Block<P>,
    renderer: R,
    limits: Limits,
) -> NodeView {
    let adjusted = block_limits(block, limits);
    let resolved = resolve_spec(
        block.flex_axis,
        renderer,
        adjusted,
        block.padding,
        block.spacing,
        cross_alignment(block),
        block.children@,
    );
    let space = adjusted.spec_resolve(resolved.size);
    NodeView {
        size: resolved.size,
        offset: Point {
            x: sat_add(
                resolved.offset.x,
                align_shift(block.horizontal_alignment, space.width, resolved.size.width),
            ),
            y: sat_add(
                resolved.offset.y,
                align_shift(block.vertical_alignment, space.height, resolved.size.height),
            ),
        },
        children: resolved.children,
    }
}

impl<P> Block<P> {
    /// An empty block flowing along `flex_axis`: no spacing, no padding,
    /// shrink-to-content, unbounded, aligned to the start.
    pub fn new(flex_axis: Axis) -> (block: Block<P>)
        ensures
            block.spacing == 0,
            block.padding == 0,
            block.width == Length::Shrink,
            block.height == Length::Shrink,
            block.max_width == u32::MAX,
            block.max_height == u32::MAX,
            block.horizontal_alignment == Align::Start,
            block.vertical_alignment == Align::Start,
            block.children@ == Seq::<P>::empty(),
            block.flex_axis == flex_axis,
    {
        let block = Self::with_children(Vec::new(), flex_axis);
        proof {
            assert(block.children@ =~= Seq::<P>::empty());
        }
        block
    }

    /// A block over the given children.
    pub fn with_children(children: Vec<P>, flex_axis: Axis) -> (block: Block<P>)
        ensures
            block.spacing == 0,
            block.padding == 0,
            block.width == Length::Shrink,
            block.height == Length::Shrink,
            block.max_width == u32::MAX,
            block.max_height == u32::MAX,
            block.horizontal_alignment == Align::Start,
            block.vertical_alignment == Align::Start,
            block.children == children,
            block.flex_axis == flex_axis,
    {
        Block {
            spacing: 0,
            padding: 0,
            width: Length::Shrink,
            height: Length::Shrink,
            max_width: u32::MAX,
            max_height: u32::MAX,
            horizontal_alignment: Align::Start,
            vertical_alignment: Align::Start,
            children,
            flex_axis,
        }
    }

    /// Sets the spacing between consecutive elements.
    pub fn spacing(self, units: u16) -> (block: Block<P>)
        ensures
            block == (Block { spacing: units, ..self }),
    {
        Block { spacing: units, ..self }
    }

    /// Sets the padding.
    pub fn padding(self, units: u16) -> (block: Block<P>)
        ensures
            block == (Block { padding: units, ..self }),
    {
        Block { padding: units, ..self }
    }

    /// Sets the width policy.
    pub fn width(self, width: Length) -> (block: Block<P>)
        ensures
            block == (Block { width, ..self }),
    {
        Block { width, ..self }
    }

    /// Sets the height policy.
    pub fn height(self, height: Length) -> (block: Block<P>)
        ensures
            block == (Block { height, ..self }),
    {
        Block { height, ..self }
    }

    /// Sets the maximum width.
    pub fn max_width(self, max_width: u32) -> (block: Block<P>)
        ensures
            block == (Block { max_width, ..self }),
    {
        Block { max_width, ..self }
    }

    /// Sets the maximum height.
    pub fn max_height(self, max_height: u32) -> (block: Block<P>)
        ensures
            block == (Block { max_height, ..self }),
    {
        Block { max_height, ..self }
    }

    /// Sets the alignment of the contents on the cross axis.
    pub fn align_items(self, alignment: Align) -> (block: Block<P>)
        ensures
            self.flex_axis == Axis::Horizontal ==> block == (Block {
                vertical_alignment: alignment,
                ..self
            }),
            self.flex_axis == Axis::Vertical ==> block == (Block {
                horizontal_alignment: alignment,
                ..self
            }),
    {
        match self.flex_axis {
            Axis::Horizontal => Block { vertical_alignment: alignment, ..self },
            Axis::Vertical => Block { horizontal_alignment: alignment, ..self },
        }
    }

    /// Sets the alignment of the contents on the horizontal axis.
    pub fn align_x(self, alignment: Align) -> (block: Block<P>)
        ensures
            block == (Block { horizontal_alignment: alignment, ..self }),
    {
        Block { horizontal_alignment: alignment, ..self }
    }

    /// Sets the alignment of the contents on the vertical axis.
    pub fn align_y(self, alignment: Align) -> (block: Block<P>)
        ensures
            block == (Block { vertical_alignment: alignment, ..self }),
    {
        Block { vertical_alignment: alignment, ..self }
    }

    /// Sets the flex axis.
    pub fn flex_axis(self, flex_axis: Axis) -> (block: Block<P>)
        ensures
            block == (Block { flex_axis, ..self }),
    {
        Block { flex_axis, ..self }
    }

    /// Centers the contents horizontally.
    pub fn center_x(self) -> (block: Block<P>)
        ensures
            block == (Block { horizontal_alignment: Align::Center, ..self }),
    {
        Block { horizontal_alignment: Align::Center, ..self }
    }

    /// Centers the contents vertically.
    pub fn center_y(self) -> (block: Block<P>)
        ensures
            block == (Block { vertical_alignment: Align::Center, ..self }),
    {
        Block { vertical_alignment: Align::Center, ..self }
    }

    /// Adds an element after the existing children.
    pub fn push(self, child: P) -> (block: Block<P>)
        ensures
            block.children@ == self.children@.push(child),
            block.spacing == self.spacing,
            block.padding == self.padding,
            block.width == self.width,
            block.height == self.height,
            block.max_width == self.max_width,
            block.max_height == self.max_height,
            block.horizontal_alignment == self.horizontal_alignment,
            block.vertical_alignment == self.vertical_alignment,
            block.flex_axis == self.flex_axis,
    {
        let mut block = self;
        block.children.push(child);
        block
    }

    /// Computes the block's layout within `limits`: the children are
    /// measured against [`block_limits`], flex-resolved along the block's
    /// axis, and the result is realigned within the resolved bounds.
    pub fn layout<R: Renderer>(&self, renderer: &R, limits: &Limits) -> (n: Node) where
        P: Participant<R>,

        ensures
            n@ == block_layout_spec(*self, *renderer, *limits),
    {
        let adjusted = limits.loose().max_width(self.max_width).max_height(
            self.max_height,
        ).width(self.width).height(self.height).pad(self.padding);
        let align_item = match self.flex_axis {
            Axis::Horizontal => self.vertical_alignment,
            Axis::Vertical => self.horizontal_alignment,
        };
        let mut resolved = resolve(
            self.flex_axis,
            renderer,
            &adjusted,
            self.padding,
            self.spacing,
            align_item,
            &self.children,
        );
        let space = adjusted.resolve(resolved.size());
        resolved.align(self.horizontal_alignment, self.vertical_alignment, space);
        resolved
    }
}

impl<R: Renderer, P: Participant<R>> Participant<R> for Block<P> {
    open spec fn spec_fill_factor(&self, axis: Axis) -> u16 {
        match axis {
            Axis::Horizontal => self.width.spec_fill_factor(),
            Axis::Vertical => self.height.spec_fill_factor(),
        }
    }

    open spec fn spec_layer(&self) -> i32 {
        0
    }

    open spec fn spec_layout(&self, renderer: R, limits: Limits) -> NodeView {
        block_layout_spec(*self, renderer, limits)
    }

    fn fill_factor(&self, axis: Axis) -> (r: u16) {
        match axis {
            Axis::Horizontal => self.width.fill_factor(),
            Axis::Vertical => self.height.fill_factor(),
        }
    }

    fn layer(&self) -> (r: i32) {
        0
    }

    fn layout(&self, renderer: &R, limits: &Limits) -> (n: Node) {
        Block::layout(self, renderer, limits)
    }
}

} // verus!
