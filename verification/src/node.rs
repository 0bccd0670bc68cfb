//! The output of a layout pass: a resolved size and positioned children.

use vstd::prelude::*;

use crate::align::{align_shift, Align};
use crate::geometry::{sat_add, Point, Size};

verus! {

/// The mathematical model of a [`Node`]: its resolved size, its offset
/// relative to the parent, and the models of its children in order.
pub struct NodeView {
    pub size: Size,
    pub offset: Point,
    pub children: Seq<NodeView>,
}

/// A resolved layout: a size, an offset relative to the parent, and owned,
/// positioned child layouts in order.
#[derive(PartialEq, Debug)]
pub struct Node {
    size: Size,
    offset: Point,
    children: Vec<Node>,
}

/// The models of a sequence of nodes, in order.
pub closed spec fn nodes_view(nodes: Seq<Node>) -> Seq<NodeView>
    decreases nodes,
{
    if nodes.len() == 0 {
        Seq::empty()
    } else {
        seq![node_view(nodes[0])] + nodes_view(nodes.drop_first())
    }
}

/// The model of one node.
pub closed spec fn node_view(node: Node) -> NodeView
    decreases node,
{
    NodeView { size: node.size, offset: node.offset, children: nodes_view(node.children@) }
}

impl View for Node {
    type V = NodeView;

    open spec fn view(&self) -> NodeView {
        node_view(*self)
    }
}

/// A sequence of nodes viewed elementwise is the view of the sequence.
pub broadcast proof fn lemma_nodes_view(nodes: Seq<Node>)
    ensures
        #[trigger] nodes_view(nodes) == nodes.map_values(|n: Node| n@),
    decreases nodes.len(),
{
    if nodes.len() == 0 {
        assert(nodes_view(nodes) =~= nodes.map_values(|n: Node| n@));
    } else {
        lemma_nodes_view(nodes.drop_first());
        assert(nodes_view(nodes) =~= nodes.map_values(|n: Node| n@));
    }
}

/// Viewing distributes over extension by one node.
pub proof fn lemma_nodes_view_push(nodes: Seq<Node>, n: Node)
    ensures
        nodes_view(nodes.push(n)) == nodes_view(nodes).push(n@),
{
    lemma_nodes_view(nodes.push(n));
    lemma_nodes_view(nodes);
    assert(nodes.push(n).map_values(|m: Node| m@) =~= nodes.map_values(|m: Node| m@).push(n@));
}

/// Viewing distributes over concatenation.
pub proof fn lemma_nodes_view_concat(a: Seq<Node>, b: Seq<Node>)
    ensures
        nodes_view(a + b) == nodes_view(a) + nodes_view(b),
{
    lemma_nodes_view(a + b);
    lemma_nodes_view(a);
    lemma_nodes_view(b);
    assert((a + b).map_values(|m: Node| m@) =~= a.map_values(|m: Node| m@) + b.map_values(
        |m: Node| m@,
    ));
}

/// Viewing distributes over removal of the first node.
pub proof fn lemma_nodes_view_remove_first(nodes: Seq<Node>)
    requires
        nodes.len() > 0,
    ensures
        nodes_view(nodes.remove(0)) == nodes_view(nodes).remove(0),
        nodes_view(nodes)[0] == nodes[0]@,
{
    lemma_nodes_view(nodes.remove(0));
    lemma_nodes_view(nodes);
    assert(nodes.remove(0).map_values(|m: Node| m@) =~= nodes.map_values(|m: Node| m@).remove(0));
}

impl Node {
    /// Builds a childless node of the given size, at the origin.
    pub fn new(size: Size) -> (n: Node)
        ensures
            n@.size == size,
            n@.offset == Point::origin(),
            n@.children == Seq::<NodeView>::empty(),
    {
        let n = Node { size, offset: Point { x: 0, y: 0 }, children: Vec::new() };
        proof {
            assert(n@.children =~= Seq::<NodeView>::empty());
        }
        n
    }

    /// Builds a node of the given size owning the supplied children, each
    /// keeping the offset it already has; the node itself sits at the
    /// origin.
    pub fn with_children(size: Size, children: Vec<Node>) -> (n: Node)
        ensures
            n@.size == size,
            n@.offset == Point::origin(),
            n@.children == nodes_view(children@),
    {
        Node { size, offset: Point { x: 0, y: 0 }, children }
    }

    /// The resolved size.
    pub fn size(&self) -> (s: Size)
        ensures
            s == self@.size,
    {
        self.size
    }

    /// The offset relative to the parent.
    pub fn offset(&self) -> (p: Point)
        ensures
            p == self@.offset,
    {
        self.offset
    }

    /// How many children the node owns.
    pub fn child_count(&self) -> (c: usize)
        ensures
            c == self@.children.len(),
    {
        proof {
            lemma_nodes_view(self.children@);
        }
        self.children.len()
    }

    /// A borrow of the child at `i`.
    pub fn child(&self, i: usize) -> (c: &Node)
        requires
            i < self@.children.len(),
        ensures
            c@ == self@.children[i as int],
    {
        proof {
            lemma_nodes_view(self.children@);
        }
        &self.children[i]
    }

    /// Sets this node's own offset; children keep theirs. The last write
    /// wins.
    pub fn move_to(&mut self, position: Point)
        ensures
            final(self)@.size == old(self)@.size,
            final(self)@.offset == position,
            final(self)@.children == old(self)@.children,
    {
        self.offset = position;
    }

    /// Repositions this node within a box of size `space`: each coordinate
    /// advances by the alignment shift of the node's extent within the
    /// box's extent. Children are not touched.
    pub fn align(&mut self, horizontal_alignment: Align, vertical_alignment: Align, space: Size)
        ensures
            final(self)@.size == old(self)@.size,
            final(self)@.children == old(self)@.children,
            final(self)@.offset.x == sat_add(
                old(self)@.offset.x,
                align_shift(horizontal_alignment, space.width, old(self)@.size.width),
            ),
            final(self)@.offset.y == sat_add(
                old(self)@.offset.y,
                align_shift(vertical_alignment, space.height, old(self)@.size.height),
            ),
    {
        let dx = crate::align::shift_for(horizontal_alignment, space.width, self.size.width);
        let dy = crate::align::shift_for(vertical_alignment, space.height, self.size.height);
        self.offset = Point {
            x: crate::geometry::add_sat(self.offset.x, dx),
            y: crate::geometry::add_sat(self.offset.y, dy),
        };
    }
}

} // verus!
