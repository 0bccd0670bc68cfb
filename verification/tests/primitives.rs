use layered_flex::align::Align;
use layered_flex::block::Block;
use layered_flex::fixed::Fixed;
use layered_flex::flex::Axis;
use layered_flex::geometry::{Bound, MaxSize, Point, Size};
use layered_flex::layer::Layer;
use layered_flex::length::Length;
use layered_flex::limits::Limits;
use layered_flex::node::Node;
use layered_flex::participant::{Headless, Participant};

#[test]
fn pack_inverts_main_and_cross() {
    let size = Size::new(12, 34);
    for axis in [Axis::Horizontal, Axis::Vertical] {
        let packed = axis.pack(axis.main(size), axis.cross(size));
        assert_eq!(packed, (size.width, size.height));
    }
    assert_eq!(Axis::Horizontal.main(size), 12);
    assert_eq!(Axis::Horizontal.cross(size), 34);
    assert_eq!(Axis::Vertical.main(size), 34);
    assert_eq!(Axis::Vertical.cross(size), 12);
}

#[test]
fn limits_pad_floors_at_zero() {
    let limits = Limits::new(
        Size::new(0, 0),
        MaxSize::new(Bound::Finite(5), Bound::Finite(5)),
    );
    let padded = limits.pad(10);
    assert_eq!(padded.min(), Size::new(0, 0));
    assert_eq!(padded.max(), MaxSize::new(Bound::Finite(0), Bound::Finite(0)));
    assert_eq!(padded.resolve(Size::new(3, 3)), Size::new(0, 0));
}

#[test]
fn limits_pad_keeps_infinite_room() {
    let limits = Limits::new(Size::new(4, 4), MaxSize::new(Bound::Infinite, Bound::Finite(40)));
    let padded = limits.pad(3);
    assert_eq!(padded.min(), Size::new(0, 0));
    assert_eq!(padded.max(), MaxSize::new(Bound::Infinite, Bound::Finite(34)));
}

#[test]
fn limits_loose_drops_the_minimum() {
    let limits = Limits::new(Size::new(10, 20), MaxSize::new(Bound::Finite(50), Bound::Finite(60)));
    let loose = limits.loose();
    assert_eq!(loose.min(), Size::new(0, 0));
    assert_eq!(loose.max(), limits.max());
}

#[test]
fn limits_width_units_clamps_both_bounds() {
    let limits = Limits::new(Size::new(0, 0), MaxSize::new(Bound::Finite(30), Bound::Finite(30)));
    let narrowed = limits.width(Length::Units(50));
    assert_eq!(narrowed.min().width, 30);
    assert_eq!(narrowed.max().width, Bound::Finite(30));
    let exact = limits.width(Length::Units(12));
    assert_eq!(exact.min().width, 12);
    assert_eq!(exact.max().width, Bound::Finite(12));
}

#[test]
fn limits_resolve_prefers_the_minimum_on_inversion() {
    let limits = Limits::new(Size::new(10, 10), MaxSize::new(Bound::Finite(5), Bound::Finite(5)));
    assert_eq!(limits.resolve(Size::new(7, 2)), Size::new(10, 10));
}

#[test]
fn node_move_to_then_align_accumulates() {
    let mut node = Node::new(Size::new(10, 10));
    node.move_to(Point::new(3, 4));
    node.align(Align::End, Align::End, Size::new(20, 20));
    assert_eq!(node.offset(), Point::new(13, 14));
    node.move_to(Point::new(1, 1));
    assert_eq!(node.offset(), Point::new(1, 1));
    assert_eq!(node.size(), Size::new(10, 10));
}

#[test]
fn align_within_a_smaller_box_does_not_move_backwards() {
    let mut node = Node::new(Size::new(10, 10));
    node.align(Align::Center, Align::End, Size::new(4, 4));
    assert_eq!(node.offset(), Point::new(0, 0));
}

#[test]
fn fixed_layout_is_the_resolved_content() {
    let item = Fixed::new(Size::new(20, 10)).width(Length::Units(5));
    let limits = Limits::new(Size::new(0, 0), MaxSize::new(Bound::Finite(50), Bound::Finite(8)));
    let node = Participant::<Headless>::layout(&item, &Headless, &limits);
    assert_eq!(node.size(), Size::new(5, 8));
    assert_eq!(node.child_count(), 0);
}

#[test]
fn layer_defaults_to_layer_one() {
    let wrapped = Layer::new(Fixed::new(Size::new(10, 10)));
    assert_eq!(wrapped.layer_num, 1);
    assert_eq!(wrapped.max_width, u32::MAX);
    let lowered = wrapped.layer_num(-3);
    assert_eq!(lowered.layer_num, -3);
    assert_eq!(Participant::<Headless>::layer(&lowered), -3);
}

#[test]
fn layer_wraps_its_content_in_one_node() {
    let wrapped = Layer::new(Fixed::new(Size::new(30, 20)));
    let limits = Limits::new(Size::new(0, 0), MaxSize::new(Bound::Finite(100), Bound::Finite(100)));
    let node = Participant::<Headless>::layout(&wrapped, &Headless, &limits);
    assert_eq!(node.size(), Size::new(30, 20));
    assert_eq!(node.child_count(), 1);
    assert_eq!(node.child(0).size(), Size::new(30, 20));
}

#[test]
fn block_builders_configure_the_block() {
    let block: Block<Fixed> = Block::new(Axis::Horizontal)
        .spacing(5)
        .padding(2)
        .width(Length::Fill)
        .height(Length::Units(40))
        .max_width(500)
        .max_height(400)
        .align_items(Align::Center)
        .push(Fixed::new(Size::new(10, 10)));
    assert_eq!(block.spacing, 5);
    assert_eq!(block.padding, 2);
    assert_eq!(block.width, Length::Fill);
    assert_eq!(block.height, Length::Units(40));
    assert_eq!(block.max_width, 500);
    assert_eq!(block.max_height, 400);
    // On a horizontal axis the cross axis is vertical.
    assert_eq!(block.vertical_alignment, Align::Center);
    assert_eq!(block.horizontal_alignment, Align::Start);
    assert_eq!(block.children.len(), 1);
    let centered = block.center_x().flex_axis(Axis::Vertical);
    assert_eq!(centered.horizontal_alignment, Align::Center);
    assert!(matches!(centered.flex_axis, Axis::Vertical));
}

#[test]
fn block_layout_pads_spaces_and_reports_its_size() {
    let block = Block::with_children(
        vec![Fixed::new(Size::new(30, 20)), Fixed::new(Size::new(40, 10))],
        Axis::Horizontal,
    )
    .spacing(5)
    .padding(2);
    let limits = Limits::new(Size::new(0, 0), MaxSize::new(Bound::Finite(200), Bound::Finite(100)));
    let node = block.layout(&Headless, &limits);
    assert_eq!(node.size(), Size::new(79, 24));
    assert_eq!(node.child_count(), 2);
    assert_eq!(node.child(0).offset(), Point::new(2, 2));
    assert_eq!(node.child(1).offset(), Point::new(37, 2));
}

#[test]
fn nested_blocks_lay_out_recursively() {
    let inner = Block::with_children(
        vec![Fixed::new(Size::new(10, 10)), Fixed::new(Size::new(10, 10))],
        Axis::Vertical,
    );
    let outer = Block::with_children(vec![inner], Axis::Horizontal);
    let limits = Limits::new(Size::new(0, 0), MaxSize::new(Bound::Finite(100), Bound::Finite(100)));
    let node = outer.layout(&Headless, &limits);
    assert_eq!(node.size(), Size::new(10, 20));
    assert_eq!(node.child_count(), 1);
    assert_eq!(node.child(0).child_count(), 2);
    assert_eq!(node.child(0).child(1).offset(), Point::new(0, 10));
}
