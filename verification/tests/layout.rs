use layered_flex::align::Align;
use layered_flex::fixed::Fixed;
use layered_flex::flex::{resolve, Axis};
use layered_flex::geometry::{Bound, MaxSize, Point, Size};
use layered_flex::length::Length;
use layered_flex::limits::Limits;
use layered_flex::node::Node;
use layered_flex::participant::Renderer;

struct TestBackend;

impl Renderer for TestBackend {}

fn bounded(width: u32, height: u32) -> Limits {
    Limits::new(
        Size::new(0, 0),
        MaxSize::new(Bound::Finite(width), Bound::Finite(height)),
    )
}

fn unbounded() -> Limits {
    Limits::new(Size::new(0, 0), MaxSize::new(Bound::Infinite, Bound::Infinite))
}

fn run(
    axis: Axis,
    limits: &Limits,
    padding: u16,
    spacing: u16,
    align: Align,
    items: Vec<Fixed>,
) -> Node {
    resolve(axis, &TestBackend, limits, padding, spacing, align, &items)
}

#[test]
fn equal_fill_shares_sum_to_available() {
    let items = vec![
        Fixed::new(Size::new(10, 20)).width(Length::Fill),
        Fixed::new(Size::new(10, 20)).width(Length::Fill),
        Fixed::new(Size::new(10, 20)).width(Length::Fill),
    ];
    let node = run(Axis::Horizontal, &bounded(300, 100), 0, 0, Align::Start, items);
    assert_eq!(node.child_count(), 3);
    let mut sum = 0;
    for i in 0..3 {
        assert_eq!(node.child(i).size().width, 100);
        sum += node.child(i).size().width;
    }
    assert_eq!(sum, 300);
    assert_eq!(node.size(), Size::new(300, 20));
    assert_eq!(node.child(0).offset(), Point::new(0, 0));
    assert_eq!(node.child(1).offset(), Point::new(100, 0));
    assert_eq!(node.child(2).offset(), Point::new(200, 0));
}

#[test]
fn equal_fill_shares_with_remainder_floor() {
    // 10 pixels over 3 children: each gets the floored quotient.
    let items = vec![
        Fixed::new(Size::new(0, 5)).width(Length::Fill),
        Fixed::new(Size::new(0, 5)).width(Length::Fill),
        Fixed::new(Size::new(0, 5)).width(Length::Fill),
    ];
    let node = run(Axis::Horizontal, &bounded(10, 100), 0, 0, Align::Start, items);
    for i in 0..3 {
        assert_eq!(node.child(i).size().width, 3);
    }
}

#[test]
fn fill_portions_split_proportionally() {
    let items = vec![
        Fixed::new(Size::new(0, 5)).width(Length::FillPortion(1)),
        Fixed::new(Size::new(0, 5)).width(Length::FillPortion(3)),
    ];
    let node = run(Axis::Horizontal, &bounded(100, 100), 0, 0, Align::Start, items);
    assert_eq!(node.child(0).size().width, 25);
    assert_eq!(node.child(1).size().width, 75);
}

#[test]
fn intrinsic_child_unaffected_by_sibling_fill() {
    let weak = vec![
        Fixed::new(Size::new(50, 20)),
        Fixed::new(Size::new(0, 5)).width(Length::Fill),
    ];
    let strong = vec![
        Fixed::new(Size::new(50, 20)),
        Fixed::new(Size::new(0, 5)).width(Length::FillPortion(5)),
    ];
    let with_weak = run(Axis::Horizontal, &bounded(200, 100), 0, 0, Align::Start, weak);
    let with_strong = run(Axis::Horizontal, &bounded(200, 100), 0, 0, Align::Start, strong);
    assert_eq!(with_weak.child(0).size(), Size::new(50, 20));
    assert_eq!(with_strong.child(0).size(), Size::new(50, 20));
}

#[test]
fn layers_overlap_and_bound_by_maxima() {
    let items = vec![
        Fixed::new(Size::new(50, 50)).on_layer(0),
        Fixed::new(Size::new(80, 30)).on_layer(1),
    ];
    let node = run(Axis::Horizontal, &bounded(1000, 1000), 0, 0, Align::Start, items);
    // Max per dimension across layers, not the sum.
    assert_eq!(node.size(), Size::new(80, 50));
    assert_eq!(node.child_count(), 2);
    // Each layer flows from the same origin.
    assert_eq!(node.child(0).offset(), Point::new(0, 0));
    assert_eq!(node.child(1).offset(), Point::new(0, 0));
}

#[test]
fn output_groups_by_ascending_layer_keeping_relative_order() {
    let items = vec![
        Fixed::new(Size::new(10, 10)).on_layer(0),
        Fixed::new(Size::new(20, 10)).on_layer(1),
        Fixed::new(Size::new(30, 10)).on_layer(0),
    ];
    let node = run(Axis::Horizontal, &bounded(1000, 1000), 0, 0, Align::Start, items);
    assert_eq!(node.child_count(), 3);
    // [A(0), B(1), C(0)] comes out as [A, C, B].
    assert_eq!(node.child(0).size().width, 10);
    assert_eq!(node.child(1).size().width, 30);
    assert_eq!(node.child(2).size().width, 20);
    // Layer 0 flows A then C; layer 1 restarts at the origin.
    assert_eq!(node.child(0).offset().x, 0);
    assert_eq!(node.child(1).offset().x, 10);
    assert_eq!(node.child(2).offset().x, 0);
}

#[test]
fn center_alignment_offsets_by_half_the_leftover() {
    let items = vec![Fixed::new(Size::new(10, 30)), Fixed::new(Size::new(20, 10))];
    let node = run(Axis::Horizontal, &bounded(100, 100), 0, 0, Align::Center, items);
    // Group cross extent is 30; a child of cross size 10 is offset by 10.
    assert_eq!(node.child(0).offset(), Point::new(0, 0));
    assert_eq!(node.child(1).offset(), Point::new(10, 10));
}

#[test]
fn end_alignment_offsets_by_the_whole_leftover() {
    let items = vec![Fixed::new(Size::new(10, 30)), Fixed::new(Size::new(20, 10))];
    let node = run(Axis::Horizontal, &bounded(100, 100), 0, 0, Align::End, items);
    assert_eq!(node.child(1).offset(), Point::new(10, 20));
}

#[test]
fn padding_round_trip() {
    let items = vec![Fixed::new(Size::new(20, 10))];
    let node = run(Axis::Horizontal, &bounded(100, 100), 7, 0, Align::Start, items);
    assert_eq!(node.size(), Size::new(34, 24));
    assert_eq!(node.child(0).offset(), Point::new(7, 7));
    assert_eq!(node.child(0).size(), Size::new(20, 10));
}

#[test]
fn resolve_is_idempotent() {
    let make = || {
        vec![
            Fixed::new(Size::new(50, 50)).on_layer(2),
            Fixed::new(Size::new(10, 20)).width(Length::Fill),
            Fixed::new(Size::new(80, 30)).on_layer(-1),
        ]
    };
    let first = run(Axis::Vertical, &bounded(300, 200), 3, 4, Align::Center, make());
    let second = run(Axis::Vertical, &bounded(300, 200), 3, 4, Align::Center, make());
    assert_eq!(first, second);
}

#[test]
fn infinite_room_with_fill_child_completes() {
    let items = vec![Fixed::new(Size::new(25, 15)).width(Length::Fill)];
    let node = run(Axis::Horizontal, &unbounded(), 0, 0, Align::Start, items);
    // The unlimited maximum does not become a minimum: the child keeps its
    // intrinsic width.
    assert_eq!(node.child(0).size(), Size::new(25, 15));
    assert_eq!(node.size(), Size::new(25, 15));
}

#[test]
fn vertical_axis_swaps_main_and_cross() {
    let items = vec![Fixed::new(Size::new(30, 10)), Fixed::new(Size::new(20, 40))];
    let node = run(Axis::Vertical, &bounded(100, 100), 0, 2, Align::Start, items);
    assert_eq!(node.child(0).offset(), Point::new(0, 0));
    assert_eq!(node.child(1).offset(), Point::new(0, 12));
    assert_eq!(node.size(), Size::new(30, 52));
}

#[test]
fn spacing_only_between_members_of_one_layer() {
    let items = vec![
        Fixed::new(Size::new(10, 10)).on_layer(0),
        Fixed::new(Size::new(10, 10)).on_layer(1),
    ];
    let node = run(Axis::Horizontal, &bounded(100, 100), 0, 9, Align::Start, items);
    // One child per layer: no gap is inserted anywhere.
    assert_eq!(node.size(), Size::new(10, 10));
    assert_eq!(node.child(1).offset().x, 0);
}
