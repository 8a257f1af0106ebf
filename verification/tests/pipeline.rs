//! End-to-end scenarios for the sizer, the aligner and the builder.

use haussmann::Align;
use haussmann::Aligner;
use haussmann::Direction;
use haussmann::Drawable;
use haussmann::Label;
use haussmann::Layout;
use haussmann::LayoutError;
use haussmann::Object;
use haussmann::Overflow;
use haussmann::Point;
use haussmann::RGBA;
use haussmann::Size;
use haussmann::Sizer;
use haussmann::Surface;
use haussmann::Viewport;
use haussmann::Widget;
use haussmann::Zone;
use haussmann::widgets::Button;
use haussmann::widgets::Container;

fn surface(r: u32, g: u32, b: u32) -> Widget {
    Widget::Surface(Surface::new(RGBA::new(r, g, b, 255), None))
}

fn simple_layout(direction: Direction, wx: Align, wy: Align, widgets: Vec<Widget>) -> Layout {
    Layout::simple(Overflow::Ignore, wx, wy, direction, widgets)
}

#[test]
fn two_flexible_children_share_the_width() {
    // A visual row of two flexible children: each is a column strip
    // sharing the width and taking the full height.
    let layout = simple_layout(
        Direction::Column,
        Align::Center,
        Align::Center,
        vec![surface(255, 0, 0), surface(0, 255, 0)],
    );
    let sizes = Sizer::new(&layout).size_in(Size::new(300, 100));
    assert_eq!(sizes.len(), 3);
    assert_eq!(sizes[0], Size::new(300, 100));
    assert_eq!(sizes[1], Size::new(150, 100));
    assert_eq!(sizes[2], Size::new(150, 100));

    // Centered on both axes, the pair sits adjacent, flush inside the
    // 300 wide zone.
    let aligner = Aligner::new(&layout, sizes);
    let positions = aligner.align_at(Point::new(0, 0)).unwrap();
    assert_eq!(positions.len(), 3);
    assert_eq!(positions[0], Point::new(0, 0));
    assert_eq!(positions[1], Point::new(0, 0));
    assert_eq!(positions[2], Point::new(150, 0));
}

#[test]
fn fixed_child_keeps_its_size_and_flexible_takes_the_rest() {
    // A visual column: one fixed container of 100 by 50 and one
    // flexible child splitting what is left of the height.
    let container = Widget::Container(Container::new(Size::new(100, 50), surface(0, 0, 255)));
    let layout = simple_layout(
        Direction::Row,
        Align::Center,
        Align::Center,
        vec![container, surface(255, 0, 0)],
    );
    let sizes = Sizer::new(&layout).size_in(Size::new(200, 200));
    assert_eq!(sizes.len(), 3);
    assert_eq!(sizes[0], Size::new(200, 200));
    assert_eq!(sizes[1], Size::new(100, 50));
    assert_eq!(sizes[2], Size::new(200, 150));
}

#[test]
fn empty_layout_degrades_to_one_drawable() {
    let layout = simple_layout(Direction::Column, Align::Center, Align::Center, vec![]);
    let sizes = Sizer::new(&layout).size_in(Size::new(77, 33));
    assert_eq!(sizes.len(), 0);
    let aligner = Aligner::new(&layout, sizes);
    let positions = aligner.align_at(Point::new(5, 6)).unwrap();
    assert_eq!(positions.len(), 0);

    let layout = simple_layout(Direction::Column, Align::Center, Align::Center, vec![]);
    let view = Viewport::new(Zone::new(Point::new(5, 6), Size::new(77, 33)), layout);
    let drawables = view.build().unwrap();
    assert_eq!(drawables.len(), 1);
    assert_eq!(drawables[0].group_id, 0);
    assert_eq!(drawables[0].zone, Zone::new(Point::new(5, 6), Size::new(77, 33)));
}

#[test]
fn oversubscribed_fixed_children_clamp_the_flexible_size_to_zero() {
    let container = Widget::Container(Container::new(Size::new(500, 20), surface(0, 0, 255)));
    let layout = simple_layout(
        Direction::Column,
        Align::Left,
        Align::Top,
        vec![container, surface(255, 0, 0)],
    );
    let sizes = Sizer::new(&layout).size_in(Size::new(300, 100));
    assert_eq!(sizes[1], Size::new(500, 20));
    assert_eq!(sizes[2], Size::new(0, 100));
}

#[test]
fn leftover_with_remainder_is_conserved() {
    // Zone width 10, fixed width 3, two flexible children: each gets
    // (10 - 3) / 2 = 3, and 2 * 3 = 6 never exceeds the leftover 7.
    let container = Widget::Container(Container::new(Size::new(3, 1), surface(0, 0, 255)));
    let layout = simple_layout(
        Direction::Column,
        Align::Left,
        Align::Top,
        vec![container, surface(255, 0, 0), surface(0, 255, 0)],
    );
    let sizes = Sizer::new(&layout).size_in(Size::new(10, 4));
    assert_eq!(sizes[2], Size::new(3, 4));
    assert_eq!(sizes[3], Size::new(3, 4));
    assert!(2 * sizes[2].w <= 10 - 3);
}

#[test]
fn centering_leaves_balanced_leftover() {
    // Zone width 10, one child of width 3: space before is 3, space
    // after is 4, within one unit of each other.
    let layout = simple_layout(
        Direction::Column,
        Align::Center,
        Align::Top,
        vec![surface(255, 0, 0)],
    );
    let mut sizes = Sizer::new(&layout).size_in(Size::new(10, 4));
    sizes[1] = Size::new(3, 4);
    let aligner = Aligner::new(&layout, sizes);
    let positions = aligner.align_at(Point::new(0, 0)).unwrap();
    let before = positions[1].x;
    let after = 10 - (positions[1].x + 3);
    assert_eq!(before, 3);
    assert_eq!(after, 4);
    assert!((before - after).abs() <= 1);
}

#[test]
fn alignment_outside_its_axis_is_a_configuration_error() {
    let layout = simple_layout(
        Direction::Column,
        Align::Top,
        Align::Center,
        vec![surface(255, 0, 0)],
    );
    let sizes = Sizer::new(&layout).size_in(Size::new(300, 100));
    let aligner = Aligner::new(&layout, sizes);
    assert_eq!(
        aligner.align_at(Point::new(0, 0)).unwrap_err(),
        LayoutError::InvalidAlignX
    );

    let layout = simple_layout(
        Direction::Column,
        Align::Left,
        Align::Right,
        vec![surface(255, 0, 0)],
    );
    let view = Viewport::new(Zone::new(Point::new(0, 0), Size::new(300, 100)), layout);
    assert_eq!(view.build().unwrap_err(), LayoutError::InvalidAlignY);
}

#[test]
fn right_and_bottom_alignment_fill_towards_the_end() {
    let layout = simple_layout(
        Direction::Column,
        Align::Right,
        Align::Bottom,
        vec![surface(255, 0, 0), surface(0, 255, 0)],
    );
    let sizes = Sizer::new(&layout).size_in(Size::new(10, 8));
    let aligner = Aligner::new(&layout, sizes);
    let positions = aligner.align_at(Point::new(0, 0)).unwrap();
    // Each flexible child is 5 wide and 8 tall: the stack ends at the
    // right edge and each child touches the bottom.
    assert_eq!(positions[1], Point::new(0, 0));
    assert_eq!(positions[2], Point::new(5, 0));
}

fn group_ids(drawables: &[Drawable]) -> Vec<i32> {
    drawables.iter().map(|d| d.group_id).collect()
}

#[test]
fn group_ids_are_non_decreasing_and_gapless() {
    let inner = simple_layout(
        Direction::Column,
        Align::Left,
        Align::Top,
        vec![surface(1, 2, 3), surface(4, 5, 6)],
    );
    let layout = simple_layout(
        Direction::Column,
        Align::Center,
        Align::Center,
        vec![
            surface(255, 0, 0),
            Widget::Layout(inner),
            Widget::Button(Button::styled(RGBA::new(7, 7, 7, 255), Label::simple("ok"))),
        ],
    );
    let view = Viewport::new(Zone::new(Point::new(0, 0), Size::new(300, 100)), layout);
    let drawables = view.build().unwrap();
    let ids = group_ids(&drawables);
    assert_eq!(ids[0], 0);
    for j in 1..ids.len() {
        assert!(ids[j - 1] <= ids[j]);
        assert!(ids[j] <= ids[j - 1] + 1);
    }
    // Three child slots, one of them a layout with two slots below it.
    assert_eq!(*ids.last().unwrap(), 5);
}

#[test]
fn building_twice_yields_identical_drawables() {
    let inner = simple_layout(
        Direction::Row,
        Align::Left,
        Align::Top,
        vec![surface(1, 2, 3)],
    );
    let layout = simple_layout(
        Direction::Column,
        Align::Center,
        Align::Center,
        vec![surface(255, 0, 0), Widget::Layout(inner)],
    );
    let view = Viewport::new(Zone::new(Point::new(2, 3), Size::new(120, 80)), layout);
    let first = view.build().unwrap();
    let second = view.build().unwrap();
    assert_eq!(first.len(), second.len());
    for (a, b) in first.iter().zip(second.iter()) {
        assert_eq!(a.group_id, b.group_id);
        assert_eq!(a.zone, b.zone);
        match (&a.object, &b.object) {
            (Object::Surface(x), Object::Surface(y)) => assert_eq!(x, y),
            (Object::Label(x), Object::Label(y)) => assert_eq!(x, y),
            (Object::Image(x), Object::Image(y)) => assert_eq!(x, y),
            _ => panic!("drawable kinds differ between builds"),
        }
    }
}

#[test]
fn container_slot_expands_into_two_drawables_of_one_group() {
    let container = Widget::Container(Container::new(Size::new(40, 20), surface(9, 9, 9)));
    let layout = simple_layout(Direction::Column, Align::Left, Align::Top, vec![container]);
    let view = Viewport::new(Zone::new(Point::new(0, 0), Size::new(100, 50)), layout);
    let drawables = view.build().unwrap();
    // The layout's own surface, the container's own transparent
    // surface, and the contained widget's surface: the container slot
    // produced the last two, sharing its group.
    assert_eq!(drawables.len(), 3);
    assert_eq!(group_ids(&drawables), vec![0, 1, 1]);
    let fixed = Zone::new(Point::new(0, 0), Size::new(40, 20));
    assert_eq!(drawables[1].zone, fixed);
    assert_eq!(drawables[2].zone, fixed);
    match &drawables[1].object {
        Object::Surface(s) => assert_eq!(s.colour, RGBA::new(0, 0, 0, 0)),
        _ => panic!("the container's own drawable is not a surface"),
    }
    match &drawables[2].object {
        Object::Surface(s) => assert_eq!(s.colour, RGBA::new(9, 9, 9, 255)),
        _ => panic!("the contained widget's drawable is not a surface"),
    }
}

#[test]
fn button_expands_into_surface_and_centered_label() {
    let button = Widget::Button(Button::styled(
        RGBA::new(200, 0, 0, 255),
        Label::simple("press"),
    ));
    let layout = simple_layout(Direction::Column, Align::Left, Align::Top, vec![button]);
    let view = Viewport::new(Zone::new(Point::new(0, 0), Size::new(100, 50)), layout);
    let drawables = view.build().unwrap();
    assert_eq!(drawables.len(), 3);
    assert_eq!(group_ids(&drawables), vec![0, 1, 1]);
    match &drawables[1].object {
        Object::Surface(s) => assert_eq!(s.colour, RGBA::new(200, 0, 0, 255)),
        _ => panic!("the button's own drawable is not a surface"),
    }
    match &drawables[2].object {
        Object::Label(l) => assert_eq!(l.text, "press"),
        _ => panic!("the button's label was not emitted"),
    }
    // The label is flexible inside the expansion, so it takes the
    // button's whole zone.
    assert_eq!(drawables[2].zone, Zone::new(Point::new(0, 0), Size::new(100, 50)));
}

#[test]
fn rebuild_moves_the_viewport_and_rebuilds() {
    let layout = simple_layout(
        Direction::Column,
        Align::Left,
        Align::Top,
        vec![surface(1, 1, 1)],
    );
    let mut view = Viewport::new(Zone::new(Point::new(0, 0), Size::new(10, 10)), layout);
    let drawables = view.rebuild(Point::new(7, 8), Size::new(20, 30)).unwrap();
    assert_eq!(view.zone, Zone::new(Point::new(7, 8), Size::new(20, 30)));
    assert_eq!(drawables[0].zone, Zone::new(Point::new(7, 8), Size::new(20, 30)));
    assert_eq!(drawables[1].zone, Zone::new(Point::new(7, 8), Size::new(20, 30)));
}

#[test]
fn all_fixed_children_keep_their_sizes_after_the_zone_prefix() {
    let layout = simple_layout(
        Direction::Column,
        Align::Left,
        Align::Top,
        vec![
            Widget::Container(Container::new(Size::new(10, 20), surface(1, 1, 1))),
            Widget::Container(Container::new(Size::new(30, 40), surface(2, 2, 2))),
        ],
    );
    let sizes = Sizer::new(&layout).size_in(Size::new(100, 100));
    assert_eq!(sizes.len(), 3);
    assert_eq!(sizes[0], Size::new(100, 100));
    assert_eq!(sizes[1], Size::new(10, 20));
    assert_eq!(sizes[2], Size::new(30, 40));
    let aligner = Aligner::new(&layout, sizes);
    let positions = aligner.align_at(Point::new(0, 0)).unwrap();
    assert_eq!(positions.len(), 3);
    assert_eq!(positions[1], Point::new(0, 0));
    assert_eq!(positions[2], Point::new(10, 0));
}
