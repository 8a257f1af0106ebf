//! Scenarios for hit-testing and the controller browser.

use haussmann::Align;
use haussmann::Detector;
use haussmann::Direction;
use haussmann::Drawable;
use haussmann::DrawableAt;
use haussmann::Layout;
use haussmann::Object;
use haussmann::Overflow;
use haussmann::Point;
use haussmann::RGBA;
use haussmann::Size;
use haussmann::Surface;
use haussmann::TapHandler;
use haussmann::Viewport;
use haussmann::Widget;
use haussmann::Zone;
use haussmann::Controller;
use haussmann::is_tapped;

fn surface(r: u32, g: u32, b: u32) -> Widget {
    Widget::Surface(Surface::new(RGBA::new(r, g, b, 255), None))
}

fn zone(x: isize, y: isize, w: usize, h: usize) -> Zone {
    Zone::new(Point::new(x, y), Size::new(w, h))
}

#[test]
fn points_on_the_boundary_are_inside() {
    let z = zone(10, 20, 30, 40);
    assert!(is_tapped(Point::new(10, 20), z));
    assert!(is_tapped(Point::new(40, 60), z));
    assert!(is_tapped(Point::new(10, 60), z));
    assert!(is_tapped(Point::new(40, 20), z));
    assert!(is_tapped(Point::new(25, 35), z));
}

#[test]
fn points_one_unit_outside_are_outside() {
    let z = zone(10, 20, 30, 40);
    assert!(!is_tapped(Point::new(9, 20), z));
    assert!(!is_tapped(Point::new(41, 20), z));
    assert!(!is_tapped(Point::new(10, 19), z));
    assert!(!is_tapped(Point::new(10, 61), z));
}

#[test]
fn lookup_finds_the_first_drawable_of_a_group() {
    let d = |group_id: i32, x: isize| Drawable::new(
        Object::Surface(Surface::normal()),
        zone(x, 0, 1, 1),
        group_id,
    );
    let drawables = vec![d(0, 0), d(1, 10), d(1, 20), d(2, 30)];
    assert_eq!(drawables.at(1).unwrap().zone, zone(10, 0, 1, 1));
    assert_eq!(drawables.at(2).unwrap().zone, zone(30, 0, 1, 1));
    assert!(drawables.at(7).is_none());
}

struct TapCount {
    tap: Point,
    count: usize,
}

impl TapHandler for TapCount {
    fn on_controller(&mut self, controller: &mut Detector) {
        if is_tapped(self.tap, controller.zone) {
            self.count += 1;
        }
    }
}

fn tappable_view() -> Viewport {
    let detector = Widget::Controller(Detector::new(surface(200, 0, 0)));
    let layout = Layout::simple(
        Overflow::Ignore,
        Align::Left,
        Align::Top,
        Direction::Column,
        vec![detector],
    );
    Viewport::new(zone(0, 0, 300, 100), layout)
}

#[test]
fn tap_inside_the_built_zone_invokes_the_callback_once() {
    let mut view = tappable_view();
    let drawables = view.build().unwrap();
    let mut handler = TapCount { tap: Point::new(10, 10), count: 0 };
    view.controllers(&drawables, &mut handler);
    assert_eq!(handler.count, 1);
}

#[test]
fn tap_one_unit_outside_does_not_invoke_the_callback() {
    let mut view = tappable_view();
    let drawables = view.build().unwrap();
    let mut handler = TapCount { tap: Point::new(10, 101), count: 0 };
    view.controllers(&drawables, &mut handler);
    assert_eq!(handler.count, 0);
}

#[test]
fn browsing_rebinds_the_controller_to_its_built_zone() {
    let mut view = tappable_view();
    let drawables = view.build().unwrap();
    view.update_controllers(&drawables);
    match &view.layout.widgets[0] {
        Widget::Controller(d) => assert_eq!(d.zone, zone(0, 0, 300, 100)),
        _ => panic!("the controller slot changed kind"),
    }
}

#[test]
fn a_resize_rebinds_controllers_to_fresh_zones() {
    let mut view = tappable_view();
    let drawables = view.rebuild(Point::new(5, 5), Size::new(40, 20)).unwrap();
    view.update_controllers(&drawables);
    match &view.layout.widgets[0] {
        Widget::Controller(d) => assert_eq!(d.zone, zone(5, 5, 40, 20)),
        _ => panic!("the controller slot changed kind"),
    }
}

#[test]
fn controllers_nested_in_layouts_are_matched_to_their_slots() {
    // Root: [surface, inner layout [detector]]: the detector's slot is
    // the fourth group (root 0, surface 1, inner layout 2, detector 3).
    let inner = Layout::simple(
        Overflow::Ignore,
        Align::Left,
        Align::Top,
        Direction::Column,
        vec![Widget::Controller(Detector::new(surface(1, 2, 3)))],
    );
    let layout = Layout::simple(
        Overflow::Ignore,
        Align::Left,
        Align::Top,
        Direction::Column,
        vec![surface(250, 250, 250), Widget::Layout(inner)],
    );
    let mut view = Viewport::new(zone(0, 0, 200, 100), layout);
    let drawables = view.build().unwrap();
    assert_eq!(drawables.last().unwrap().group_id, 3);
    view.update_controllers(&drawables);
    match &view.layout.widgets[1] {
        Widget::Layout(inner) => match &inner.widgets[0] {
            // Two columns share the root: the inner layout covers
            // (100, 0)-(200, 100); its single child takes all of it.
            Widget::Controller(d) => assert_eq!(d.zone, zone(100, 0, 100, 100)),
            _ => panic!("the nested controller slot changed kind"),
        },
        _ => panic!("the inner layout slot changed kind"),
    }
}

#[test]
fn the_controller_interface_updates_and_reads_the_zone() {
    let mut detector = Detector::new(surface(1, 2, 3));
    assert_eq!(*detector.zone(), zone(0, 0, 0, 0));
    detector.update(zone(3, 4, 5, 6));
    assert_eq!(*detector.zone(), zone(3, 4, 5, 6));
}
