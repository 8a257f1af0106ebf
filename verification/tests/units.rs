//! Unit tests of the value objects: colours, borders, fonts, widgets.

use haussmann::Align;
use haussmann::Border;
use haussmann::Direction;
use haussmann::Font;
use haussmann::FontFamily;
use haussmann::FontWeight;
use haussmann::Label;
use haussmann::Layout;
use haussmann::LayoutError;
use haussmann::Overflow;
use haussmann::Point;
use haussmann::RGBA;
use haussmann::Side;
use haussmann::Size;
use haussmann::Surface;
use haussmann::Viewport;
use haussmann::Widget;
use haussmann::Zone;
use haussmann::widgets::Button;

#[test]
fn hex_colours_unpack_byte_by_byte() {
    let c = RGBA::from_hex(0xFF000000);
    assert_eq!(c, RGBA::new(1, 0, 0, 0));
    let c = RGBA::from_hex(0x00FF0000);
    assert_eq!(c, RGBA::new(0, 1, 0, 0));
    let c = RGBA::from_hex(0x0000FFFF);
    assert_eq!(c, RGBA::new(0, 0, 1, 1));
}

#[test]
fn colours_pack_alpha_first() {
    assert_eq!(RGBA::new(1, 2, 3, 4).to_hex(), 0x04030201);
    assert_eq!(RGBA::new(0, 0, 0, 0).to_hex(), 0);
}

#[test]
fn borders_cover_their_side_of_the_parent() {
    let parent = Zone::new(Point::new(10, 20), Size::new(100, 50));
    let c = RGBA::new(0, 0, 0, 255);
    let left = Border::new(3, c, Side::Left).as_zone(&parent);
    assert_eq!(left, Zone::new(Point::new(10, 20), Size::new(3, 50)));
    let right = Border::new(3, c, Side::Right).as_zone(&parent);
    assert_eq!(right, Zone::new(Point::new(110, 20), Size::new(3, 50)));
    let top = Border::new(2, c, Side::Top).as_zone(&parent);
    assert_eq!(top, Zone::new(Point::new(10, 20), Size::new(100, 2)));
    let bottom = Border::new(2, c, Side::Bottom).as_zone(&parent);
    assert_eq!(bottom, Zone::new(Point::new(10, 70), Size::new(100, 2)));
}

#[test]
fn font_families_pair_each_weight_with_one_font() {
    let regular = Font { name: "Inter".to_string(), path: "fonts/inter.ttf".to_string() };
    let bold = Font { name: "Inter Bold".to_string(), path: "fonts/inter-bold.ttf".to_string() };
    let family = FontFamily {
        name: "Inter".to_string(),
        fonts: vec![(FontWeight::Regular, regular.clone()), (FontWeight::Bold, bold.clone())],
    };
    assert_eq!(family.font(FontWeight::Bold), Some(&bold));
    assert_eq!(family.font(FontWeight::Regular), Some(&regular));
    assert_eq!(family.font(FontWeight::Thin), None);
    assert_eq!(FontWeight::default(), FontWeight::Regular);
}

#[test]
fn the_default_layout_is_empty_and_centered() {
    let layout = Layout::default();
    assert_eq!(layout.colour, RGBA::new(0, 0, 0, 0));
    assert!(layout.borders.is_none());
    assert_eq!(layout.overflow, Overflow::Ignore);
    assert_eq!(layout.wx_align, Align::Center);
    assert_eq!(layout.wy_align, Align::Center);
    assert_eq!(layout.direction, Direction::Column);
    assert!(layout.widgets.is_empty());
}

#[test]
fn building_a_clone_matches_building_the_original() {
    let layout = Layout::coloured(
        RGBA::new(9, 8, 7, 255),
        Overflow::Hide,
        Align::Center,
        Align::Center,
        Direction::Column,
        vec![
            Widget::Button(Button::normal(Label::simple("go"))),
            Widget::Surface(Surface::normal()),
        ],
    );
    let copy = layout.clone();
    let zone = Zone::new(Point::new(0, 0), Size::new(60, 40));
    let a = Viewport::new(zone, layout).build().unwrap();
    let b = Viewport::new(zone, copy).build().unwrap();
    assert_eq!(a.len(), b.len());
    for (x, y) in a.iter().zip(b.iter()) {
        assert_eq!(x.group_id, y.group_id);
        assert_eq!(x.zone, y.zone);
    }
}

#[test]
fn widgets_report_their_colour() {
    let c = RGBA::new(5, 6, 7, 255);
    assert_eq!(Widget::Surface(Surface::new(c, None)).colour(), c);
    assert_eq!(Widget::Label(Label::new("hi", c)).colour(), c);
    assert_eq!(Widget::Button(Button::styled(c, Label::simple("b"))).colour(), c);
}

#[test]
fn errors_describe_their_axis() {
    assert!(LayoutError::InvalidAlignX.describe().contains("x axis"));
    assert!(LayoutError::InvalidAlignY.describe().contains("y axis"));
}
