use iced::layout::{Align, Length, Limits, Size};
use iced::renderer::Null;
use iced::widget::{Element, Radio, Row, Text};

type E = Element<u32, Null>;

fn space(w: u32, h: u32) -> Limits {
    Limits::new(Size { width: 0, height: 0 }, Size { width: w, height: h })
}

fn fill_child() -> E {
    Element::Row(Row::new().width(Length::Fill).height(Length::Fill))
}

#[test]
fn two_fill_children_split_the_space_around_the_gap() {
    // 200 units with a spacing of 20: each fill child gets 90, at 0 and 110
    let row: Row<u32, Null> = Row::new()
        .width(Length::Fill)
        .spacing(20)
        .push(fill_child())
        .push(fill_child());
    let node = row.layout(&Null, &space(200, 100));
    assert_eq!(node.bounds.width, 200);
    assert_eq!(node.children.len(), 2);
    assert_eq!(node.children[0].bounds.x, 0);
    assert_eq!(node.children[0].bounds.width, 90);
    assert_eq!(node.children[1].bounds.x, 110);
    assert_eq!(node.children[1].bounds.width, 90);
    assert_eq!(node.children[0].bounds.height, node.bounds.height);
    assert_eq!(node.children[1].bounds.height, node.bounds.height);
}

#[test]
fn fill_remainder_goes_to_the_first_child() {
    let row: Row<u32, Null> = Row::new()
        .width(Length::Fill)
        .push(fill_child())
        .push(fill_child())
        .push(fill_child());
    let node = row.layout(&Null, &space(100, 10));
    let widths: Vec<u32> = node.children.iter().map(|c| c.bounds.width).collect();
    assert_eq!(widths, vec![34, 33, 33]);
}

#[test]
fn fixed_units_are_clamped_into_the_offer() {
    let row: Row<u32, Null> = Row::new()
        .width(Length::Shrink)
        .push(Element::Row(Row::new().width(Length::Units(30)).height(Length::Units(40))));
    let node = row.layout(&Null, &space(200, 25));
    assert_eq!(node.children[0].bounds.width, 30);
    // the child wanted 40 units of height but only 25 were offered
    assert_eq!(node.children[0].bounds.height, 25);
}

#[test]
fn an_empty_row_is_a_zero_size_node() {
    let row: Row<u32, Null> = Row::new().width(Length::Shrink).height(Length::Shrink);
    let node = row.layout(&Null, &space(200, 100));
    assert_eq!((node.bounds.width, node.bounds.height), (0, 0));
    assert!(node.children.is_empty());
}

#[test]
fn every_computed_size_stays_within_the_limits() {
    let row: Row<u32, Null> = Row::new()
        .width(Length::Fill)
        .spacing(7)
        .push(Element::Row(Row::new().width(Length::Units(500)).height(Length::Units(500))))
        .push(fill_child())
        .push(Element::Text(Text::new(String::from("label"))));
    let node = row.layout(&Null, &space(120, 40));
    assert!(node.bounds.width <= 120 && node.bounds.height <= 40);
    for child in &node.children {
        assert!(child.bounds.width <= 120, "child too wide");
        assert!(child.bounds.height <= 40, "child too tall");
    }
}

#[test]
fn radio_lays_out_marker_then_centered_label() {
    let radio: Radio<u32, Null> = Radio::new(1u8, "pick me", Some(1u8), |_v| 7u32);
    let node = radio.layout(&Null, &space(200, 100));
    // the radio fills the offered width; the marker is the default 28 units
    assert_eq!(node.bounds.width, 200);
    assert_eq!(node.bounds.height, 28);
    assert_eq!(node.children.len(), 2);
    assert_eq!(node.children[0].bounds.width, 28);
    assert_eq!(node.children[0].bounds.height, 28);
    // the label starts after the marker and the fixed gap of 15
    assert_eq!(node.children[1].bounds.x, 43);
}

#[test]
fn degenerate_limits_force_degenerate_sizes() {
    let row: Row<u32, Null> = Row::new().width(Length::Fill).push(fill_child());
    let node = row.layout(&Null, &space(0, 0));
    assert_eq!((node.bounds.width, node.bounds.height), (0, 0));
    assert_eq!(node.children[0].bounds.width, 0);
}

#[test]
fn malformed_limits_are_clamped_not_propagated() {
    // a maximum below the minimum is corrected on construction
    let limits = Limits::new(Size { width: 50, height: 50 }, Size { width: 10, height: 10 });
    assert_eq!(limits.max.width, 50);
    assert_eq!(limits.max.height, 50);
}

#[test]
fn alignment_offsets_children_on_the_cross_axis() {
    let small = Element::Row(Row::new().width(Length::Units(10)).height(Length::Units(10)));
    let tall = Element::Row(Row::new().width(Length::Units(10)).height(Length::Units(50)));
    let row: Row<u32, Null> = Row::new()
        .width(Length::Shrink)
        .align_items(Align::Center)
        .push(small)
        .push(tall);
    let node = row.layout(&Null, &space(100, 50));
    assert_eq!(node.bounds.height, 50);
    assert_eq!(node.children[0].bounds.y, 20);
    assert_eq!(node.children[1].bounds.y, 0);
}
