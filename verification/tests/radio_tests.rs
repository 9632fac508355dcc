use iced::event::Event;
use iced::layout::{Length, Limits, Point, Size};
use iced::mouse;
use iced::renderer::Null;
use iced::widget::{Element, Hasher, Radio, Row};

#[derive(Debug, Clone, Copy, PartialEq, Eq)]
enum Choice {
    A,
    B,
    C,
}

#[derive(Debug, Clone, Copy, PartialEq, Eq)]
enum Message {
    RadioSelected(Choice),
}

fn left_press() -> Event {
    Event::Mouse(mouse::Event::Input {
        state: mouse::ButtonState::Pressed,
        button: mouse::Button::Left,
    })
}

fn space(w: u32, h: u32) -> Limits {
    Limits::new(Size { width: 0, height: 0 }, Size { width: w, height: h })
}

#[test]
fn exactly_one_radio_of_a_group_is_selected() {
    let selected = Some(Choice::B);
    let radios: Vec<Radio<Message, Null>> = vec![
        Radio::new(Choice::A, "a", selected, Message::RadioSelected),
        Radio::new(Choice::B, "b", selected, Message::RadioSelected),
        Radio::new(Choice::C, "c", selected, Message::RadioSelected),
    ];
    let flags: Vec<bool> = radios.iter().map(|r| r.is_selected).collect();
    assert_eq!(flags, vec![false, true, false]);
    assert_eq!(flags.iter().filter(|f| **f).count(), 1);
}

#[test]
fn a_click_inside_synthesizes_exactly_one_message() {
    // value C is not the selected one; clicking it emits one message carrying C
    let radio: Radio<Message, Null> =
        Radio::new(Choice::C, "c", Some(Choice::A), Message::RadioSelected);
    let node = radio.layout(&Null, &space(200, 100));
    let mut messages: Vec<Message> = Vec::new();
    radio.on_event(
        &left_press(),
        &node,
        Point { x: 0, y: 0 },
        Point { x: 5, y: 5 },
        &mut messages,
    );
    assert_eq!(messages, vec![Message::RadioSelected(Choice::C)]);
}

#[test]
fn a_click_outside_synthesizes_nothing() {
    let radio: Radio<Message, Null> =
        Radio::new(Choice::C, "c", Some(Choice::A), Message::RadioSelected);
    let node = radio.layout(&Null, &space(200, 100));
    let mut messages: Vec<Message> = Vec::new();
    radio.on_event(
        &left_press(),
        &node,
        Point { x: 0, y: 0 },
        Point { x: 5, y: 500 },
        &mut messages,
    );
    let release = Event::Mouse(mouse::Event::Input {
        state: mouse::ButtonState::Released,
        button: mouse::Button::Left,
    });
    radio.on_event(&release, &node, Point { x: 0, y: 0 }, Point { x: 5, y: 5 }, &mut messages);
    assert!(messages.is_empty());
}

#[test]
fn a_row_forwards_the_event_to_the_child_under_the_cursor() {
    let selected = Some(Choice::A);
    let row: Row<Message, Null> = Row::new()
        .width(Length::Fill)
        .push(Element::Radio(Radio::new(Choice::B, "b", selected, Message::RadioSelected)))
        .push(Element::Radio(Radio::new(Choice::C, "c", selected, Message::RadioSelected)));
    let element = Element::Row(row);
    let node = element.layout(&Null, &space(200, 100));
    let origin = Point { x: 0, y: 0 };

    let mut messages: Vec<Message> = Vec::new();
    element.on_event(&left_press(), &node, origin, Point { x: 10, y: 5 }, &mut messages);
    assert_eq!(messages, vec![Message::RadioSelected(Choice::B)]);

    let mut messages: Vec<Message> = Vec::new();
    element.on_event(&left_press(), &node, origin, Point { x: 150, y: 5 }, &mut messages);
    assert_eq!(messages, vec![Message::RadioSelected(Choice::C)]);
}

#[test]
fn hash_layout_depends_on_the_label() {
    let a: Radio<Message, Null> = Radio::new(Choice::A, "same", None, Message::RadioSelected);
    let b: Radio<Message, Null> = Radio::new(Choice::B, "same", None, Message::RadioSelected);
    let c: Radio<Message, Null> = Radio::new(Choice::C, "other", None, Message::RadioSelected);
    let mut ha = Hasher::new();
    let mut hb = Hasher::new();
    let mut hc = Hasher::new();
    a.hash_layout(&mut ha);
    b.hash_layout(&mut hb);
    c.hash_layout(&mut hc);
    assert_eq!(ha.parts, hb.parts);
    assert_ne!(ha.parts, hc.parts);
}

#[test]
fn a_radio_becomes_an_element() {
    let radio: Radio<Message, Null> = Radio::new(Choice::A, "a", None, Message::RadioSelected);
    let element: Element<Message, Null> = Element::from(radio);
    assert!(matches!(element, Element::Radio(_)));
}

#[test]
fn drawing_reports_no_messages() {
    let radio: Radio<Message, Null> =
        Radio::new(Choice::A, "a", Some(Choice::A), Message::RadioSelected);
    let node = radio.layout(&Null, &space(200, 100));
    let mut renderer = Null;
    radio.draw(&mut renderer, &(), &node, Point { x: 0, y: 0 }, Point { x: 5, y: 5 });
}
