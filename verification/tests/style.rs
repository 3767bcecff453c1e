use kool::language::value::Value;
use kool::style::color::Color;
use kool::style::common::{Align, CommonStyle, Corners, Length, Sides, DEFAULT_TEXT_SIZE};
use kool::style::key::{AsStyleKey, Status, StyleKey};
use kool::style::tree::StyleTree;

fn s(text: &str) -> Value {
    Value::String(text.to_owned())
}

fn map(pairs: Vec<(&str, Value)>) -> Value {
    Value::HashMap(pairs.into_iter().map(|(k, v)| (s(k), v)).collect())
}

#[test]
fn key_join_and_split() {
    let joined = StyleKey::from_text("button").join(&StyleKey::from_text("hovered"));
    assert_eq!(joined.as_str(), "button.hovered");
    let (base, rest) = joined.base_and_rest();
    assert_eq!(base.as_str(), "button");
    assert_eq!(rest.expect("has a rest").as_str(), "hovered");
    assert!(!joined.is_base());
    assert!(StyleKey::from_text("button").is_base());
    assert!(StyleKey::new(String::new()).is_empty());
    let same = StyleKey::from_text("a").join(&StyleKey::new(String::new()));
    assert_eq!(same.as_str(), "a");
}

#[test]
fn base_and_rest_splits_at_the_first_dot() {
    let (base, rest) = StyleKey::from_text("a.b.c").base_and_rest();
    assert_eq!(base.as_str(), "a");
    assert_eq!(rest.expect("has a rest").as_str(), "b.c");
    let (base, rest) = StyleKey::from_text("plain").base_and_rest();
    assert_eq!(base.as_str(), "plain");
    assert!(rest.is_none());
}

#[test]
fn status_keys() {
    assert_eq!(Status::Hovered.as_style_key().as_str(), "hovered");
    assert_eq!(Status::Dragged.as_style_key().as_str(), "dragged");
}

#[test]
fn colors_from_text() {
    assert!(matches!(Color::parse("#11223344"), Ok(Color::Hex(0x11223344))));
    // Six digits or fewer are RGB, read as RGBA with the alpha FF.
    assert!(matches!(Color::parse("#FF0000"), Ok(Color::Hex(0xFF0000FF))));
    assert!(matches!(Color::parse("+ff"), Ok(Color::Hex(0x0000FFFF))));
    assert!(Color::parse("#xyz").is_err());
    assert!(Color::parse("").is_err());
    assert!(Color::parse("123456789").is_err());
}

#[test]
fn colors_from_values() {
    let rgb = Value::Array(vec![Value::Int(1), Value::Int(2), Value::Int(300)]);
    assert_eq!(Color::from_value(&rgb), Color::RgbaU8(1, 2, 44, 255));
    let rgba = Value::Array(vec![Value::Int(1), Value::Int(2), Value::Int(3), Value::Int(4)]);
    assert_eq!(Color::from_value(&rgba), Color::RgbaU8(1, 2, 3, 4));
    assert_eq!(Color::from_value(&Value::Array(vec![Value::Int(1)])), Color::Hex(0xFF));
    assert_eq!(Color::from_value(&s("nope")), Color::Hex(0xFF));
    assert_eq!(Color::from_value(&Value::Null), Color::Hex(0xFF));
}

#[test]
fn style_from_a_map() {
    let value = map(vec![
        ("Text_Size", Value::Int(20)),
        ("alignX", s("CENTER")),
        ("width", Value::Int(100)),
        ("height", s("shrink")),
        ("padding", Value::Array(vec![Value::Int(1), Value::Int(2), Value::Int(3), Value::Int(4)])),
        ("border", map(vec![("width", Value::Int(2)), ("radius", Value::Array(vec![Value::Int(5), Value::Int(5), Value::Int(5), Value::Int(5)]))])),
        ("font", s("Mono")),
        ("background", s("#000000ff")),
    ]);
    let style = CommonStyle::from_value(&value);
    assert_eq!(style.text_size(), 20);
    assert_eq!(style.align_x(), Align::Center);
    assert_eq!(style.align_y(), Align::Start);
    assert_eq!(style.width(), Length::Fixed(100));
    assert_eq!(style.height(), Length::Shrink);
    assert_eq!(style.padding(), Sides { top: 1, right: 2, bottom: 3, left: 4 });
    let border = style.border();
    assert_eq!(border.width, 2);
    assert_eq!(border.radius, Corners { top_left: 5, top_right: 5, bottom_right: 5, bottom_left: 5 });
    assert_eq!(border.color, Color::Hex(0xFF));
    assert_eq!(style.font().expect("has a font").as_str(), "Mono");
    assert_eq!(style.background(), Some(Color::Hex(0x000000FF)));
    assert_eq!(style.spacing(), 0);
}

#[test]
fn style_defaults() {
    let style = CommonStyle::from_value(&Value::Null);
    assert_eq!(style.text_size(), DEFAULT_TEXT_SIZE);
    assert_eq!(style.width(), Length::Fill);
    assert!(style.font().is_none());
    assert!(style.background().is_none());
}

#[test]
fn fixed_length_by_name_is_zero() {
    let style = CommonStyle::from_value(&map(vec![("width", s("fixed"))]));
    assert_eq!(style.width(), Length::Fixed(0));
}

#[test]
fn merge_fills_missing_properties() {
    let child = CommonStyle::from_value(&map(vec![("textSize", Value::Int(12))]));
    let parent = CommonStyle::from_value(&map(vec![("textSize", Value::Int(30)), ("spacing", Value::Int(4))]));
    let merged = child.merge(&parent);
    assert_eq!(merged.text_size(), 12);
    assert_eq!(merged.spacing(), 4);
    let empty = CommonStyle::empty();
    assert_eq!(child.merge(&empty).text_size(), 12);
    assert_eq!(empty.merge(&child).text_size(), 12);
}

#[test]
fn tree_insert_then_get() {
    let mut tree = StyleTree::new();
    tree.set_style(CommonStyle::from_value(&map(vec![("spacing", Value::Int(3)), ("textSize", Value::Int(9))])));
    tree.insert(StyleKey::from_text("button.hovered"), CommonStyle::from_value(&map(vec![("textSize", Value::Int(20))])));
    let got = tree.get(StyleKey::from_text("button.hovered"));
    assert_eq!(got.text_size(), 20);
    assert_eq!(got.spacing(), 3);
    // A key that is not there gets the style of the last node reached.
    assert_eq!(tree.get(StyleKey::from_text("label")).text_size(), 9);
    assert_eq!(tree.get(StyleKey::from_text("button.pressed")).text_size(), 9);
    assert_eq!(tree.style().spacing(), 3);
}

#[test]
fn tree_nest_then_subtree() {
    let mut inner = StyleTree::new();
    inner.set_style(CommonStyle::from_value(&map(vec![("spacing", Value::Int(7))])));
    let mut tree = StyleTree::new();
    tree.nest(StyleKey::from_text("panel.list"), inner);
    let sub = tree.subtree(StyleKey::from_text("panel.list"));
    assert_eq!(sub.style().spacing(), 7);
    assert_eq!(tree.subtree(StyleKey::from_text("panel.missing")).style().spacing(), 0);
}
