use kool::language::value::Value;
use kool::runner::settings::{Anchor, Layer, Rendering, WidgetSettings};
use kool::widget::settings as standalone;

fn s(text: &str) -> Value {
    Value::String(text.to_owned())
}

fn map(pairs: Vec<(&str, Value)>) -> Value {
    Value::HashMap(pairs.into_iter().map(|(k, v)| (s(k), v)).collect())
}

#[test]
fn settings_from_a_map() {
    let value = map(vec![
        ("anchor", Value::Array(vec![s("top"), s("LEFT")])),
        ("layer", s("overlay")),
        ("exclusiveZone", Value::Int(30)),
        ("size", Value::Array(vec![Value::Int(200), Value::Int(40)])),
        ("margin", Value::Array(vec![Value::Int(1), Value::Int(2), Value::Int(3), Value::Int(4)])),
        ("clickThrough", Value::Bool(true)),
    ]);
    let settings = WidgetSettings::from_value(&value);
    assert_eq!(settings.anchors, vec![Anchor::Top, Anchor::Left]);
    assert_eq!(settings.layer, Layer::Overlay);
    assert_eq!(settings.exclusive_zone, 30);
    assert_eq!(settings.size, Some((200, 40)));
    assert_eq!(settings.margin, (1, 2, 3, 4));
    assert!(settings.click_through);
    assert!(settings.name.is_none());
}

#[test]
fn settings_defaults() {
    let settings = WidgetSettings::from_value(&Value::Int(3));
    assert!(settings.anchors.is_empty());
    assert_eq!(settings.layer, Layer::Top);
    assert_eq!(settings.exclusive_zone, 0);
    assert_eq!(settings.size, None);
    assert_eq!(settings.margin, (0, 0, 0, 0));
    assert!(!settings.click_through);
}

#[test]
fn one_bad_anchor_drops_them_all() {
    let settings = WidgetSettings::from_value(&map(vec![("anchor", Value::Array(vec![s("top"), s("middle")]))]));
    assert!(settings.anchors.is_empty());
    let settings = WidgetSettings::from_value(&map(vec![("anchor", s("Bottom"))]));
    assert_eq!(settings.anchors, vec![Anchor::Bottom]);
}

#[test]
fn keys_are_case_sensitive() {
    let settings = WidgetSettings::from_value(&map(vec![("exclusivezone", Value::Int(30)), ("layer", s("nowhere"))]));
    assert_eq!(settings.exclusive_zone, 0);
    assert_eq!(settings.layer, Layer::Top);
}

#[test]
fn numbers_are_cut_to_their_width() {
    let settings = WidgetSettings::from_value(&map(vec![("exclusiveZone", Value::Int(0x1_0000_0005))]));
    assert_eq!(settings.exclusive_zone, 5);
}

#[test]
fn names_of_renderers() {
    assert_eq!(Rendering::from_name(&"CPU".to_owned()), Some(Rendering::Cpu));
    assert_eq!(Rendering::from_name(&"gpu".to_owned()), Some(Rendering::Gpu));
    assert_eq!(Rendering::from_name(&"gp".to_owned()), None);
    assert_eq!(Rendering::default_rendering(), Rendering::Gpu);
}

#[test]
fn standalone_window_settings() {
    let settings = standalone::WidgetSettings::default();
    assert_eq!(settings.size, standalone::Size::Size(100, 100));
    assert_eq!(settings.layer, standalone::Layer::Top);
    assert_eq!(standalone::Size::Expand.dimensions(), None);
    assert_eq!(standalone::Size::Size(3, 4).dimensions(), Some((3, 4)));
    let e = standalone::Anchor::TopRight.edges();
    assert!(e.top && e.right && !e.bottom && !e.left);
    assert_eq!(standalone::Anchor::default(), standalone::Anchor::Unanchored);
}
