use minka_fx::payload::{Rect, Value};
use minka_fx::scalar::Scalar;

fn s(x: f32) -> Scalar {
    Scalar { bits: x.to_bits() }
}

fn number(x: f32) -> Value {
    Value::Number(s(x))
}

fn text(t: &str) -> Value {
    Value::Text(t.to_string())
}

fn object(entries: Vec<(&str, Value)>) -> Value {
    Value::Object(entries.into_iter().map(|(k, v)| (k.to_string(), v)).collect())
}

fn rect_value() -> Value {
    object(vec![("x", number(1.0)), ("y", number(2.5)), ("w", number(640.0)), ("h", number(480.0))])
}

#[test]
fn get_finds_members_of_objects_only() {
    let value = object(vec![("a", Value::Bool(true)), ("b", text("hi"))]);
    assert_eq!(value.get("b").and_then(|v| v.as_str()), Some("hi"));
    assert!(matches!(value.get("a"), Some(Value::Bool(true))));
    assert!(value.get("c").is_none());
    assert!(Value::Null.get("a").is_none());
    assert!(Value::Array(vec![text("a")]).get("a").is_none());
    assert!(text("a").get("a").is_none());
}

#[test]
fn scalars_read_as_what_they_are() {
    assert_eq!(number(0.5).as_number(), Some(s(0.5)));
    assert_eq!(number(0.5).as_str(), None);
    assert_eq!(text("0.5").as_number(), None);
    assert_eq!(Value::Null.as_number(), None);
}

#[test]
fn rect_needs_all_four_numbers() {
    let rect = Rect { x: s(1.0), y: s(2.5), w: s(640.0), h: s(480.0) };
    assert_eq!(rect_value().as_rect(), Some(rect));
    assert_eq!(Value::Null.as_rect(), None);
    let missing = object(vec![("x", number(1.0)), ("y", number(2.5)), ("w", number(640.0))]);
    assert_eq!(missing.as_rect(), None);
    let wrong = object(vec![
        ("x", number(1.0)),
        ("y", text("2.5")),
        ("w", number(640.0)),
        ("h", number(480.0)),
    ]);
    assert_eq!(wrong.as_rect(), None);
}

#[test]
fn preview_with_rect_and_kind() {
    let payload =
        object(vec![("monitor", text("DP-1")), ("rect", rect_value()), ("kind", text("tiling"))]);
    let preview = payload.as_preview().unwrap();
    assert_eq!(preview.monitor, "DP-1");
    assert_eq!(preview.rect, Some(Rect { x: s(1.0), y: s(2.5), w: s(640.0), h: s(480.0) }));
    assert!(preview.tiling);
}

#[test]
fn preview_without_rect_hides() {
    let payload =
        object(vec![("monitor", text("DP-1")), ("rect", Value::Null), ("kind", text("floating"))]);
    let preview = payload.as_preview().unwrap();
    assert_eq!(preview.rect, None);
    assert!(!preview.tiling);
    let bare_payload = object(vec![("monitor", text("DP-1"))]);
    let bare = bare_payload.as_preview().unwrap();
    assert_eq!(bare.rect, None);
    assert!(!bare.tiling);
}

#[test]
fn preview_without_monitor_is_none() {
    assert!(object(vec![("rect", rect_value())]).as_preview().is_none());
    assert!(object(vec![("monitor", number(1.0))]).as_preview().is_none());
    assert!(Value::Null.as_preview().is_none());
}
