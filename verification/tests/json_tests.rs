use vzglyd_kernel::json::{JsonNumber, JsonValue};

fn obj(members: Vec<(&str, JsonValue)>) -> JsonValue {
    JsonValue::Object(members.into_iter().map(|(k, v)| (k.to_string(), v)).collect())
}

fn num(n: u64) -> JsonValue {
    JsonValue::Number(JsonNumber::PosInt(n))
}

#[test]
fn objects_compare_as_maps() {
    let a = obj(vec![("a", num(1)), ("b", obj(vec![("x", JsonValue::Null), ("y", JsonValue::Bool(true))]))]);
    let b = obj(vec![("b", obj(vec![("y", JsonValue::Bool(true)), ("x", JsonValue::Null)])), ("a", num(1))]);
    assert!(a.same_as(&b));
    assert!(b.same_as(&a));
}

#[test]
fn objects_differ_on_values_or_keys() {
    let a = obj(vec![("a", num(1)), ("b", num(2))]);
    assert!(!a.same_as(&obj(vec![("a", num(1)), ("b", num(3))])));
    assert!(!a.same_as(&obj(vec![("a", num(1)), ("c", num(2))])));
    assert!(!a.same_as(&obj(vec![("a", num(1))])));
}

#[test]
fn arrays_compare_in_order() {
    let a = JsonValue::Array(vec![num(1), num(2)]);
    assert!(a.same_as(&JsonValue::Array(vec![num(1), num(2)])));
    assert!(!a.same_as(&JsonValue::Array(vec![num(2), num(1)])));
    assert!(!num(1).same_as(&JsonValue::Number(JsonNumber::Float("1.0".to_string()))));
}

#[test]
fn signed_zero_floats_equal_but_differ_in_text() {
    let pos = JsonValue::Number(JsonNumber::Float("0.0".to_string()));
    let neg = JsonValue::Number(JsonNumber::Float("-0.0".to_string()));
    assert!(pos.equals(&neg));
    assert!(!pos.same_as(&neg));
    assert!(pos.equals(&pos));
    let half = JsonValue::Number(JsonNumber::Float("0.5".to_string()));
    assert!(!pos.equals(&half));
    assert!(JsonValue::Array(vec![neg.clone()]).equals(&JsonValue::Array(vec![pos.clone()])));
}
