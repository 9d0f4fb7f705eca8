use serde_urlencoded::{to_string, Value};

fn text(s: &str) -> Value {
    Value::Str(s.to_owned())
}

fn some(v: Value) -> Value {
    Value::Present(Box::new(v))
}

fn newtype(v: Value) -> Value {
    Value::NewtypeStruct("NewType", Box::new(v))
}

fn pair(k: &str, v: Value) -> Value {
    Value::Tuple(vec![text(k), v])
}

/// An array of pairs, which serde reports as a tuple.
fn pairs(items: Vec<Value>) -> Value {
    Value::Tuple(items)
}

fn ints(items: Vec<i128>) -> Value {
    let values: Vec<Value> = items.into_iter().map(Value::Int).collect();
    Value::Sequence(Some(values.len()), values)
}

fn with_vec(one: Value, two: Value) -> Value {
    Value::Struct("WithVec", vec![("one", one), ("two", two)])
}

#[test]
fn serialize_newtype_i32() {
    let params = pairs(vec![pair("field", some(newtype(Value::Int(11))))]);
    assert_eq!(to_string(&params), Ok("field=11".to_owned()));
}

#[test]
fn serialize_newtype_u128() {
    let params = pairs(vec![pair("field", some(newtype(Value::UInt(u128::MAX))))]);
    assert_eq!(to_string(&params), Ok(format!("field={}", u128::MAX)));
}

#[test]
fn serialize_newtype_i128() {
    let params = pairs(vec![pair("field", some(newtype(Value::Int(i128::MIN))))]);
    assert_eq!(to_string(&params), Ok(format!("field={}", i128::MIN)));
}

#[test]
fn serialize_option_map_int() {
    let params = pairs(vec![
        pair("first", some(Value::Int(23))),
        pair("middle", Value::Absent),
        pair("last", some(Value::Int(42))),
    ]);
    assert_eq!(to_string(&params), Ok("first=23&last=42".to_owned()));
}

#[test]
fn serialize_option_map_string() {
    let params = pairs(vec![
        pair("first", some(text("hello"))),
        pair("middle", Value::Absent),
        pair("last", some(text("world"))),
    ]);
    assert_eq!(to_string(&params), Ok("first=hello&last=world".to_owned()));
}

#[test]
fn serialize_option_map_bool() {
    let params = pairs(vec![
        pair("one", some(Value::Bool(true))),
        pair("two", some(Value::Bool(false))),
    ]);
    assert_eq!(to_string(&params), Ok("one=true&two=false".to_owned()));
}

#[test]
fn serialize_map_bool() {
    let params = pairs(vec![pair("one", Value::Bool(true)), pair("two", Value::Bool(false))]);
    assert_eq!(to_string(&params), Ok("one=true&two=false".to_owned()));
}

#[test]
fn serialize_unit_enum() {
    let params = pairs(vec![
        pair("one", Value::UnitVariant("X", 0, "A")),
        pair("two", Value::UnitVariant("X", 1, "B")),
        pair("three", Value::UnitVariant("X", 2, "C")),
    ]);
    assert_eq!(to_string(&params), Ok("one=A&two=B&three=C".to_owned()));
}

#[test]
fn serialize_unit_struct() {
    assert_eq!(to_string(&Value::UnitStruct("Unit")), Ok("".to_owned()));
}

#[test]
fn serialize_unit_type() {
    assert_eq!(to_string(&Value::Unit), Ok("".to_owned()));
}

#[test]
fn serialize_vec_struct() {
    let query = with_vec(some(ints(vec![1])), some(ints(vec![1, 2])));
    assert_eq!(to_string(&query), Ok("one=1&two=1&two=2".to_owned()));
}

#[test]
fn serialize_empty_vec_struct() {
    let query = with_vec(some(ints(vec![])), some(ints(vec![1, 2])));
    assert_eq!(to_string(&query), Ok("one=&two=1&two=2".to_owned()));
}

#[test]
fn serialize_vec_pairs() {
    let query = Value::Sequence(
        Some(2),
        vec![pair("one", some(ints(vec![1]))), pair("two", some(ints(vec![1, 2])))],
    );
    assert_eq!(to_string(&query), Ok("one=1&two=1&two=2".to_owned()));
}

#[test]
fn serialize_empty_vec_pairs() {
    let query = Value::Sequence(
        Some(2),
        vec![pair("one", some(ints(vec![]))), pair("two", some(ints(vec![1, 2])))],
    );
    assert_eq!(to_string(&query), Ok("one=&two=1&two=2".to_owned()));
}
