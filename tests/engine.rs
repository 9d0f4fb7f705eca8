use std::borrow::Cow;
use serde_urlencoded::{
    serialize_pair, to_string, Error, Key, KeySink, PartSerializer, SeqSerializer, Value,
    ValueSink,
};

fn text(s: &str) -> Value {
    Value::Str(s.to_owned())
}

fn field(key: &str, value: Value) -> (String, Result<(), Error>) {
    let mut out = String::new();
    let r = serialize_pair(&mut out, &text(key), &value);
    (out, r)
}

fn value_into(out: &mut String, key: &str, value: &Value) -> Result<(), Error> {
    let mut sink = ValueSink::new(out, key);
    PartSerializer::new(&mut sink).serialize(value)
}

fn key_of(value: &Value) -> Result<String, Error> {
    let mut sink = KeySink::new(|k: Key| Ok::<String, Error>(k.into_cow().into_owned()));
    PartSerializer::new(&mut sink).serialize(value)
}

fn unsupported_value() -> Error {
    Error::Custom("unsupported value".to_owned())
}

fn unsupported_key() -> Error {
    Error::Custom("unsupported key".to_owned())
}

#[test]
fn bool_field_is_one_pair() {
    assert_eq!(field("flag", Value::Bool(true)), ("flag=true".to_owned(), Ok(())));
    assert_eq!(field("flag", Value::Bool(false)), ("flag=false".to_owned(), Ok(())));
}

#[test]
fn integer_text_reads_back() {
    for n in [0i128, 7, -7, i8::MIN as i128, i64::MAX as i128, i128::MIN, i128::MAX] {
        let (out, r) = field("n", Value::Int(n));
        assert_eq!(r, Ok(()));
        assert_eq!(out.strip_prefix("n=").unwrap().parse::<i128>().unwrap(), n);
    }
    for n in [0u128, 10, u64::MAX as u128, u128::MAX] {
        let (out, r) = field("n", Value::UInt(n));
        assert_eq!(r, Ok(()));
        assert_eq!(out.strip_prefix("n=").unwrap().parse::<u128>().unwrap(), n);
    }
}

#[test]
fn integer_texts_are_exact() {
    assert_eq!(field("n", Value::Int(-120)).0, "n=-120");
    assert_eq!(field("n", Value::UInt(1000)).0, "n=1000");
    assert_eq!(
        field("field", Value::UInt(u128::MAX)).0,
        "field=340282366920938463463374607431768211455"
    );
}

#[test]
fn absent_emits_nothing_and_present_is_transparent() {
    assert_eq!(field("a", Value::Absent), ("".to_owned(), Ok(())));
    let direct = field("a", Value::Int(5));
    let wrapped = field("a", Value::Present(Box::new(Value::Int(5))));
    let twice = field(
        "a",
        Value::Present(Box::new(Value::Present(Box::new(Value::Int(5))))),
    );
    assert_eq!(direct, wrapped);
    assert_eq!(direct, twice);
    assert_eq!(direct.0, "a=5");
}

#[test]
fn sequence_emits_one_pair_per_element() {
    let seq = Value::Sequence(Some(3), vec![text("x"), text("y"), text("z")]);
    assert_eq!(field("k", seq), ("k=x&k=y&k=z".to_owned(), Ok(())));
}

#[test]
fn declared_empty_sequence_emits_empty_pair() {
    assert_eq!(field("k", Value::Sequence(Some(0), vec![])), ("k=".to_owned(), Ok(())));
}

#[test]
fn unknown_size_empty_sequence_emits_nothing() {
    assert_eq!(field("k", Value::Sequence(None, vec![])), ("".to_owned(), Ok(())));
}

#[test]
fn unit_enum_field() {
    assert_eq!(field("one", Value::UnitVariant("X", 0, "A")).0, "one=A");
}

#[test]
fn char_and_unit_struct_values() {
    assert_eq!(field("c", Value::Char('z')).0, "c=z");
    assert_eq!(field("u", Value::UnitStruct("Unit")).0, "u=Unit");
}

#[test]
fn names_and_values_are_percent_encoded() {
    assert_eq!(field("a b", text("x&y=é")).0, "a+b=x%26y%3D%C3%A9");
}

#[test]
fn valid_bytes_are_text() {
    assert_eq!(field("b", Value::Bytes(b"hi".to_vec())), ("b=hi".to_owned(), Ok(())));
}

#[test]
fn invalid_bytes_fail_with_decode_error() {
    assert_eq!(field("b", Value::Bytes(vec![0xff, 0xfe])), ("".to_owned(), Err(Error::Utf8)));
}

#[test]
fn unsupported_value_shapes() {
    let shapes = vec![
        Value::Unit,
        Value::NewtypeVariant("E", 0, "V", Box::new(Value::Int(1))),
        Value::Tuple(vec![Value::Int(1)]),
        Value::TupleStruct("T", vec![]),
        Value::TupleVariant("E", 1, "W", vec![]),
        Value::Mapping(vec![]),
        Value::Struct("S", vec![]),
        Value::StructVariant("E", 2, "Z", vec![]),
    ];
    for shape in shapes {
        assert_eq!(field("k", shape), ("".to_owned(), Err(unsupported_value())));
    }
}

#[test]
fn pairs_before_a_failing_element_stay() {
    let seq = Value::Sequence(None, vec![Value::Int(1), Value::Unit, Value::Int(3)]);
    assert_eq!(field("k", seq), ("k=1".to_owned(), Err(unsupported_value())));
}

#[test]
fn value_sink_appends_after_existing_text() {
    let mut out = "a=1".to_owned();
    assert_eq!(value_into(&mut out, "b", &Value::Int(2)), Ok(()));
    assert_eq!(out, "a=1&b=2");
}

#[test]
fn keys_resolve_through_the_key_sink() {
    assert_eq!(key_of(&text("name")), Ok("name".to_owned()));
    assert_eq!(key_of(&Value::Bool(true)), Ok("true".to_owned()));
    assert_eq!(key_of(&Value::Int(-3)), Ok("-3".to_owned()));
    assert_eq!(key_of(&Value::Char('k')), Ok("k".to_owned()));
    assert_eq!(key_of(&Value::NewtypeStruct("N", Box::new(text("w")))), Ok("w".to_owned()));
}

#[test]
fn keys_cannot_be_optional_or_sequences() {
    assert_eq!(key_of(&Value::Absent), Err(unsupported_key()));
    assert_eq!(key_of(&Value::Present(Box::new(text("k")))), Err(unsupported_key()));
    assert_eq!(key_of(&Value::Sequence(Some(0), vec![])), Err(unsupported_key()));
    assert_eq!(key_of(&Value::Unit), Err(unsupported_key()));
    assert_eq!(key_of(&Value::Bytes(vec![0xc3])), Err(Error::Utf8));
}

#[test]
fn unsupported_key_leaves_output_alone() {
    let mut out = "a=1".to_owned();
    let r = serialize_pair(&mut out, &Value::Absent, &Value::Int(2));
    assert_eq!(r, Err(unsupported_key()));
    assert_eq!(out, "a=1");
}

#[test]
fn key_text_and_lasting_form() {
    let k = Key::Static("id");
    assert_eq!(k.as_str(), "id");
    assert!(matches!(k.into_cow(), Cow::Borrowed("id")));
    let d = Key::Dynamic(Cow::Owned("x y".to_owned()));
    assert_eq!(d.as_str(), "x y");
    assert!(matches!(d.into_cow(), Cow::Owned(s) if s == "x y"));
    let text = "b".to_owned();
    let b = Key::Dynamic(Cow::Borrowed(text.as_str()));
    assert!(matches!(b.into_cow(), Cow::Owned(s) if s == "b"));
}

fn kind_of(value: &Value) -> (String, &'static str) {
    let mut sink = KeySink::new(|k: Key| {
        let kind = match &k {
            Key::Static(_) => "static",
            Key::Dynamic(Cow::Borrowed(_)) => "borrowed",
            Key::Dynamic(Cow::Owned(_)) => "owned",
        };
        Ok::<(String, &'static str), Error>((k.as_str().to_owned(), kind))
    });
    PartSerializer::new(&mut sink).serialize(value).unwrap()
}

#[test]
fn key_kinds_follow_the_shape() {
    assert_eq!(kind_of(&Value::Bool(false)), ("false".to_owned(), "static"));
    assert_eq!(kind_of(&Value::UnitStruct("U")), ("U".to_owned(), "static"));
    assert_eq!(kind_of(&Value::UnitVariant("E", 0, "A")), ("A".to_owned(), "static"));
    assert_eq!(kind_of(&text("s")), ("s".to_owned(), "borrowed"));
    assert_eq!(kind_of(&Value::Bytes(b"by".to_vec())), ("by".to_owned(), "borrowed"));
    assert_eq!(kind_of(&Value::UInt(12)), ("12".to_owned(), "borrowed"));
    assert_eq!(kind_of(&Value::Char('c')), ("c".to_owned(), "owned"));
}

#[test]
fn top_level_array_of_pairs() {
    let array = Value::Tuple(vec![
        Value::Tuple(vec![text("one"), Value::UnitVariant("X", 0, "A")]),
        Value::Tuple(vec![text("two"), Value::Bool(true)]),
    ]);
    assert_eq!(to_string(&array), Ok("one=A&two=true".to_owned()));
}

#[test]
fn seq_serializer_drives_the_value_sink() {
    let mut out = String::new();
    let mut sink = ValueSink::new(&mut out, "m");
    let mut seq = SeqSerializer::new(&mut sink, Some(2));
    assert_eq!(seq.serialize_element(&Value::Int(1)), Ok(()));
    assert_eq!(seq.serialize_element(&Value::Int(2)), Ok(()));
    assert_eq!(seq.end(), Ok(()));
    assert_eq!(out, "m=1&m=2");
}

#[test]
fn seq_serializer_end_of_declared_empty() {
    let mut out = String::new();
    let mut sink = ValueSink::new(&mut out, "m");
    let seq = SeqSerializer::new(&mut sink, Some(0));
    assert_eq!(seq.end(), Ok(()));
    assert_eq!(out, "m=");
}

#[test]
fn top_level_rejects_plain_values() {
    let r = to_string(&Value::Int(1));
    assert_eq!(r, Err(Error::Custom("top-level serializer supports only maps and structs".to_owned())));
    assert_eq!(r.unwrap_err().message(), Some("top-level serializer supports only maps and structs"));
    let bad_pair = Value::Sequence(None, vec![Value::Tuple(vec![text("only")])]);
    assert_eq!(to_string(&bad_pair), Err(Error::Custom("unsupported pair".to_owned())));
}

#[test]
fn top_level_map_entries() {
    let map = Value::Mapping(vec![(text("first"), Value::Int(23)), (text("last"), Value::Int(42))]);
    assert_eq!(to_string(&map), Ok("first=23&last=42".to_owned()));
    assert_eq!(Error::Utf8.message(), None);
}
