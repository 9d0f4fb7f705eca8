use crate::error::Fault;
use crate::key::TextKind;
use vstd::utf8::{decode_utf8, valid_utf8};
use vstd::prelude::*;

verus! {

/// A structured value, as it reports its own shape to the encoder.
///
/// Names of types, variants and fields are program constants. Integers of
/// every width are held at the widest width of their signedness.
#[derive(Debug)]
pub enum Value {
    Bool(bool),
    Int(i128),
    UInt(u128),
    Char(char),
    Str(String),
    Bytes(Vec<u8>),
    /// The unit value `()`.
    Unit,
    /// A unit struct, by its name.
    UnitStruct(&'static str),
    /// An enumeration case without payload: type name, index, case name.
    UnitVariant(&'static str, u32, &'static str),
    /// A single-field wrapper struct: its name and the wrapped value.
    NewtypeStruct(&'static str, Box<Value>),
    /// An enumeration case with one payload value.
    NewtypeVariant(&'static str, u32, &'static str, Box<Value>),
    /// An optional value that is absent.
    Absent,
    /// An optional value that is present.
    Present(Box<Value>),
    /// A homogeneous sequence, with the length that it declared, if any.
    Sequence(Option<usize>, Vec<Value>),
    Tuple(Vec<Value>),
    TupleStruct(&'static str, Vec<Value>),
    TupleVariant(&'static str, u32, &'static str, Vec<Value>),
    Mapping(Vec<(Value, Value)>),
    Struct(&'static str, Vec<(&'static str, Value)>),
    StructVariant(&'static str, u32, &'static str, Vec<(&'static str, Value)>),
}

pub open spec fn bool_text(b: bool) -> Seq<char> {
    if b {
        "true"@
    } else {
        "false"@
    }
}

/// The one text that a value of a plain shape stands for; every other
/// shape is unsupported where only one text can stand.
pub open spec fn leaf_spec(v: Value) -> Result<Seq<char>, Fault> {
    match v {
        Value::Bool(b) => Ok(bool_text(b)),
        Value::Int(n) => Ok(crate::decimal::int_text(n as int)),
        Value::UInt(n) => Ok(crate::decimal::int_text(n as int)),
        Value::Char(c) => Ok(seq![c]),
        Value::Str(s) => Ok(s@),
        Value::Bytes(b) => if valid_utf8(b@) {
            Ok(decode_utf8(b@))
        } else {
            Err(Fault::Utf8)
        },
        Value::UnitStruct(name) => Ok(name@),
        Value::UnitVariant(_, _, variant) => Ok(variant@),
        _ => Err(Fault::Unsupported),
    }
}

/// How the text of a value of a plain shape reaches a sink: names and
/// booleans as constants, a character as materialised text, everything
/// else borrowed.
pub open spec fn leaf_kind(v: Value) -> TextKind {
    match v {
        Value::Bool(_) => TextKind::Constant,
        Value::UnitStruct(_) => TextKind::Constant,
        Value::UnitVariant(_, _, _) => TextKind::Constant,
        Value::Char(_) => TextKind::Owned,
        _ => TextKind::Borrowed,
    }
}

/// How the text of a value used as a key reaches the key sink.
pub open spec fn key_kind(v: Value) -> TextKind
    decreases v,
{
    match v {
        Value::NewtypeStruct(_, inner) => key_kind(*inner),
        _ => leaf_kind(v),
    }
}

/// The text of a value used as a field's key: wrappers are transparent,
/// optional values and sequences are unsupported.
pub open spec fn key_spec(v: Value) -> Result<Seq<char>, Fault>
    decreases v,
{
    match v {
        Value::NewtypeStruct(_, inner) => key_spec(*inner),
        _ => leaf_spec(v),
    }
}

/// The value texts that `v` emits, in order, under one key, and the fault
/// that stopped it, if any. Texts emitted before a fault stay emitted.
pub open spec fn value_parts(v: Value) -> (Seq<Seq<char>>, Option<Fault>)
    decreases v, 0nat,
{
    match v {
        Value::NewtypeStruct(_, inner) => value_parts(*inner),
        Value::Absent => (Seq::empty(), None),
        Value::Present(inner) => value_parts(*inner),
        Value::Sequence(size, elems) => {
            let (texts, fault) = elems_parts(elems@);
            if fault is None && size == Some(0usize) {
                (texts.push(Seq::empty()), None)
            } else {
                (texts, fault)
            }
        },
        _ => match leaf_spec(v) {
            Ok(t) => (seq![t], None),
            Err(f) => (Seq::empty(), Some(f)),
        },
    }
}

/// The value texts of a run of sequence elements, up to the first fault.
pub open spec fn elems_parts(elems: Seq<Value>) -> (Seq<Seq<char>>, Option<Fault>)
    decreases elems, 1nat,
{
    if elems.len() == 0 {
        (Seq::empty(), None)
    } else {
        let (texts, fault) = elems_parts(elems.drop_last());
        if fault is Some {
            (texts, fault)
        } else {
            let (more, fault2) = value_parts(elems.last());
            (texts + more, fault2)
        }
    }
}

} // verus!
