use crate::data::{key_spec, value_parts, Value};
use crate::error::{error_is, Error, Fault};
use crate::key::{Key, KeySink};
use std::borrow::Cow;
use crate::part::PartSerializer;
use crate::value::{pairs_onto, ValueSink};
use vstd::prelude::*;

verus! {

/// What encoding one field onto `out` gives: the longer text, or the
/// fault and the message of the error that stops it.
pub open spec fn pair_spec(out: Seq<char>, key: Value, value: Value) -> Result<
    Seq<char>,
    (Fault, Seq<char>),
> {
    match key_spec(key) {
        Err(f) => Err((f, "unsupported key"@)),
        Ok(name) => field_spec(out, name, value),
    }
}

/// What encoding `value` under the field name `name` onto `out` gives.
pub open spec fn field_spec(out: Seq<char>, name: Seq<char>, value: Value) -> Result<
    Seq<char>,
    (Fault, Seq<char>),
> {
    match value_parts(value).1 {
        None => Ok(pairs_onto(out, name, value_parts(value).0)),
        Some(f) => Err((f, "unsupported value"@)),
    }
}

/// Encodes the entries of a map in order, up to the first error.
pub open spec fn map_spec(entries: Seq<(Value, Value)>) -> Result<Seq<char>, (Fault, Seq<char>)>
    decreases entries.len(),
{
    if entries.len() == 0 {
        Ok(Seq::empty())
    } else {
        match map_spec(entries.drop_last()) {
            Ok(out) => pair_spec(out, entries.last().0, entries.last().1),
            Err(e) => Err(e),
        }
    }
}

/// Encodes the fields of a struct in order, up to the first error.
pub open spec fn struct_spec(fields: Seq<(&'static str, Value)>) -> Result<
    Seq<char>,
    (Fault, Seq<char>),
>
    decreases fields.len(),
{
    if fields.len() == 0 {
        Ok(Seq::empty())
    } else {
        match struct_spec(fields.drop_last()) {
            Ok(out) => field_spec(out, fields.last().0@, fields.last().1),
            Err(e) => Err(e),
        }
    }
}

/// Encodes a sequence of two-element tuples as key/value pairs, in order,
/// up to the first error.
pub open spec fn pair_seq_spec(elems: Seq<Value>) -> Result<Seq<char>, (Fault, Seq<char>)>
    decreases elems.len(),
{
    if elems.len() == 0 {
        Ok(Seq::empty())
    } else {
        match pair_seq_spec(elems.drop_last()) {
            Ok(out) => match elems.last() {
                Value::Tuple(items) => if items.len() == 2 {
                    pair_spec(out, items@[0], items@[1])
                } else {
                    Err((Fault::Unsupported, "unsupported pair"@))
                },
                _ => Err((Fault::Unsupported, "unsupported pair"@)),
            },
            Err(e) => Err(e),
        }
    }
}

/// What encoding a whole value gives: a unit or a unit struct has no
/// fields; a map, a struct, or a sequence or array of pairs gives one field
/// per entry; nothing else can stand at the top.
pub open spec fn top_spec(v: Value) -> Result<Seq<char>, (Fault, Seq<char>)> {
    match v {
        Value::Unit => Ok(Seq::empty()),
        Value::UnitStruct(_) => Ok(Seq::empty()),
        Value::Mapping(entries) => map_spec(entries@),
        Value::Struct(_, fields) => struct_spec(fields@),
        Value::Sequence(_, elems) => pair_seq_spec(elems@),
        Value::Tuple(elems) => pair_seq_spec(elems@),
        _ => Err((Fault::Unsupported, "top-level serializer supports only maps and structs"@)),
    }
}

/// Encodes one field: resolves `key` to the field's name, then appends the
/// pairs of `value` under it to `target`. A key that cannot be resolved
/// leaves `target` as it was.
pub fn serialize_pair(target: &mut String, key: &Value, value: &Value) -> (r: Result<(), Error>)
    ensures
        match pair_spec(old(target)@, *key, *value) {
            Ok(t) => r is Ok,
            Err((f, m)) => r is Err && error_is(r->Err_0, f, m),
        },
        pair_spec(old(target)@, *key, *value) is Ok ==> final(target)@ == pair_spec(
            old(target)@,
            *key,
            *value,
        )->Ok_0,
        match key_spec(*key) {
            Err(f) => final(target)@ == old(target)@ && r is Err && error_is(
                r->Err_0,
                f,
                "unsupported key"@,
            ),
            Ok(k) => final(target)@ == pairs_onto(old(target)@, k, value_parts(*value).0) && match value_parts(*value).1 {
                None => r is Ok,
                Some(f) => r is Err && error_is(r->Err_0, f, "unsupported value"@),
            },
        },
{
    let end = |k: Key| -> (r: Result<Cow<'static, str>, Error>)
        ensures
            r is Ok && r->Ok_0@ == k@,
        { Ok(k.into_cow()) };
    let mut key_sink = KeySink::new(end);
    let resolved = PartSerializer::new(&mut key_sink).serialize(key);
    let name = match resolved {
        Ok(name) => name,
        Err(e) => return Err(e),
    };
    let name_text: &str = match &name {
        Cow::Borrowed(t) => t,
        Cow::Owned(t) => t.as_str(),
    };
    let mut sink = ValueSink::new(target, name_text);
    PartSerializer::new(&mut sink).serialize(value)
}

/// Encodes a whole value as a query string: one field per entry of a map,
/// field of a struct, or pair of a sequence or array of pairs.
#[verifier::loop_isolation(false)]
pub fn to_string(v: &Value) -> (r: Result<String, Error>)
    ensures
        match top_spec(*v) {
            Ok(t) => r is Ok && r->Ok_0@ == t,
            Err((f, m)) => r is Err && error_is(r->Err_0, f, m),
        },
{
    let mut out = String::new();
    match v {
        Value::Unit | Value::UnitStruct(_) => Ok(out),
        Value::Mapping(entries) => {
            let mut i: usize = 0;
            while i < entries.len()
                invariant
                    0 <= i <= entries.len(),
                    map_spec(entries@.take(i as int)) == Ok::<Seq<char>, (Fault, Seq<char>)>(out@),
                decreases entries.len() - i,
            {
                assert(entries@.take(i + 1).drop_last() =~= entries@.take(i as int));
                assert(entries@.take(i + 1).last() == entries@[i as int]);
                let ghost before = out@;
                let r = serialize_pair(&mut out, &entries[i].0, &entries[i].1);
                if let Err(e) = r {
                    proof {
                        assert(map_spec(entries@.take(i + 1)) == pair_spec(before, entries@[i as int].0, entries@[i as int].1));
                        lemma_map_spec_stops(entries@, i as int + 1);
                    }
                    return Err(e);
                }
                i = i + 1;
            }
            assert(entries@.take(entries.len() as int) =~= entries@);
            Ok(out)
        },
        Value::Struct(_, fields) => {
            let mut i: usize = 0;
            while i < fields.len()
                invariant
                    0 <= i <= fields.len(),
                    struct_spec(fields@.take(i as int)) == Ok::<Seq<char>, (Fault, Seq<char>)>(out@),
                decreases fields.len() - i,
            {
                assert(fields@.take(i + 1).drop_last() =~= fields@.take(i as int));
                assert(fields@.take(i + 1).last() == fields@[i as int]);
                let ghost before = out@;
                let mut sink = ValueSink::new(&mut out, fields[i].0);
                let r = PartSerializer::new(&mut sink).serialize(&fields[i].1);
                if let Err(e) = r {
                    proof {
                        assert(struct_spec(fields@.take(i + 1)) == field_spec(before, fields@[i as int].0@, fields@[i as int].1));
                        lemma_struct_spec_stops(fields@, i as int + 1);
                    }
                    return Err(e);
                }
                i = i + 1;
            }
            assert(fields@.take(fields.len() as int) =~= fields@);
            Ok(out)
        },
        Value::Sequence(_, elems) | Value::Tuple(elems) => {
            let mut i: usize = 0;
            while i < elems.len()
                invariant
                    0 <= i <= elems.len(),
                    pair_seq_spec(elems@.take(i as int)) == Ok::<Seq<char>, (Fault, Seq<char>)>(out@),
                decreases elems.len() - i,
            {
                assert(elems@.take(i + 1).drop_last() =~= elems@.take(i as int));
                assert(elems@.take(i + 1).last() == elems@[i as int]);
                let ghost before = out@;
                let r = match &elems[i] {
                    Value::Tuple(items) if items.len() == 2 => serialize_pair(&mut out, &items[0], &items[1]),
                    _ => Err(Error::Custom("unsupported pair".to_owned())),
                };
                if let Err(e) = r {
                    proof {
                        lemma_pair_seq_spec_stops(elems@, i as int + 1);
                    }
                    return Err(e);
                }
                i = i + 1;
            }
            assert(elems@.take(elems.len() as int) =~= elems@);
            Ok(out)
        },
        _ => Err(Error::Custom("top-level serializer supports only maps and structs".to_owned())),
    }
}

proof fn lemma_map_spec_stops(entries: Seq<(Value, Value)>, n: int)
    requires
        0 <= n <= entries.len(),
        map_spec(entries.take(n)) is Err,
    ensures
        map_spec(entries) == map_spec(entries.take(n)),
    decreases entries.len() - n,
{
    if n < entries.len() {
        assert(entries.take(n + 1).drop_last() =~= entries.take(n));
        lemma_map_spec_stops(entries, n + 1);
    } else {
        assert(entries.take(n) =~= entries);
    }
}

proof fn lemma_struct_spec_stops(fields: Seq<(&'static str, Value)>, n: int)
    requires
        0 <= n <= fields.len(),
        struct_spec(fields.take(n)) is Err,
    ensures
        struct_spec(fields) == struct_spec(fields.take(n)),
    decreases fields.len() - n,
{
    if n < fields.len() {
        assert(fields.take(n + 1).drop_last() =~= fields.take(n));
        lemma_struct_spec_stops(fields, n + 1);
    } else {
        assert(fields.take(n) =~= fields);
    }
}

proof fn lemma_pair_seq_spec_stops(elems: Seq<Value>, n: int)
    requires
        0 <= n <= elems.len(),
        pair_seq_spec(elems.take(n)) is Err,
    ensures
        pair_seq_spec(elems) == pair_seq_spec(elems.take(n)),
    decreases elems.len() - n,
{
    if n < elems.len() {
        assert(elems.take(n + 1).drop_last() =~= elems.take(n));
        lemma_pair_seq_spec_stops(elems, n + 1);
    } else {
        assert(elems.take(n) =~= elems);
    }
}

} // verus!
