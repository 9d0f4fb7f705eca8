use crate::data::{elems_parts, key_kind, key_spec, leaf_kind, leaf_spec, value_parts, Value};
use crate::decimal::{format_i128, format_u128};
use crate::error::{error_is, Error, Fault};
use crate::key::{Key, KeySink};
use std::borrow::Cow;
use vstd::utf8::{decode_utf8, valid_utf8};
use crate::value::{lemma_pairs_onto_concat, pairs_onto, ValueSink};
use vstd::prelude::*;

verus! {

/// Relies on std's `str::from_utf8`: the text of the bytes, borrowed, exactly
/// when they are valid UTF-8.
#[verifier::external_body]
fn str_from_utf8(b: &Vec<u8>) -> (r: Option<&str>)
    ensures
        match r {
            Some(s) => valid_utf8(b@) && s@ == decode_utf8(b@),
            None => !valid_utf8(b@),
        },
{
    std::str::from_utf8(b.as_slice()).ok()
}

/// Relies on std's `char::to_string`: the one-character string.
#[verifier::external_body]
fn char_to_string(c: char) -> (r: String)
    ensures
        r@ == seq![c],
{
    c.to_string()
}

/// Resolves a value of a plain shape, other than an integer, to its text:
/// constants as [`Key::Static`], text of the value borrowed, a character
/// materialised; every other shape is [`Fault::Unsupported`].
fn leaf_text(v: &Value) -> (r: Result<Key<'_>, Fault>)
    requires
        !(v is Int || v is UInt),
    ensures
        match leaf_spec(*v) {
            Ok(t) => r is Ok && r->Ok_0@ == t && r->Ok_0.kind() == leaf_kind(*v),
            Err(f) => r is Err && r->Err_0 == f,
        },
{
    match v {
        Value::Bool(b) => Ok(Key::Static(
            if *b {
                "true"
            } else {
                "false"
            },
        )),
        Value::Char(c) => Ok(Key::Dynamic(Cow::Owned(char_to_string(*c)))),
        Value::Str(s) => Ok(Key::Dynamic(Cow::Borrowed(s.as_str()))),
        Value::Bytes(b) => match str_from_utf8(b) {
            Some(s) => Ok(Key::Dynamic(Cow::Borrowed(s))),
            None => Err(Fault::Utf8),
        },
        Value::UnitStruct(name) => Ok(Key::Static(name)),
        Value::UnitVariant(_, _, variant) => Ok(Key::Static(variant)),
        _ => Err(Fault::Unsupported),
    }
}

/// The visitor: walks one value once and drives one sink.
pub struct PartSerializer<'a, S> {
    pub sink: &'a mut S,
}

impl<'a, S> PartSerializer<'a, S> {
    pub fn new(sink: &'a mut S) -> (r: Self)
        ensures
            *r.sink == *old(sink),
            *final(sink) == *final(r.sink),
    {
        PartSerializer { sink }
    }
}

impl<'a, 't, 'k> PartSerializer<'a, ValueSink<'t, 'k>> {
    /// Appends the pairs of `v` under the sink's key; on a fault, the pairs
    /// appended before it stay.
    pub fn serialize(&mut self, v: &Value) -> (r: Result<(), Error>)
        ensures
            *final(final(self).sink) == *final(old(self).sink),
            *final(final(self).sink.target) == *final(old(self).sink.target),
            final(self).sink.key == old(self).sink.key,
            final(self).sink.target@ == pairs_onto(
                old(self).sink.target@,
                old(self).sink.key@,
                value_parts(*v).0,
            ),
            match value_parts(*v).1 {
                None => r is Ok,
                Some(f) => r is Err && error_is(r->Err_0, f, "unsupported value"@),
            },
        decreases *v, 0nat,
    {
        let ghost out = self.sink.target@;
        let ghost key = self.sink.key@;
        match v {
            Value::NewtypeStruct(_, inner) => self.serialize(inner),
            Value::Absent => {
                assert(pairs_onto(out, key, Seq::empty()) == out);
                self.sink.serialize_none()
            },
            Value::Present(inner) => self.sink.serialize_some(inner),
            Value::Sequence(size, elems) => self.serialize_seq(*size, elems),
            Value::Int(n) => {
                let text = format_i128(*n);
                proof {
                    crate::value::lemma_pairs_onto_one(out, key, text@);
                }
                self.sink.serialize_str(text.as_str())
            },
            Value::UInt(n) => {
                let text = format_u128(*n);
                proof {
                    crate::value::lemma_pairs_onto_one(out, key, text@);
                }
                self.sink.serialize_str(text.as_str())
            },
            _ => {
                let leaf = leaf_text(v);
                proof {
                    if leaf is Ok {
                        crate::value::lemma_pairs_onto_one(out, key, leaf->Ok_0@);
                    }
                }
                match leaf {
                    Ok(Key::Static(t)) => self.sink.serialize_static_str(t),
                    Ok(Key::Dynamic(Cow::Borrowed(t))) => self.sink.serialize_str(t),
                    Ok(Key::Dynamic(Cow::Owned(t))) => self.sink.serialize_string(t),
                    Err(Fault::Unsupported) => Err(self.sink.unsupported()),
                    Err(Fault::Utf8) => Err(Error::Utf8),
                }
            },
        }
    }

    /// Emits the pairs of each element in turn under the sink's key, then
    /// ends the sequence.
    #[verifier::loop_isolation(false)]
    fn serialize_seq(&mut self, size: Option<usize>, elems: &Vec<Value>) -> (r: Result<(), Error>)
        ensures
            *final(final(self).sink) == *final(old(self).sink),
            *final(final(self).sink.target) == *final(old(self).sink.target),
            final(self).sink.key == old(self).sink.key,
            final(self).sink.target@ == pairs_onto(
                old(self).sink.target@,
                old(self).sink.key@,
                value_parts(Value::Sequence(size, *elems)).0,
            ),
            match value_parts(Value::Sequence(size, *elems)).1 {
                None => r is Ok,
                Some(f) => r is Err && error_is(r->Err_0, f, "unsupported value"@),
            },
        decreases *elems, 0nat,
    {
        let ghost out = self.sink.target@;
        let ghost key = self.sink.key@;
        let ghost sink_key = self.sink.key;
        let mut i: usize = 0;
        while i < elems.len()
            invariant
                0 <= i <= elems.len(),
                self.sink.key == sink_key,
                *final(self.sink) == *final(old(self).sink),
                *final(self.sink.target) == *final(old(self).sink.target),
                elems_parts(elems@.take(i as int)).1 is None,
                self.sink.target@ == pairs_onto(
                    out,
                    key,
                    elems_parts(elems@.take(i as int)).0,
                ),
            decreases elems.len() - i,
        {
            proof {
                assert(elems@.take(i + 1).drop_last() =~= elems@.take(i as int));
                assert(elems@.take(i + 1).last() == elems@[i as int]);
                lemma_pairs_onto_concat(
                    out,
                    key,
                    elems_parts(elems@.take(i as int)).0,
                    value_parts(elems@[i as int]).0,
                );
            }
            let r = self.sink.serialize_some(&elems[i]);
            if r.is_err() {
                proof {
                    lemma_elems_parts_stops(elems@, i as int + 1);
                    assert(elems@.take(elems.len() as int) =~= elems@);
                }
                return r;
            }
            i = i + 1;
        }
        proof {
            assert(elems@.take(elems.len() as int) =~= elems@);
            let texts = elems_parts(elems@).0;
            let empty = seq![Seq::<char>::empty()];
            lemma_pairs_onto_concat(out, key, texts, empty);
            assert(texts.push(Seq::<char>::empty()) =~= texts + empty);
        }
        SeqSerializer::new(&mut *self.sink, size).end()
    }
}

impl<'a, End, T> PartSerializer<'a, KeySink<End>> where
    End: for <'key> Fn(Key<'key>) -> Result<T, Error>,
 {
    /// Resolves `v` to a key and hands it to the sink's `end`.
    pub fn serialize(&mut self, v: &Value) -> (r: Result<T, Error>)
        requires
            forall|k: Key| old(self).sink.end.requires((k,)),
        ensures
            *final(self).sink == *old(self).sink,
            match key_spec(*v) {
                Ok(t) => exists|k: Key|
                    k@ == t && k.kind() == key_kind(*v) && old(self).sink.end.ensures((k,), r),
                Err(f) => r is Err && error_is(r->Err_0, f, "unsupported key"@),
            },
    {
        let ghost end = self.sink.end;
        let mut cur: &Value = v;
        loop
            invariant
                *self == *old(self),
                end == old(self).sink.end,
                key_spec(*cur) == key_spec(*v),
                key_kind(*cur) == key_kind(*v),
            ensures
                !(cur is NewtypeStruct),
                key_spec(*cur) == key_spec(*v),
                key_kind(*cur) == key_kind(*v),
            decreases *cur,
        {
            match cur {
                Value::NewtypeStruct(_, inner) => {
                    cur = inner;
                },
                _ => break,
            }
        }
        match cur {
            Value::Absent => {
                let r = self.sink.serialize_none();
                r
            },
            Value::Present(inner) => self.sink.serialize_some(inner),
            Value::Int(n) => {
                let text = format_i128(*n);
                let borrowed = text.as_str();
                let r = self.sink.serialize_str(borrowed);
                assert(end.ensures((Key::Dynamic(Cow::Borrowed(borrowed)),), r));
                let ghost k = Key::Dynamic(Cow::Borrowed(borrowed));
                assert(k@ == key_spec(*v)->Ok_0 && k.kind() == key_kind(*v));
                assert(key_spec(*v) is Ok ==> exists|k: Key|
                    k@ == key_spec(*v)->Ok_0 && k.kind() == key_kind(*v) && old(self).sink.end.ensures((k,), r));
                r
            },
            Value::UInt(n) => {
                let text = format_u128(*n);
                let borrowed = text.as_str();
                let r = self.sink.serialize_str(borrowed);
                assert(end.ensures((Key::Dynamic(Cow::Borrowed(borrowed)),), r));
                let ghost k = Key::Dynamic(Cow::Borrowed(borrowed));
                assert(k@ == key_spec(*v)->Ok_0 && k.kind() == key_kind(*v));
                assert(key_spec(*v) is Ok ==> exists|k: Key|
                    k@ == key_spec(*v)->Ok_0 && k.kind() == key_kind(*v) && old(self).sink.end.ensures((k,), r));
                r
            },
            _ => {
                let leaf = leaf_text(cur);
                let ghost resolved = leaf;
                let r = match leaf {
                    Ok(Key::Static(t)) => self.sink.serialize_static_str(t),
                    Ok(Key::Dynamic(Cow::Borrowed(t))) => self.sink.serialize_str(t),
                    Ok(Key::Dynamic(Cow::Owned(t))) => self.sink.serialize_string(t),
                    Err(Fault::Unsupported) => Err(self.sink.unsupported()),
                    Err(Fault::Utf8) => Err(Error::Utf8),
                };
                assert(resolved is Ok ==> end.ensures((resolved->Ok_0,), r));
                assert(resolved is Ok ==> resolved->Ok_0@ == key_spec(*v)->Ok_0);
                assert(resolved is Ok ==> resolved->Ok_0.kind() == key_kind(*v));
                assert(key_spec(*v) is Ok ==> exists|k: Key|
                    k@ == key_spec(*v)->Ok_0 && k.kind() == key_kind(*v) && old(self).sink.end.ensures((k,), r));
                r
            },
        }
    }
}

/// Once the elements before `n` fault, no later element adds a text.
proof fn lemma_elems_parts_stops(elems: Seq<Value>, n: int)
    requires
        0 <= n <= elems.len(),
        elems_parts(elems.take(n)).1 is Some,
    ensures
        elems_parts(elems) == elems_parts(elems.take(n)),
    decreases elems.len() - n,
{
    if n < elems.len() {
        assert(elems.take(n + 1).drop_last() =~= elems.take(n));
        lemma_elems_parts_stops(elems, n + 1);
    } else {
        assert(elems.take(n) =~= elems);
    }
}

/// Drives the sink through the elements of one sequence value.
pub struct SeqSerializer<'a, S> {
    pub sink: &'a mut S,
    pub size: Option<usize>,
}

impl<'a, S> SeqSerializer<'a, S> {
    pub fn new(sink: &'a mut S, size: Option<usize>) -> (r: Self)
        ensures
            *r.sink == *old(sink),
            *final(sink) == *final(r.sink),
            r.size == size,
    {
        SeqSerializer { sink, size }
    }
}

impl<'a, 't, 'k> SeqSerializer<'a, ValueSink<'t, 'k>> {
    /// Emits the pairs of one element under the shared key.
    pub fn serialize_element(&mut self, value: &Value) -> (r: Result<(), Error>)
        ensures
            final(self).size == old(self).size,
            *final(final(self).sink) == *final(old(self).sink),
            *final(final(self).sink.target) == *final(old(self).sink.target),
            final(self).sink.key == old(self).sink.key,
            final(self).sink.target@ == pairs_onto(
                old(self).sink.target@,
                old(self).sink.key@,
                value_parts(*value).0,
            ),
            match value_parts(*value).1 {
                None => r is Ok,
                Some(f) => r is Err && error_is(r->Err_0, f, "unsupported value"@),
            },
        decreases *value, 3nat,
    {
        self.sink.serialize_some(value)
    }

    /// Ends the sequence: a sequence that declared length zero still emits
    /// one pair with an empty value; any other emits nothing more.
    pub fn end(self) -> (r: Result<(), Error>)
        ensures
            final(self.sink).key == old(self.sink).key,
            *final(final(self.sink).target) == *final(old(self.sink).target),
            final(self.sink).target@ == if self.size == Some(0usize) {
                pairs_onto(old(self.sink).target@, old(self.sink).key@, seq![Seq::<char>::empty()])
            } else {
                old(self.sink).target@
            },
            r is Ok,
    {
        let ghost out = self.sink.target@;
        let ghost key = self.sink.key@;
        match self.size {
            Some(0) => {
                let empty = "";
                proof {
                    reveal_strlit("");
                    assert(empty@ =~= Seq::<char>::empty());
                    crate::value::lemma_pairs_onto_one(out, key, empty@);
                }
                self.sink.serialize_str(empty)
            },
            _ => self.sink.serialize_none(),
        }
    }
}

} // verus!
