use crate::data::Value;
use crate::error::Error;
use crate::part::PartSerializer;
use vstd::prelude::*;
use vstd::utf8::encode_utf8;

verus! {

/// The uppercase hexadecimal digit for `d < 16`.
pub open spec fn hex_digit(d: nat) -> char {
    seq!['0', '1', '2', '3', '4', '5', '6', '7', '8', '9', 'A', 'B', 'C', 'D', 'E', 'F'][d as int]
}

/// Bytes written as they are: `*`, `-`, `.`, `_`, ASCII digits and letters.
pub open spec fn byte_kept(b: u8) -> bool {
    b == 42 || b == 45 || b == 46 || (48 <= b <= 57) || (65 <= b <= 90) || b == 95 || (97 <= b
        <= 122)
}

/// The text for one byte: kept as is, space as `+`, otherwise `%XX`.
pub open spec fn encoded_byte(b: u8) -> Seq<char> {
    if byte_kept(b) {
        seq![b as char]
    } else if b == 32 {
        seq!['+']
    } else {
        seq!['%', hex_digit((b / 16) as nat), hex_digit((b % 16) as nat)]
    }
}

/// The text for a run of bytes, byte by byte.
pub open spec fn encoded_bytes(bytes: Seq<u8>) -> Seq<char>
    decreases bytes.len(),
{
    if bytes.len() == 0 {
        Seq::empty()
    } else {
        encoded_byte(bytes[0]) + encoded_bytes(bytes.drop_first())
    }
}

/// What form_urlencoded writes for one name or value: its UTF-8 bytes, each
/// encoded as [`encoded_byte`] says.
pub open spec fn form_encoded(s: Seq<char>) -> Seq<char> {
    encoded_bytes(encode_utf8(s))
}

/// `out` followed by one `key=value` pair, with `&` before it unless `out`
/// is empty.
pub open spec fn pair_onto(out: Seq<char>, key: Seq<char>, value: Seq<char>) -> Seq<char> {
    out + (if out.len() == 0 {
        Seq::<char>::empty()
    } else {
        seq!['&']
    }) + form_encoded(key) + seq!['='] + form_encoded(value)
}

/// `out` followed by one pair under `key` for each of `values`, in order.
pub open spec fn pairs_onto(out: Seq<char>, key: Seq<char>, values: Seq<Seq<char>>) -> Seq<char>
    decreases values.len(),
{
    if values.len() == 0 {
        out
    } else {
        pair_onto(pairs_onto(out, key, values.drop_last()), key, values.last())
    }
}

/// Emitting `a` and then `b` under one key is emitting `a + b`.
pub proof fn lemma_pairs_onto_concat(
    out: Seq<char>,
    key: Seq<char>,
    a: Seq<Seq<char>>,
    b: Seq<Seq<char>>,
)
    ensures
        pairs_onto(pairs_onto(out, key, a), key, b) == pairs_onto(out, key, a + b),
    decreases b.len(),
{
    if b.len() == 0 {
        assert(a + b =~= a);
    } else {
        lemma_pairs_onto_concat(out, key, a, b.drop_last());
        assert((a + b).drop_last() =~= a + b.drop_last());
        assert((a + b).last() == b.last());
    }
}

/// Emitting one value under a key is appending one pair.
pub proof fn lemma_pairs_onto_one(out: Seq<char>, key: Seq<char>, value: Seq<char>)
    ensures
        pairs_onto(out, key, seq![value]) == pair_onto(out, key, value),
{
    assert(seq![value].drop_last() =~= Seq::<Seq<char>>::empty());
    assert(pairs_onto(out, key, Seq::<Seq<char>>::empty()) == out);
    assert(seq![value].last() == value);
}

/// Relies on form_urlencoded::Serializer::append_pair, over the whole of
/// `target`: `&` unless `target` is empty, the name as `byte_serialize`
/// encodes its UTF-8 bytes, `=`, the value encoded the same way.
#[verifier::external_body]
fn append_pair(target: &mut String, name: &str, value: &str)
    ensures
        final(target)@ == old(target)@ + (if old(target)@.len() == 0 {
            Seq::<char>::empty()
        } else {
            seq!['&']
        }) + form_encoded(name@) + seq!['='] + form_encoded(value@),
{
    form_urlencoded::Serializer::new(target).append_pair(name, value);
}

/// The sink that appends each accepted text as a value under a known key.
pub struct ValueSink<'t, 'k> {
    pub target: &'t mut String,
    pub key: &'k str,
}

impl<'t, 'k> ValueSink<'t, 'k> {
    pub fn new(target: &'t mut String, key: &'k str) -> (r: Self)
        ensures
            *r.target == *old(target),
            *final(target) == *final(r.target),
            r.key == key,
    {
        ValueSink { target, key }
    }

    /// Appends `key=value`.
    pub fn serialize_str(&mut self, value: &str) -> (r: Result<(), Error>)
        ensures
            *final(final(self).target) == *final(old(self).target),
            final(self).key == old(self).key,
            final(self).target@ == pair_onto(old(self).target@, old(self).key@, value@),
            r is Ok,
    {
        append_pair(self.target, self.key, value);
        Ok(())
    }

    /// Appends `key=value` for constant text.
    pub fn serialize_static_str(&mut self, value: &'static str) -> (r: Result<(), Error>)
        ensures
            *final(final(self).target) == *final(old(self).target),
            final(self).key == old(self).key,
            final(self).target@ == pair_onto(old(self).target@, old(self).key@, value@),
            r is Ok,
    {
        self.serialize_str(value)
    }

    /// Appends `key=value` for computed text.
    pub fn serialize_string(&mut self, value: String) -> (r: Result<(), Error>)
        ensures
            *final(final(self).target) == *final(old(self).target),
            final(self).key == old(self).key,
            final(self).target@ == pair_onto(old(self).target@, old(self).key@, value@),
            r is Ok,
    {
        self.serialize_str(value.as_str())
    }

    /// An absent value is omitted: nothing is appended.
    pub fn serialize_none(&mut self) -> (r: Result<(), Error>)
        ensures
            *final(final(self).target) == *final(old(self).target),
            final(self).key == old(self).key,
            final(self).target@ == old(self).target@,
            r is Ok,
    {
        Ok(())
    }

    /// A present value is encoded as the value itself.
    pub fn serialize_some(&mut self, value: &Value) -> (r: Result<(), Error>)
        ensures
            *final(final(self).target) == *final(old(self).target),
            final(self).key == old(self).key,
            final(self).target@ == pairs_onto(
                old(self).target@,
                old(self).key@,
                crate::data::value_parts(*value).0,
            ),
            match crate::data::value_parts(*value).1 {
                None => r is Ok,
                Some(f) => r is Err && crate::error::error_is(r->Err_0, f, "unsupported value"@),
            },
        decreases *value, 2nat,
    {
        let mut part = PartSerializer::new(self);
        part.serialize(value)
    }

    /// The error for a shape that cannot be a value.
    pub fn unsupported(&self) -> (e: Error)
        ensures
            e is Custom && e->Custom_0@ == "unsupported value"@,
    {
        Error::Custom("unsupported value".to_owned())
    }
}

} // verus!
