use crate::data::{bool_text, elems_parts, value_parts, Value};
use crate::decimal::{lemma_int_text_round_trip, parse_int};
use crate::error::Fault;
use crate::value::{lemma_pairs_onto_one, pair_onto, pairs_onto};
use vstd::prelude::*;

verus! {

/// A boolean encodes as exactly one pair, whose value is `true` or `false`.
pub proof fn law_bool_one_pair(b: bool, out: Seq<char>, key: Seq<char>)
    ensures
        value_parts(Value::Bool(b)).1 is None,
        value_parts(Value::Bool(b)).0.len() == 1,
        pairs_onto(out, key, value_parts(Value::Bool(b)).0) == pair_onto(
            out,
            key,
            if b {
                "true"@
            } else {
                "false"@
            },
        ),
{
    lemma_pairs_onto_one(out, key, bool_text(b));
}

/// The text of a signed integer reads back as that integer.
pub proof fn law_signed_round_trip(n: i128)
    ensures
        value_parts(Value::Int(n)).1 is None,
        value_parts(Value::Int(n)).0.len() == 1,
        parse_int(value_parts(Value::Int(n)).0[0]) == n as int,
{
    lemma_int_text_round_trip(n as int);
}

/// The text of an unsigned integer reads back as that integer.
pub proof fn law_unsigned_round_trip(n: u128)
    ensures
        value_parts(Value::UInt(n)).1 is None,
        value_parts(Value::UInt(n)).0.len() == 1,
        parse_int(value_parts(Value::UInt(n)).0[0]) == n as int,
{
    lemma_int_text_round_trip(n as int);
}

/// An absent value emits no pair.
pub proof fn law_absent_emits_nothing(out: Seq<char>, key: Seq<char>)
    ensures
        value_parts(Value::Absent) == (Seq::<Seq<char>>::empty(), None::<Fault>),
        pairs_onto(out, key, value_parts(Value::Absent).0) == out,
{
}

/// A present value emits what the value itself emits.
pub proof fn law_present_is_transparent(x: Value)
    ensures
        value_parts(Value::Present(Box::new(x))) == value_parts(x),
{
}

/// A sequence whose elements each stand for one text emits one pair per
/// element, in order; a sequence that declared length zero emits, besides,
/// one pair with an empty value.
pub proof fn law_sequence_pairs(size: Option<usize>, elems: Vec<Value>)
    requires
        forall|i: int|
            0 <= i < elems.len() ==> (#[trigger] value_parts(elems@[i])).1 is None
                && value_parts(elems@[i]).0.len() == 1,
    ensures
        ({
            let texts = Seq::new(elems.len() as nat, |i: int| value_parts(elems@[i]).0[0]);
            value_parts(Value::Sequence(size, elems)) == (if size == Some(0usize) {
                texts.push(Seq::<char>::empty())
            } else {
                texts
            }, None::<Fault>)
        }),
        size != Some(0usize) ==> value_parts(Value::Sequence(size, elems)).0.len() == elems.len(),
        size == Some(0usize) && elems.len() == 0 ==> value_parts(Value::Sequence(size, elems)).0
            == seq![Seq::<char>::empty()],
{
    let f = |i: int| value_parts(elems@[i]).0[0];
    lemma_elems_single_texts(elems@, elems.len() as int);
    assert(elems@.take(elems.len() as int) =~= elems@);
    assert(Seq::new(elems.len() as nat, f).len() == elems.len());
    if size == Some(0usize) && elems.len() == 0 {
        assert(Seq::new(0nat, f).push(Seq::<char>::empty()) =~= seq![Seq::<char>::empty()]);
    }
}

proof fn lemma_elems_single_texts(elems: Seq<Value>, n: int)
    requires
        0 <= n <= elems.len(),
        forall|i: int|
            0 <= i < elems.len() ==> (#[trigger] value_parts(elems[i])).1 is None
                && value_parts(elems[i]).0.len() == 1,
    ensures
        elems_parts(elems.take(n)) == (
            Seq::new(n as nat, |i: int| value_parts(elems[i]).0[0]),
            None::<Fault>,
        ),
    decreases n,
{
    if n == 0 {
        assert(elems.take(0) =~= Seq::<Value>::empty());
        assert(Seq::new(0nat, |i: int| value_parts(elems[i]).0[0]) =~= Seq::<Seq<char>>::empty());
    } else {
        lemma_elems_single_texts(elems, n - 1);
        assert(elems.take(n).drop_last() =~= elems.take(n - 1));
        assert(elems.take(n).last() == elems[n - 1]);
        let one = value_parts(elems[n - 1]).0;
        assert(one =~= seq![one[0]]);
        assert(Seq::new((n - 1) as nat, |i: int| value_parts(elems[i]).0[0]) + one =~= Seq::new(
            n as nat,
            |i: int| value_parts(elems[i]).0[0],
        ));
    }
}

} // verus!
