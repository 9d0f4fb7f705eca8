use vstd::prelude::*;

verus! {

/// The decimal digit character for `d < 10`.
pub open spec fn digit_char(d: nat) -> char {
    seq!['0', '1', '2', '3', '4', '5', '6', '7', '8', '9'][d as int]
}

/// The value of a decimal digit character (or 10 for any other character).
pub open spec fn digit_value(c: char) -> nat {
    if c == '0' { 0 }
    else if c == '1' { 1 }
    else if c == '2' { 2 }
    else if c == '3' { 3 }
    else if c == '4' { 4 }
    else if c == '5' { 5 }
    else if c == '6' { 6 }
    else if c == '7' { 7 }
    else if c == '8' { 8 }
    else if c == '9' { 9 }
    else { 10 }
}

/// The shortest decimal text of a natural number: no leading zeros.
pub open spec fn nat_text(n: nat) -> Seq<char>
    decreases n,
{
    if n < 10 {
        seq![digit_char(n)]
    } else {
        nat_text(n / 10).push(digit_char(n % 10))
    }
}

/// The canonical decimal text of an integer: `-` before the digits of a
/// negative number, nothing before those of any other.
pub open spec fn int_text(n: int) -> Seq<char> {
    if n < 0 {
        seq!['-'] + nat_text((-n) as nat)
    } else {
        nat_text(n as nat)
    }
}

/// Reads a run of decimal digits.
pub open spec fn parse_nat(s: Seq<char>) -> int
    decreases s.len(),
{
    if s.len() == 0 {
        0
    } else {
        parse_nat(s.drop_last()) * 10 + digit_value(s.last())
    }
}

/// Reads a decimal integer with an optional leading `-`.
pub open spec fn parse_int(s: Seq<char>) -> int {
    if s.len() > 0 && s[0] == '-' {
        -parse_nat(s.drop_first())
    } else {
        parse_nat(s)
    }
}

/// Relies on itoa::Buffer::format for `u128`: the canonical decimal text.
#[verifier::external_body]
pub(crate) fn format_u128(v: u128) -> (r: String)
    ensures
        r@ == int_text(v as int),
{
    itoa::Buffer::new().format(v).to_owned()
}

/// Relies on itoa::Buffer::format for `i128`: the canonical decimal text.
#[verifier::external_body]
pub(crate) fn format_i128(v: i128) -> (r: String)
    ensures
        r@ == int_text(v as int),
{
    itoa::Buffer::new().format(v).to_owned()
}

proof fn lemma_digit_round_trip(d: nat)
    requires
        d < 10,
    ensures
        digit_value(digit_char(d)) == d,
        digit_char(d) != '-',
{
    assert(d == 0 || d == 1 || d == 2 || d == 3 || d == 4 || d == 5 || d == 6 || d == 7 || d == 8
        || d == 9);
}

/// Reading back the decimal text of `n` gives `n`; the text never starts
/// with `-`.
pub proof fn lemma_nat_text_round_trip(n: nat)
    ensures
        parse_nat(nat_text(n)) == n,
        nat_text(n).len() > 0,
        nat_text(n)[0] != '-',
    decreases n,
{
    if n < 10 {
        lemma_digit_round_trip(n);
        assert(nat_text(n).drop_last() =~= Seq::<char>::empty());
        assert(parse_nat(Seq::<char>::empty()) == 0);
    } else {
        lemma_nat_text_round_trip(n / 10);
        lemma_digit_round_trip(n % 10);
        let t = nat_text(n);
        assert(t.drop_last() =~= nat_text(n / 10));
        assert(t.last() == digit_char(n % 10));
        assert(t[0] == nat_text(n / 10)[0]);
        assert((n / 10) * 10 + n % 10 == n);
    }
}

/// Reading back the decimal text of any integer gives that integer.
pub proof fn lemma_int_text_round_trip(n: int)
    ensures
        parse_int(int_text(n)) == n,
{
    if n < 0 {
        lemma_nat_text_round_trip((-n) as nat);
        let t = int_text(n);
        assert(t.drop_first() =~= nat_text((-n) as nat));
    } else {
        lemma_nat_text_round_trip(n as nat);
    }
}

} // verus!
