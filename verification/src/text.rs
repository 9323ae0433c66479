//! Decimal rendering of unsigned integers and small string helpers.
use vstd::prelude::*;

verus! {

/// `String::push` appends one character to the end of the string.
pub assume_specification[ String::push ](s: &mut String, ch: char)
    ensures
        final(s)@ == old(s)@.push(ch),
;

/// The ASCII digit for a value below ten.
pub open spec fn digit_char(d: nat) -> char
    recommends
        d < 10,
{
    (48 + d) as char
}

/// The decimal representation of `n`, most significant digit first, without
/// leading zeros (zero itself is the single digit `0`).
pub open spec fn decimal(n: nat) -> Seq<char>
    decreases n,
{
    if n < 10 {
        seq![digit_char(n)]
    } else {
        decimal(n / 10).push(digit_char(n % 10))
    }
}

/// Zero padding to a width of at least two characters.
pub open spec fn pad2(s: Seq<char>) -> Seq<char> {
    if s.len() < 2 {
        seq!['0'] + s
    } else {
        s
    }
}

pub open spec fn is_digit(c: char) -> bool {
    '0' <= c && c <= '9'
}

/// Appends the decimal representation of `n` to `s`.
pub fn push_decimal(s: &mut String, n: u64)
    ensures
        final(s)@ == old(s)@ + decimal(n as nat),
    decreases n,
{
    if n >= 10 {
        push_decimal(s, n / 10);
    }
    let d: u8 = (n % 10) as u8;
    let c: char = (48u8 + d) as char;
    s.push(c);
    proof {
        assert(c == digit_char((n % 10) as nat));
    }
}

/// Appends the decimal representation of `n`, padded with a leading zero to
/// at least two digits.
pub fn push_decimal_pad2(s: &mut String, n: u64)
    ensures
        final(s)@ == old(s)@ + pad2(decimal(n as nat)),
{
    proof {
        lemma_decimal_len_one(n as nat);
    }
    if n < 10 {
        s.push('0');
    }
    push_decimal(s, n);
}

/// The decimal rendering of `n` as a new string.
pub fn u64_to_decimal(n: u64) -> (r: String)
    ensures
        r@ == decimal(n as nat),
{
    let mut s = String::new();
    push_decimal(&mut s, n);
    s
}

/// A decimal rendering has one digit exactly for values below ten.
pub proof fn lemma_decimal_len_one(n: nat)
    ensures
        decimal(n).len() >= 1,
        (decimal(n).len() == 1) <==> n < 10,
    decreases n,
{
    if n >= 10 {
        lemma_decimal_len_one(n / 10);
    }
}

/// Every character of a decimal rendering is a digit, and the first one is
/// `0` only for zero itself.
pub proof fn lemma_decimal_digits(n: nat)
    ensures
        forall|i: int| 0 <= i < decimal(n).len() ==> is_digit(#[trigger] decimal(n)[i]),
        decimal(n)[0] == '0' <==> n == 0,
    decreases n,
{
    lemma_decimal_len_one(n);
    if n >= 10 {
        lemma_decimal_digits(n / 10);
        lemma_decimal_len_one(n / 10);
        assert(decimal(n)[0] == decimal(n / 10)[0]);
    }
}

/// Digit characters of distinct values differ.
pub proof fn lemma_digit_char_injective(a: nat, b: nat)
    requires
        a < 10,
        b < 10,
        digit_char(a) == digit_char(b),
    ensures
        a == b,
{
    assert(digit_char(a) as int == 48 + a);
    assert(digit_char(b) as int == 48 + b);
}

/// Distinct numbers have distinct decimal renderings.
pub proof fn lemma_decimal_injective(a: nat, b: nat)
    requires
        decimal(a) == decimal(b),
    ensures
        a == b,
    decreases a,
{
    lemma_decimal_len_one(a);
    lemma_decimal_len_one(b);
    if a < 10 && b < 10 {
        assert(decimal(a) == seq![digit_char(a)]);
        assert(decimal(b) == seq![digit_char(b)]);
        assert(decimal(a)[0] == digit_char(a));
        assert(decimal(b)[0] == digit_char(b));
        lemma_digit_char_injective(a, b);
    } else if a < 10 || b < 10 {
        assert(decimal(a).len() == decimal(b).len());
    } else {
        let da = decimal(a);
        assert(da.drop_last() == decimal(a / 10));
        assert(decimal(b).drop_last() == decimal(b / 10));
        assert(da.last() == digit_char(a % 10));
        assert(decimal(b).last() == digit_char(b % 10));
        lemma_digit_char_injective(a % 10, b % 10);
        lemma_decimal_injective(a / 10, b / 10);
    }
}

/// Padding to two digits keeps distinct numbers apart.
pub proof fn lemma_pad2_decimal_injective(a: nat, b: nat)
    requires
        pad2(decimal(a)) == pad2(decimal(b)),
    ensures
        a == b,
{
    lemma_decimal_len_one(a);
    lemma_decimal_len_one(b);
    lemma_decimal_digits(a);
    lemma_decimal_digits(b);
    if a < 10 && b < 10 {
        assert(decimal(a) == pad2(decimal(a)).drop_first());
        assert(decimal(b) == pad2(decimal(b)).drop_first());
        lemma_decimal_injective(a, b);
    } else if a < 10 {
        assert(pad2(decimal(a)).len() == 2);
        assert(pad2(decimal(a))[0] == '0');
        assert(decimal(b)[0] == '0');
    } else if b < 10 {
        assert(pad2(decimal(b))[0] == '0');
        assert(decimal(a)[0] == '0');
    } else {
        lemma_decimal_injective(a, b);
    }
}

} // verus!

verus! {

/// The characters of `s`, in order.
pub fn chars_of(s: &str) -> (r: Vec<char>)
    ensures
        r@ == s@,
{
    let mut r: Vec<char> = Vec::new();
    for c in it: s.chars()
        invariant
            it.seq() == s@,
            r@ == it.seq().take(it.index()),
    {
        r.push(c);
    }
    r
}

} // verus!
