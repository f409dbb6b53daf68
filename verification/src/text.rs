//! Small text utilities shared by the wire codecs: decimal digit
//! printing and scanning over character sequences, and conversion
//! between `String` and `Vec<char>`.

use vstd::prelude::*;
use vstd::std_specs::iter::IteratorSpec;

verus! {

/// The character for the decimal digit `d` (meaningful for `0 <= d < 10`).
pub open spec fn digit_char(d: int) -> char {
    ((d + 48) as u8) as char
}

/// Decimal digits of `n`, most significant first, without leading zeros
/// (meaningful for `n >= 0`).
pub open spec fn dec_digits(n: int) -> Seq<char>
    decreases n,
{
    if n < 10 {
        seq![digit_char(n)]
    } else {
        dec_digits(n / 10).push(digit_char(n % 10))
    }
}

/// Decimal digits of `n`, with a leading `-` when `n` is negative.
pub open spec fn int_digits(n: int) -> Seq<char> {
    if n < 0 {
        seq!['-'] + dec_digits(-n)
    } else {
        dec_digits(n)
    }
}

/// `n` printed as exactly two digits (meaningful for `0 <= n < 100`).
pub open spec fn two_digits(n: int) -> Seq<char> {
    seq![digit_char(n / 10), digit_char(n % 10)]
}

/// `n` printed as exactly four digits (meaningful for `0 <= n < 10000`).
pub open spec fn four_digits(n: int) -> Seq<char> {
    seq![
        digit_char(n / 1000),
        digit_char((n / 100) % 10),
        digit_char((n / 10) % 10),
        digit_char(n % 10),
    ]
}

pub open spec fn is_dec_digit(c: char) -> bool {
    48 <= c as int <= 57
}

/// Numeric value of a digit character (meaningful when `is_dec_digit(c)`).
pub open spec fn digit_val(c: char) -> int {
    c as int - 48
}

pub fn push_digit(out: &mut Vec<char>, d: u8)
    requires
        d < 10,
    ensures
        final(out)@ == old(out)@.push(digit_char(d as int)),
{
    out.push((48 + d) as char);
}

pub fn push_dec_u64(out: &mut Vec<char>, n: u64)
    ensures
        final(out)@ == old(out)@ + dec_digits(n as int),
    decreases n,
{
    if n < 10 {
        push_digit(out, n as u8);
        assert(out@ =~= old(out)@ + dec_digits(n as int));
    } else {
        push_dec_u64(out, n / 10);
        push_digit(out, (n % 10) as u8);
        assert(out@ =~= old(out)@ + dec_digits(n as int));
    }
}

pub fn push_dec_i64(out: &mut Vec<char>, n: i64)
    requires
        n > i64::MIN,
    ensures
        final(out)@ == old(out)@ + int_digits(n as int),
{
    if n < 0 {
        out.push('-');
        push_dec_u64(out, (-n) as u64);
        assert(out@ =~= old(out)@ + int_digits(n as int));
    } else {
        push_dec_u64(out, n as u64);
    }
}

pub fn push_two_digits(out: &mut Vec<char>, n: u8)
    requires
        n < 100,
    ensures
        final(out)@ == old(out)@ + two_digits(n as int),
{
    push_digit(out, n / 10);
    push_digit(out, n % 10);
    assert(out@ =~= old(out)@ + two_digits(n as int));
}

pub fn push_four_digits(out: &mut Vec<char>, n: u16)
    requires
        n < 10000,
    ensures
        final(out)@ == old(out)@ + four_digits(n as int),
{
    push_digit(out, (n / 1000) as u8);
    push_digit(out, ((n / 100) % 10) as u8);
    push_digit(out, ((n / 10) % 10) as u8);
    push_digit(out, (n % 10) as u8);
    assert(out@ =~= old(out)@ + four_digits(n as int));
}

/// Appends every character of `s` to `out`.
pub fn push_str_chars(out: &mut Vec<char>, s: &str)
    ensures
        final(out)@ == old(out)@ + s@,
{
    let cs = str_to_chars(s);
    let mut i: usize = 0;
    while i < cs.len()
        invariant
            i <= cs.len(),
            cs@ == s@,
            out@ == old(out)@ + s@.take(i as int),
        decreases cs.len() - i,
    {
        out.push(cs[i]);
        assert(out@ =~= old(out)@ + s@.take(i as int + 1));
        i += 1;
    }
    assert(out@ =~= old(out)@ + s@);
}

/// Collects the characters of `s` into a vector, in order.
pub fn str_to_chars(s: &str) -> (r: Vec<char>)
    ensures
        r@ == s@,
{
    broadcast use vstd::string::axiom_spec_iter;
    broadcast use vstd::string::next_postcondition;

    let mut it = s.chars();
    let mut v: Vec<char> = Vec::new();
    loop
        invariant
            it.obeys_prophetic_iter_laws(),
            IteratorSpec::decrease(&it) is Some,
            v@ + it.remaining() == s@,
        decreases IteratorSpec::decrease(&it)->0,
    {
        match it.next() {
            Some(c) => {
                v.push(c);
                assert(v@ + it.remaining() =~= s@);
            },
            None => {
                assert(v@ =~= s@);
                return v;
            },
        }
    }
}

/// Relies on String::push: appending one character to the end.
pub assume_specification[ String::push ](s: &mut String, c: char)
    ensures
        final(s)@ == old(s)@.push(c),
;

/// Builds the string holding exactly the characters of `v`, in order.
pub fn chars_to_string(v: &Vec<char>) -> (r: String)
    ensures
        r@ == v@,
{
    let mut s = String::new();
    let mut i: usize = 0;
    while i < v.len()
        invariant
            i <= v.len(),
            s@ == v@.take(i as int),
        decreases v.len() - i,
    {
        s.push(v[i]);
        assert(s@ =~= v@.take(i as int + 1));
        i += 1;
    }
    assert(s@ =~= v@);
    s
}

} // verus!
