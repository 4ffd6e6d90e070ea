//! Natural numbers in decimal notation.

use vstd::prelude::*;
use crate::text::push_char;

verus! {

pub open spec fn is_digit(c: char) -> bool {
    '0' <= c && c <= '9'
}

/// The value of one decimal digit.
pub open spec fn digit_value(c: char) -> nat {
    (c as u8 - 48) as nat
}

/// The digit that stands for a value below ten.
pub open spec fn digit_char(d: nat) -> char {
    (d + 48) as u8 as char
}

/// Whether a text is made of decimal digits only.
pub open spec fn all_digits(ds: Seq<char>) -> bool {
    forall|i: int| 0 <= i < ds.len() ==> is_digit(#[trigger] ds[i])
}

/// The number that a run of decimal digits denotes; leading zeros do not
/// count, and the empty run denotes zero.
pub open spec fn decimal_value(ds: Seq<char>) -> nat
    decreases ds.len(),
{
    if ds.len() == 0 {
        0
    } else {
        decimal_value(ds.drop_last()) * 10 + digit_value(ds.last())
    }
}

/// The decimal notation of a number, without leading zeros.
pub open spec fn decimal_digits(n: nat) -> Seq<char>
    decreases n,
{
    if n < 10 {
        seq![digit_char(n)]
    } else {
        decimal_digits(n / 10).push(digit_char(n % 10))
    }
}

/// Reading back the notation of a number gives the number.
pub proof fn lemma_decimal_round_trip(n: nat)
    ensures
        decimal_value(decimal_digits(n)) == n,
        all_digits(decimal_digits(n)),
        decimal_digits(n).len() >= 1,
    decreases n,
{
    let ds = decimal_digits(n);
    if n < 10 {
        assert(ds.drop_last() =~= Seq::<char>::empty());
        assert(ds.last() == digit_char(n));
        assert(decimal_value(ds.drop_last()) == 0);
    } else {
        lemma_decimal_round_trip(n / 10);
        assert(ds.drop_last() =~= decimal_digits(n / 10));
        assert(ds.last() == digit_char(n % 10));
        assert forall|i: int| 0 <= i < ds.len() implies is_digit(#[trigger] ds[i]) by {
            if i < ds.len() - 1 {
                assert(ds[i] == decimal_digits(n / 10)[i]);
            }
        }
    }
}

/// A run of digits denotes at least what any of its prefixes denotes.
pub proof fn lemma_decimal_prefix(ds: Seq<char>, k: int)
    requires
        0 <= k <= ds.len(),
    ensures
        decimal_value(ds.subrange(0, k)) <= decimal_value(ds),
    decreases ds.len() - k,
{
    if k == ds.len() {
        assert(ds.subrange(0, k) =~= ds);
    } else {
        assert(ds.drop_last().subrange(0, k) =~= ds.subrange(0, k));
        lemma_decimal_prefix(ds.drop_last(), k);
    }
}

/// The number that the digits `v[from..to]` denote, where it is no
/// greater than `max`.
pub fn parse_decimal_bounded(v: &Vec<char>, from: usize, to: usize, max: u128) -> (r: Option<u128>)
    requires
        from <= to <= v.len(),
        all_digits(v@.subrange(from as int, to as int)),
        max <= u128::MAX / 16,
    ensures
        match r {
            Some(n) => n == decimal_value(v@.subrange(from as int, to as int)) && n <= max,
            None => decimal_value(v@.subrange(from as int, to as int)) > max,
        },
{
    let ghost ds = v@.subrange(from as int, to as int);
    let mut acc: u128 = 0;
    let mut i: usize = from;
    assert(ds.subrange(0, 0) =~= Seq::<char>::empty());
    while i < to
        invariant
            from <= i <= to <= v.len(),
            ds == v@.subrange(from as int, to as int),
            all_digits(ds),
            acc == decimal_value(ds.subrange(0, i - from)),
            acc <= max,
            max <= u128::MAX / 16,
        decreases to - i,
    {
        let c = v[i];
        assert(ds[i - from] == c);
        assert(is_digit(c));
        let d: u128 = (c as u8 - 48) as u128;
        let ghost next = ds.subrange(0, i - from + 1);
        assert(next.drop_last() =~= ds.subrange(0, i - from));
        assert(next.last() == c);
        assert(decimal_value(next) == acc * 10 + d);
        let value = acc * 10 + d;
        if value > max {
            proof {
                lemma_decimal_prefix(ds, i - from + 1);
            }
            return None;
        }
        acc = value;
        i = i + 1;
    }
    assert(ds.subrange(0, to - from) =~= ds);
    Some(acc)
}

/// The number that the digits `v[from..to]` denote, where it fits the
/// machine's word.
pub fn parse_decimal(v: &Vec<char>, from: usize, to: usize) -> (r: Option<usize>)
    requires
        from <= to <= v.len(),
        all_digits(v@.subrange(from as int, to as int)),
    ensures
        match r {
            Some(n) => n == decimal_value(v@.subrange(from as int, to as int)),
            None => decimal_value(v@.subrange(from as int, to as int)) > usize::MAX,
        },
{
    match parse_decimal_bounded(v, from, to, usize::MAX as u128) {
        Some(n) => Some(n as usize),
        None => None,
    }
}

/// Whether every character of `v` is a decimal digit.
pub fn only_digits(v: &Vec<char>) -> (r: bool)
    ensures
        r == all_digits(v@),
{
    let mut i: usize = 0;
    while i < v.len()
        invariant
            i <= v.len(),
            forall|j: int| 0 <= j < i ==> is_digit(#[trigger] v@[j]),
        decreases v.len() - i,
    {
        if !('0' <= v[i] && v[i] <= '9') {
            return false;
        }
        i = i + 1;
    }
    true
}

/// The number that a text denotes: one or more decimal digits, nothing
/// else, and a value no greater than `max`.
pub open spec fn spec_number(text: Seq<char>, max: nat) -> Option<nat> {
    if text.len() > 0 && all_digits(text) && decimal_value(text) <= max {
        Some(decimal_value(text))
    } else {
        None
    }
}

/// Reads a number no greater than `max` from a text.
pub fn parse_number(text: &str, max: u128) -> (r: Option<u128>)
    requires
        max <= u128::MAX / 16,
    ensures
        match r {
            Some(n) => spec_number(text@, max as nat) == Some(n as nat),
            None => spec_number(text@, max as nat) is None,
        },
{
    let v = crate::text::chars_of(text);
    if v.len() == 0 || !only_digits(&v) {
        return None;
    }
    assert(v@.subrange(0, v@.len() as int) =~= v@);
    parse_decimal_bounded(&v, 0, v.len(), max)
}

/// The number that a text denotes where a plus sign may lead: an
/// optional `+`, then one or more decimal digits, nothing else, and a
/// value no greater than `max`.
pub open spec fn spec_unsigned(text: Seq<char>, max: nat) -> Option<nat> {
    if text.len() > 0 && text[0] == '+' {
        spec_number(text.drop_first(), max)
    } else {
        spec_number(text, max)
    }
}

/// Reads a number no greater than `max` from a text; a plus sign may
/// lead.
pub fn parse_unsigned(text: &str, max: u128) -> (r: Option<u128>)
    requires
        max <= u128::MAX / 16,
    ensures
        match r {
            Some(n) => spec_unsigned(text@, max as nat) == Some(n as nat),
            None => spec_unsigned(text@, max as nat) is None,
        },
{
    let v = crate::text::chars_of(text);
    let from: usize = if v.len() > 0 && v[0] == '+' {
        1
    } else {
        0
    };
    let ghost digits = v@.subrange(from as int, v@.len() as int);
    proof {
        if from == 1 {
            assert(digits =~= text@.drop_first());
        } else {
            assert(digits =~= text@);
        }
    }
    assert(spec_unsigned(text@, max as nat) == spec_number(digits, max as nat));
    if v.len() == from {
        return None;
    }
    let mut i: usize = from;
    while i < v.len()
        invariant
            from <= i <= v.len(),
            digits == v@.subrange(from as int, v@.len() as int),
            spec_unsigned(text@, max as nat) == spec_number(digits, max as nat),
            forall|j: int| from <= j < i ==> is_digit(#[trigger] v@[j]),
        decreases v.len() - i,
    {
        if !('0' <= v[i] && v[i] <= '9') {
            assert(!is_digit(digits[i - from]));
            return None;
        }
        i = i + 1;
    }
    assert forall|j: int| 0 <= j < digits.len() implies is_digit(#[trigger] digits[j]) by {
        assert(digits[j] == v@[j + from]);
    }
    parse_decimal_bounded(&v, from, v.len(), max)
}

/// The decimal notation of `n`.
pub fn render_decimal_wide(n: u128) -> (s: String)
    ensures
        s@ == decimal_digits(n as nat),
    decreases n,
{
    if n < 10 {
        let mut s = String::new();
        push_char(&mut s, (n as u8 + 48) as char);
        assert(s@ =~= seq![digit_char(n as nat)]);
        s
    } else {
        let mut s = render_decimal_wide(n / 10);
        push_char(&mut s, ((n % 10) as u8 + 48) as char);
        s
    }
}

/// The decimal notation of `n`.
pub fn render_decimal(n: usize) -> (s: String)
    ensures
        s@ == decimal_digits(n as nat),
{
    render_decimal_wide(n as u128)
}

/// The decimal notation of `n`.
pub fn render_decimal_u64(n: u64) -> (s: String)
    ensures
        s@ == decimal_digits(n as nat),
{
    render_decimal_wide(n as u128)
}

} // verus!
