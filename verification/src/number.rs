//! Numbers in text.

use crate::text::{chars_of, copy_str, decimal, decimal_is_made_of_digits, is_ascii_digit, is_space, string_of};
use vstd::prelude::*;

verus! {

/// The number that digits stand for.
pub open spec fn digits_value(d: Seq<char>) -> nat
    decreases d.len(),
{
    if d.len() == 0 {
        0
    } else {
        digits_value(d.drop_last()) * 10 + (d.last() as int - 48) as nat
    }
}

/// The number of digits at the start of `s`.
pub open spec fn digit_run(s: Seq<char>) -> nat
    decreases s.len(),
{
    if s.len() > 0 && is_ascii_digit(s[0]) {
        1 + digit_run(s.skip(1))
    } else {
        0
    }
}

/// The number at the start of a text; zero where there is none.
pub open spec fn leading_value(p: Seq<char>) -> nat {
    digits_value(p.take(digit_run(p) as int))
}

/// White space behind a text leaves the number at its start as it is.
pub proof fn leading_value_before(p: Seq<char>, c: char)
    requires
        is_space(c),
    ensures
        leading_value(p.push(c)) == leading_value(p),
{
    let n = digit_run(p) as int;
    let q = p.push(c);
    digit_run_bounds(p);
    assert forall|i: int| 0 <= i < n implies is_ascii_digit(#[trigger] q[i]) by {
        assert(q[i] == p[i]);
    }
    digit_run_is(q, n);
    assert(q.take(n) =~= p.take(n));
}

/// The digit zero stands for zero.
pub proof fn zero_is_zero()
    ensures
        leading_value(Seq::<char>::empty().push('0')) == 0,
{
    let z = Seq::<char>::empty().push('0');
    digit_run_is(z, 1);
    assert(z.take(1) =~= z);
    assert(z.drop_last() =~= Seq::<char>::empty());
    reveal_with_fuel(digits_value, 3);
}

proof fn digit_run_bounds(s: Seq<char>)
    ensures
        digit_run(s) <= s.len(),
        forall|i: int| 0 <= i < digit_run(s) ==> is_ascii_digit(#[trigger] s[i]),
        digit_run(s) < s.len() ==> !is_ascii_digit(s[digit_run(s) as int]),
    decreases s.len(),
{
    if s.len() > 0 && is_ascii_digit(s[0]) {
        let t = s.skip(1);
        digit_run_bounds(t);
        assert forall|i: int| 0 <= i < digit_run(s) implies is_ascii_digit(#[trigger] s[i]) by {
            if i > 0 {
                assert(t[i - 1] == s[i]);
            }
        }
        if digit_run(s) < s.len() {
            assert(t[digit_run(t) as int] == s[digit_run(s) as int]);
        }
    }
}

proof fn digit_run_is(s: Seq<char>, n: int)
    requires
        0 <= n <= s.len(),
        forall|i: int| 0 <= i < n ==> is_ascii_digit(#[trigger] s[i]),
        n < s.len() ==> !is_ascii_digit(s[n]),
    ensures
        digit_run(s) == n,
{
    digit_run_bounds(s);
    if digit_run(s) < n {
        assert(is_ascii_digit(s[digit_run(s) as int]));
    }
    if digit_run(s) > n {
        assert(is_ascii_digit(s[n]));
    }
}

proof fn value_grows(d: Seq<char>, n: int)
    requires
        0 <= n <= d.len(),
    ensures
        digits_value(d.take(n)) <= digits_value(d),
    decreases d.len() - n,
{
    if n < d.len() {
        value_grows(d, n + 1);
        assert(d.take(n + 1).drop_last() =~= d.take(n));
    } else {
        assert(d.take(n) =~= d);
    }
}

/// The number at the start of a text, where it fits.
pub fn leading_number(p: &str) -> (r: Option<u64>)
    ensures
        match r {
            Some(n) => leading_value(p@) == n,
            None => leading_value(p@) > u64::MAX,
        },
{
    let v = chars_of(p);
    let mut n: u64 = 0;
    let mut i: usize = 0;
    assert(p@.take(0) =~= Seq::<char>::empty());
    while i < v.len() && '0' <= v[i] && v[i] <= '9'
        invariant
            v@ == p@,
            i <= v@.len(),
            forall|j: int| 0 <= j < i ==> is_ascii_digit(#[trigger] p@[j]),
            n == digits_value(p@.take(i as int)),
        decreases v@.len() - i,
    {
        let d: u64 = (v[i] as u32 - 48) as u64;
        proof {
            assert(p@.take(i + 1).drop_last() =~= p@.take(i as int));
            assert(p@.take(i + 1).last() == p@[i as int]);
            assert(digits_value(p@.take(i + 1)) == n * 10 + d);
        }
        if n > (u64::MAX - d) / 10 {
            proof {
                digit_run_bounds(p@);
                assert(digit_run(p@) >= i + 1) by {
                    if digit_run(p@) < i + 1 {
                        assert(digit_run(p@) < p@.len());
                        if digit_run(p@) < i {
                            assert(is_ascii_digit(p@[digit_run(p@) as int]));
                        }
                    }
                }
                let run = p@.take(digit_run(p@) as int);
                value_grows(run, i + 1);
                assert(run.take(i + 1) =~= p@.take(i + 1));
            }
            return None;
        }
        n = n * 10 + d;
        i += 1;
    }
    proof {
        digit_run_is(p@, i as int);
    }
    Some(n)
}

/// Whether a text holds nothing but digits.
fn all_digits(p: &str) -> (r: bool)
    ensures
        r == (digit_run(p@) == p@.len()),
{
    let v = chars_of(p);
    let mut i: usize = 0;
    while i < v.len() && '0' <= v[i] && v[i] <= '9'
        invariant
            v@ == p@,
            i <= v@.len(),
            forall|j: int| 0 <= j < i ==> is_ascii_digit(#[trigger] p@[j]),
        decreases v@.len() - i,
    {
        i += 1;
    }
    proof {
        digit_run_is(p@, i as int);
    }
    i == v.len()
}

/// The number that a text stands for: digits, with a plus sign before them or
/// none.
pub open spec fn unsigned_value(s: Seq<char>) -> Option<nat> {
    let d = if s.len() > 0 && s[0] == '+' {
        s.skip(1)
    } else {
        s
    };
    if d.len() > 0 && digit_run(d) == d.len() {
        Some(digits_value(d))
    } else {
        None
    }
}

/// The number that a text stands for, where it is one and fits.
pub fn parse_unsigned(s: &str) -> (r: Option<u64>)
    ensures
        match r {
            Some(n) => unsigned_value(s@) == Some(n as nat),
            None => unsigned_value(s@) matches Some(n) ==> n > u64::MAX,
        },
{
    let v = chars_of(s);
    let d = if v.len() > 0 && v[0] == '+' {
        assert(v@.subrange(1, v@.len() as int) =~= s@.skip(1));
        string_of(&v, 1, v.len())
    } else {
        copy_str(s)
    };
    if d.as_str().is_empty() || !all_digits(d.as_str()) {
        return None;
    }
    assert(d@.take(d@.len() as int) =~= d@);
    leading_number(d.as_str())
}

/// What is written in decimal notation is read as the number that was written, with
/// a plus sign before it or without, wherever no digit follows.
pub proof fn numbers_read_back(n: nat, rest: Seq<char>)
    requires
        rest.len() == 0 || !is_ascii_digit(rest[0]),
    ensures
        unsigned_value(decimal(n)) == Some(n),
        unsigned_value(seq!['+'] + decimal(n)) == Some(n),
        leading_value(decimal(n) + rest) == n,
{
    let d = decimal(n);
    decimal_is_made_of_digits(n, 0);
    decimal_value(n);
    let k = d.len() as int;
    digit_run_is(d, k);
    assert(d.take(k) =~= d);
    assert(d[0] != '+');
    assert((seq!['+'] + d).skip(1) =~= d);
    let all = d + rest;
    assert forall|i: int| 0 <= i < k implies is_ascii_digit(#[trigger] all[i]) by {
        assert(all[i] == d[i]);
    }
    digit_run_is(all, k);
    assert(all.take(k) =~= d);
}

proof fn decimal_value(n: nat)
    ensures
        digits_value(decimal(n)) == n,
    decreases n,
{
    decimal_is_made_of_digits(n, 0);
    assert forall|k: int| 0 <= k < 10 implies (#[trigger] crate::text::digit_char(k)) as int == 48 + k by {}
    assert(crate::text::digit_char((n % 10) as int) as int == 48 + n % 10);
    let d = decimal(n);
    if n < 10 {
        assert(d.drop_last() =~= Seq::<char>::empty());
        assert(digits_value(d.drop_last()) == 0);
    } else {
        decimal_value(n / 10);
        assert(d.drop_last() =~= decimal(n / 10));
    }
}

/// What holds anything but digits, or nothing at all, is no number.
pub proof fn only_digits_are_numbers(s: Seq<char>, i: int)
    requires
        0 <= i < s.len(),
        !is_ascii_digit(s[i]),
        i > 0 || s[i] != '+',
    ensures
        unsigned_value(s) is None,
        unsigned_value(seq![]) is None,
        unsigned_value(seq!['+']) is None,
{
    let d = if s[0] == '+' {
        s.skip(1)
    } else {
        s
    };
    let at = if s[0] == '+' {
        i - 1
    } else {
        i
    };
    assert(d[at] == s[i]);
    digit_run_bounds(d);
    assert(seq!['+'].skip(1) =~= Seq::<char>::empty());
}

} // verus!
