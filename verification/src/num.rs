//! Decimal text of integers, both ways: what `to_string` writes and what
//! `str::parse` accepts.

use vstd::prelude::*;
use crate::text::{append, slice_of, string_of};

verus! {

pub open spec fn digit_char(d: nat) -> char {
    ((48 + d) as u8) as char
}

pub open spec fn is_digit(c: char) -> bool {
    '0' <= c && c <= '9'
}

pub open spec fn digit_val(c: char) -> nat {
    ((c as u32) - 48) as nat
}

/// The decimal text of `n`, as `to_string` writes it.
pub open spec fn decimal(n: nat) -> Seq<char>
    decreases n,
{
    if n < 10 {
        seq![digit_char(n)]
    } else {
        decimal(n / 10).push(digit_char(n % 10))
    }
}

/// The decimal text of a signed integer.
pub open spec fn signed_decimal(n: int) -> Seq<char> {
    if n < 0 {
        seq!['-'] + decimal((-n) as nat)
    } else {
        decimal(n as nat)
    }
}

/// The value of a non-empty run of ASCII digits.
pub open spec fn digits_val(s: Seq<char>) -> nat
    decreases s.len(),
{
    if s.len() == 0 {
        0
    } else {
        digits_val(s.drop_last()) * 10 + digit_val(s.last())
    }
}

pub open spec fn all_digits(s: Seq<char>) -> bool {
    forall|i: int| 0 <= i < s.len() ==> is_digit(s[i])
}

/// The digits an unsigned `str::parse` reads: one optional leading `+`.
pub open spec fn unsigned_body(s: Seq<char>) -> Seq<char> {
    if s.len() > 0 && s[0] == '+' {
        s.drop_first()
    } else {
        s
    }
}

/// `str::parse::<uN>()` with `max == uN::MAX`: an optional `+`, then one or
/// more ASCII digits whose value is at most `max`.
pub open spec fn parse_unsigned(s: Seq<char>, max: nat) -> Option<nat> {
    let b = unsigned_body(s);
    if b.len() > 0 && all_digits(b) && digits_val(b) <= max {
        Some(digits_val(b))
    } else {
        None
    }
}

/// `str::parse::<i32>()`: an optional sign, then one or more digits, in range.
pub open spec fn parse_i32(s: Seq<char>) -> Option<int> {
    if s.len() > 0 && s[0] == '-' {
        let b = s.drop_first();
        if b.len() > 0 && all_digits(b) && digits_val(b) <= 0x8000_0000 {
            Some(-(digits_val(b) as int))
        } else {
            None
        }
    } else {
        match parse_unsigned(s, 0x7FFF_FFFF) {
            Some(v) => Some(v as int),
            None => None,
        }
    }
}

fn digit_char_exec(d: u64) -> (c: char)
    requires
        d < 10,
    ensures
        c == digit_char(d as nat),
{
    let b: u8 = d as u8 + 48;
    b as char
}

/// The decimal text of `n`.
pub fn decimal_chars(n: u64) -> (v: Vec<char>)
    ensures
        v@ == decimal(n as nat),
    decreases n,
{
    if n < 10 {
        let mut v = Vec::new();
        v.push(digit_char_exec(n));
        v
    } else {
        let mut v = decimal_chars(n / 10);
        v.push(digit_char_exec(n % 10));
        v
    }
}

/// `u64::to_string`.
pub fn u64_to_string(n: u64) -> (s: String)
    ensures
        s@ == decimal(n as nat),
{
    let v = decimal_chars(n);
    string_of(&v)
}

/// `i32::to_string`.
pub fn i32_to_string(n: i32) -> (s: String)
    ensures
        s@ == signed_decimal(n as int),
{
    if n < 0 {
        let m: u64 = (0i64 - n as i64) as u64;
        let mut v: Vec<char> = Vec::new();
        v.push('-');
        let d = decimal_chars(m);
        append(&mut v, &d);
        string_of(&v)
    } else {
        u64_to_string(n as u64)
    }
}

/// `i64::to_string`.
pub fn i64_to_string(n: i64) -> (s: String)
    ensures
        s@ == signed_decimal(n as int),
{
    if n < 0 {
        let m: u64 = (0i128 - n as i128) as u64;
        let mut v: Vec<char> = Vec::new();
        v.push('-');
        let d = decimal_chars(m);
        append(&mut v, &d);
        string_of(&v)
    } else {
        u64_to_string(n as u64)
    }
}

/// A digit's character reads back as the digit.
pub proof fn lemma_digit_char(d: nat)
    requires
        d < 10,
    ensures
        is_digit(digit_char(d)),
        digit_val(digit_char(d)) == d,
{
    assert(((48 + d) as u8) as char as u32 == 48 + d);
}

/// The decimal text of `n` is a non-empty run of digits worth `n`.
pub proof fn lemma_decimal_digits(n: nat)
    ensures
        decimal(n).len() > 0,
        all_digits(decimal(n)),
        digits_val(decimal(n)) == n,
    decreases n,
{
    if n < 10 {
        lemma_digit_char(n);
        let s = decimal(n);
        assert(s.drop_last() =~= Seq::<char>::empty());
        assert(digits_val(s.drop_last()) == 0);
        assert(s.last() == digit_char(n));
    } else {
        lemma_decimal_digits(n / 10);
        lemma_digit_char(n % 10);
        let s = decimal(n);
        assert(s.drop_last() == decimal(n / 10));
        assert(s.last() == digit_char(n % 10));
        assert((n / 10) * 10 + n % 10 == n) by (nonlinear_arith);
        assert(digits_val(s) == digits_val(decimal(n / 10)) * 10 + digit_val(digit_char(n % 10)));
    }
}

/// What `to_string` writes, `str::parse` reads back.
pub proof fn lemma_parse_decimal(n: nat, max: nat)
    requires
        n <= max,
    ensures
        parse_unsigned(decimal(n), max) == Some(n),
{
    lemma_decimal_digits(n);
    assert(decimal(n)[0] != '+');
}

proof fn lemma_digits_val_mono(s: Seq<char>, i: int)
    requires
        0 <= i <= s.len(),
        all_digits(s),
    ensures
        digits_val(s.take(i)) <= digits_val(s),
    decreases s.len() - i,
{
    if i < s.len() {
        lemma_digits_val_mono(s.drop_last(), i);
        assert(s.drop_last().take(i) == s.take(i));
    } else {
        assert(s.take(i) == s);
    }
}

/// The value of the digits of `v`, or `None` when it is not a non-empty run
/// of digits or exceeds `max`.
fn digits_value(v: &[char], max: u64) -> (r: Option<u64>)
    ensures
        r == (if v@.len() > 0 && all_digits(v@) && digits_val(v@) <= max as nat {
            Some(digits_val(v@) as u64)
        } else {
            None::<u64>
        }),
{
    if v.len() == 0 {
        return None;
    }
    let mut acc: u64 = 0;
    let mut i: usize = 0;
    while i < v.len()
        invariant
            i <= v.len(),
            all_digits(v@.take(i as int)),
            acc == digits_val(v@.take(i as int)),
            acc <= max,
        decreases v.len() - i,
    {
        let c = v[i];
        assert(v@.take(i + 1).drop_last() == v@.take(i as int));
        assert(v@.take(i + 1).last() == c);
        if !(c >= '0' && c <= '9') {
            assert(!all_digits(v@)) by {
                assert(!is_digit(v@[i as int]));
            }
            return None;
        }
        let d: u64 = (c as u32 - 48) as u64;
        if d > max || acc > (max - d) / 10 {
            // the value already exceeds max, and digits only grow it
            proof {
                if d <= max {
                    assert(acc * 10 + d > max) by (nonlinear_arith)
                        requires
                            acc > (max - d) / 10,
                            d <= max,
                    ;
                }
                assert(digits_val(v@.take(i + 1)) == acc * 10 + d);
                if all_digits(v@) {
                    lemma_digits_val_mono(v@, i + 1);
                }
            }
            return None;
        }
        assert(acc * 10 + d <= max) by (nonlinear_arith)
            requires
                acc <= (max - d) / 10,
                d <= max,
        ;
        acc = acc * 10 + d;
        i += 1;
    }
    assert(v@.take(v.len() as int) == v@);
    Some(acc)
}

/// `str::parse::<uN>()` for the maximum `max`.
pub fn parse_unsigned_exec(s: &[char], max: u64) -> (r: Option<u64>)
    ensures
        match r {
            Some(n) => parse_unsigned(s@, max as nat) == Some(n as nat),
            None => parse_unsigned(s@, max as nat) is None,
        },
{
    let body = if s.len() > 0 && s[0] == '+' {
        slice_of(s, 1, s.len())
    } else {
        slice_of(s, 0, s.len())
    };
    assert(body@ == unsigned_body(s@));
    digits_value(&body, max)
}

/// `str::parse::<i32>()`.
pub fn parse_i32_exec(s: &[char]) -> (r: Option<i32>)
    ensures
        match r {
            Some(n) => parse_i32(s@) == Some(n as int),
            None => parse_i32(s@) is None,
        },
{
    if s.len() > 0 && s[0] == '-' {
        let b = slice_of(s, 1, s.len());
        assert(b@ == s@.drop_first());
        match digits_value(&b, 0x8000_0000) {
            Some(v) => {
                let r: i64 = 0i64 - v as i64;
                Some(r as i32)
            },
            None => None,
        }
    } else {
        match parse_unsigned_exec(s, 0x7FFF_FFFF) {
            Some(v) => Some(v as i32),
            None => None,
        }
    }
}

} // verus!
