//! Decimal integers as text: how numbers are written into commands and
//! read from query parameters and arguments.

use vstd::prelude::*;
use crate::text::{chars_of, string_of};

verus! {

pub open spec fn is_digit(c: char) -> bool {
    '0' <= c <= '9'
}

pub open spec fn digit_value(c: char) -> int {
    c as int - '0' as int
}

pub open spec fn digit_char(d: int) -> char {
    (d + '0' as int) as char
}

pub open spec fn all_digits(s: Seq<char>) -> bool {
    forall|i: int| 0 <= i < s.len() ==> is_digit(#[trigger] s[i])
}

/// The number that a run of decimal digits denotes, most significant first.
pub open spec fn digits_value(s: Seq<char>) -> int
    decreases s.len(),
{
    if s.len() == 0 {
        0
    } else {
        digits_value(s.drop_last()) * 10 + digit_value(s.last())
    }
}

/// The decimal digits of `n`, without leading zeros.
pub open spec fn decimal_digits(n: nat) -> Seq<char>
    decreases n,
{
    if n < 10 {
        seq![digit_char(n as int)]
    } else {
        decimal_digits(n / 10).push(digit_char((n % 10) as int))
    }
}

/// The decimal text of an integer: a minus sign for a negative one, then
/// its digits.
pub open spec fn decimal(n: int) -> Seq<char> {
    if n < 0 {
        seq!['-'] + decimal_digits((-n) as nat)
    } else {
        decimal_digits(n as nat)
    }
}

/// What a decimal text denotes: an optional sign (`-` only where `min` is
/// negative), then one digit or more, and a value within `min ..= max`.
pub open spec fn parse_decimal(s: Seq<char>, min: int, max: int) -> Option<int> {
    let signed = s.len() > 0 && (s[0] == '+' || (s[0] == '-' && min < 0));
    let body = if signed {
        s.drop_first()
    } else {
        s
    };
    let magnitude = digits_value(body);
    let value = if s.len() > 0 && s[0] == '-' {
        -magnitude
    } else {
        magnitude
    };
    if body.len() > 0 && all_digits(body) && min <= value <= max {
        Some(value)
    } else {
        None
    }
}

pub(crate) proof fn lemma_digits_value_bounds(s: Seq<char>)
    requires
        all_digits(s),
    ensures
        0 <= digits_value(s),
    decreases s.len(),
{
    if s.len() > 0 {
        assert(is_digit(s[s.len() - 1]));
        lemma_digits_value_bounds(s.drop_last());
    }
}

/// A longer run of digits never denotes less than one of its prefixes.
proof fn lemma_digits_value_prefix(s: Seq<char>, k: int)
    requires
        all_digits(s),
        0 <= k <= s.len(),
    ensures
        0 <= digits_value(s.take(k)) <= digits_value(s),
    decreases s.len() - k,
{
    assert(all_digits(s.take(k)));
    lemma_digits_value_bounds(s.take(k));
    if k < s.len() {
        let longer = s.take(k + 1);
        assert(longer.drop_last() == s.take(k));
        assert(is_digit(s[k]));
        assert(longer.last() == s[k]);
        lemma_digits_value_prefix(s, k + 1);
    } else {
        assert(s.take(k) == s);
    }
}

/// The magnitude of a run of digits, where it is at most `limit`.
pub(crate) fn read_digits(s: &Vec<char>, from: usize, limit: u64) -> (r: Option<u64>)
    requires
        from <= s.len(),
    ensures
        r == (if all_digits(s@.skip(from as int)) && digits_value(s@.skip(from as int)) <= limit {
            Some(digits_value(s@.skip(from as int)) as u64)
        } else {
            None
        }),
{
    let ghost body = s@.skip(from as int);
    let mut acc: u64 = 0;
    let mut i: usize = from;
    while i < s.len()
        invariant
            from <= i <= s.len(),
            body == s@.skip(from as int),
            all_digits(body.take(i - from)),
            acc == digits_value(body.take(i - from)),
            acc <= limit,
        decreases s.len() - i,
    {
        let c = s[i];
        let ghost next = body.take(i - from + 1);
        proof {
            assert(next.drop_last() == body.take(i - from));
            assert(next.last() == c);
        }
        if c < '0' || c > '9' {
            assert(!is_digit(body[i - from]));
            return None;
        }
        let d: u64 = (c as u64) - ('0' as u64);
        assert(all_digits(next)) by {
            assert forall|j: int| 0 <= j < next.len() implies is_digit(#[trigger] next[j]) by {
                if j < i - from {
                    assert(next[j] == body.take(i - from)[j]);
                }
            }
        }
        if limit < d || acc > (limit - d) / 10 {
            proof {
                assert(digits_value(next) == acc * 10 + d);
                if limit >= d {
                    assert(acc * 10 + d > limit) by (nonlinear_arith)
                        requires
                            acc > (limit - d) / 10,
                            d <= limit,
                    ;
                }
                if all_digits(body) {
                    lemma_digits_value_prefix(body, i - from + 1);
                }
            }
            return None;
        }
        assert(acc * 10 + d <= limit) by (nonlinear_arith)
            requires
                acc <= (limit - d) / 10,
                d <= limit,
        ;
        acc = acc * 10 + d;
        i += 1;
    }
    assert(body.take(i - from) == body);
    Some(acc)
}

/// Reads an unsigned decimal number: an optional `+`, then digits.
pub fn parse_u64(s: &str) -> (r: Option<u64>)
    ensures
        r == match parse_decimal(s@, 0, u64::MAX as int) {
            Some(v) => Some(v as u64),
            None => None,
        },
{
    let chars = chars_of(s);
    let start: usize = if chars.len() > 0 && chars[0] == '+' {
        1
    } else {
        0
    };
    assert(chars@.skip(1) == chars@.drop_first());
    assert(chars@.skip(0) == chars@);
    if start == chars.len() {
        return None;
    }
    proof {
        if all_digits(chars@.skip(start as int)) {
            lemma_digits_value_bounds(chars@.skip(start as int));
        }
    }
    read_digits(&chars, start, u64::MAX)
}

/// Reads a signed decimal number: an optional `+` or `-`, then digits.
pub fn parse_i64(s: &str) -> (r: Option<i64>)
    ensures
        r == match parse_decimal(s@, i64::MIN as int, i64::MAX as int) {
            Some(v) => Some(v as i64),
            None => None,
        },
{
    let chars = chars_of(s);
    let negative = chars.len() > 0 && chars[0] == '-';
    let start: usize = if chars.len() > 0 && (chars[0] == '+' || chars[0] == '-') {
        1
    } else {
        0
    };
    assert(chars@.skip(1) == chars@.drop_first());
    assert(chars@.skip(0) == chars@);
    if start == chars.len() {
        return None;
    }
    proof {
        if all_digits(chars@.skip(start as int)) {
            lemma_digits_value_bounds(chars@.skip(start as int));
        }
    }
    if negative {
        match read_digits(&chars, start, 0x8000_0000_0000_0000u64) {
            Some(m) => {
                if m == 0x8000_0000_0000_0000u64 {
                    Some(i64::MIN)
                } else {
                    Some(-(m as i64))
                }
            },
            None => None,
        }
    } else {
        match read_digits(&chars, start, 0x7fff_ffff_ffff_ffffu64) {
            Some(m) => Some(m as i64),
            None => None,
        }
    }
}

/// Appends the decimal digits of `n` to `out`.
pub fn push_decimal_digits(out: &mut Vec<char>, n: u64)
    ensures
        final(out)@ == old(out)@ + decimal_digits(n as nat),
    decreases n,
{
    if n >= 10 {
        push_decimal_digits(out, n / 10);
    }
    let d: u8 = (n % 10) as u8;
    let c: char = (('0' as u8) + d) as char;
    assert(c == digit_char((n % 10) as int));
    out.push(c);
    proof {
        if n < 10 {
            assert(old(out)@.push(c) == old(out)@ + seq![c]);
        } else {
            assert((old(out)@ + decimal_digits((n / 10) as nat)).push(c) == old(out)@
                + decimal_digits((n / 10) as nat).push(c));
        }
    }
}

/// Appends the decimal text of `n` to `out`.
pub fn push_decimal(out: &mut Vec<char>, n: i64)
    ensures
        final(out)@ == old(out)@ + decimal(n as int),
{
    if n < 0 {
        out.push('-');
        let m: u64 = if n == i64::MIN {
            0x8000_0000_0000_0000u64
        } else {
            (-n) as u64
        };
        push_decimal_digits(out, m);
        assert(old(out)@.push('-') + decimal_digits(m as nat) == old(out)@ + (seq!['-']
            + decimal_digits(m as nat)));
    } else {
        push_decimal_digits(out, n as u64);
    }
}

/// The decimal text of `n`.
pub fn decimal_string(n: i64) -> (out: String)
    ensures
        out@ == decimal(n as int),
{
    let mut chars: Vec<char> = Vec::new();
    push_decimal(&mut chars, n);
    assert(Seq::<char>::empty() + decimal(n as int) == decimal(n as int));
    string_of(&chars)
}

} // verus!
