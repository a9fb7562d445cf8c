//! Reading the payload of a token that another issuer wrote: JSON text
//! with blanks where JSON allows them, with its members in any order, and
//! with members beyond those of the claims.

use vstd::prelude::*;
use crate::json::codec::take_number;
use crate::json::{digits_end, read_number, Read};
use crate::number::is_digit;
use crate::claims::{
    ApiKeyClaims, ApiKeyClaimsModel, Claims, ClaimsModel, TokenClaims, TokenClaimsModel,
};
use crate::text::{chars_of, same_text, string_of, texts};

verus! {

/// Whether a character is a blank of JSON: a space, a tab, a line feed
/// or a carriage return.
pub open spec fn is_blank(c: char) -> bool {
    c == ' ' || c == '\t' || c == '\n' || c == '\r'
}

/// The first place from `pos` on that holds no blank.
pub open spec fn after_blanks(t: Seq<char>, pos: int) -> int
    decreases t.len() - pos,
{
    if 0 <= pos < t.len() && is_blank(t[pos]) {
        after_blanks(t, pos + 1)
    } else {
        pos
    }
}

/// The value of a hexadecimal digit, small or capital.
pub open spec fn hex_any(c: char) -> Option<int> {
    if '0' <= c <= '9' {
        Some(c as int - '0' as int)
    } else if 'a' <= c <= 'f' {
        Some(c as int - 'a' as int + 10)
    } else if 'A' <= c <= 'F' {
        Some(c as int - 'A' as int + 10)
    } else {
        None
    }
}

/// The number that four hexadecimal digits from `pos` on denote.
pub open spec fn hex4(t: Seq<char>, pos: int) -> Option<int> {
    if 0 <= pos && pos + 4 <= t.len() && hex_any(t[pos]) is Some && hex_any(t[pos + 1]) is Some
        && hex_any(t[pos + 2]) is Some && hex_any(t[pos + 3]) is Some {
        Some(
            ((hex_any(t[pos])->0 * 16 + hex_any(t[pos + 1])->0) * 16 + hex_any(t[pos + 2])->0)
                * 16 + hex_any(t[pos + 3])->0,
        )
    } else {
        None
    }
}

/// The character that a letter after a backslash stands for.
pub open spec fn simple_escape(e: char) -> Option<char> {
    if e == '"' {
        Some('"')
    } else if e == '\\' {
        Some('\\')
    } else if e == '/' {
        Some('/')
    } else if e == 'b' {
        Some('\u{8}')
    } else if e == 'f' {
        Some('\u{c}')
    } else if e == 'n' {
        Some('\n')
    } else if e == 'r' {
        Some('\r')
    } else if e == 't' {
        Some('\t')
    } else {
        None
    }
}

/// Whether a number is the code of a character: not above `10FFFF` and
/// no surrogate.
pub open spec fn is_scalar(code: int) -> bool {
    0 <= code <= 0xD7FF || 0xE000 <= code <= 0x10FFFF
}

/// Reads the escape that starts with the backslash at `pos`: a letter,
/// or `u` and four hexadecimal digits. A leading surrogate must be
/// followed by the escape of a trailing one, and the two make one
/// character; a surrogate on its own is no character.
pub open spec fn read_escape(t: Seq<char>, pos: int) -> Option<Read<char>> {
    if pos < 0 || pos + 1 >= t.len() {
        None
    } else if simple_escape(t[pos + 1]) is Some {
        Some(Read { value: simple_escape(t[pos + 1])->0, end: pos + 2 })
    } else if t[pos + 1] == 'u' {
        match hex4(t, pos + 2) {
            None => None,
            Some(unit) => if 0xD800 <= unit <= 0xDBFF {
                if pos + 7 < t.len() && t[pos + 6] == '\\' && t[pos + 7] == 'u' {
                    match hex4(t, pos + 8) {
                        Some(low) => if 0xDC00 <= low <= 0xDFFF {
                            Some(
                                Read {
                                    value: (0x10000 + (unit - 0xD800) * 0x400 + (low - 0xDC00)) as char,
                                    end: pos + 12,
                                },
                            )
                        } else {
                            None
                        },
                        None => None,
                    }
                } else {
                    None
                }
            } else if 0xDC00 <= unit <= 0xDFFF {
                None
            } else {
                Some(Read { value: unit as char, end: pos + 6 })
            },
        }
    } else {
        None
    }
}

/// Reads the characters of a string after its opening quote, up to and
/// with its closing quote.
pub open spec fn read_text(t: Seq<char>, pos: int) -> Option<Read<Seq<char>>>
    decreases t.len() - pos,
{
    if pos < 0 || pos >= t.len() {
        None
    } else if t[pos] == '"' {
        Some(Read { value: Seq::empty(), end: pos + 1 })
    } else if t[pos] == '\\' {
        match read_escape(t, pos) {
            None => None,
            Some(c) => if c.end <= pos {
                None
            } else {
                match read_text(t, c.end) {
                    None => None,
                    Some(rest) => Some(Read { value: seq![c.value] + rest.value, end: rest.end }),
                }
            },
        }
    } else if t[pos] <= '\u{1f}' {
        None
    } else {
        match read_text(t, pos + 1) {
            None => None,
            Some(rest) => Some(Read { value: seq![t[pos]] + rest.value, end: rest.end }),
        }
    }
}

/// `char::from_u32` gives the character of a code: every code up to
/// `10FFFF` that is no surrogate has one, and no other number has.
#[verifier::external_body]
fn scalar_char(code: u32) -> (r: Option<char>)
    ensures
        r == (if is_scalar(code as int) {
            Some(code as char)
        } else {
            None
        }),
{
    char::from_u32(code)
}

/// The place after the blanks from `pos` on.
fn pass_blanks(t: &Vec<char>, pos: usize) -> (r: usize)
    requires
        pos <= t.len(),
    ensures
        r == after_blanks(t@, pos as int),
        pos <= r <= t.len(),
{
    let mut i: usize = pos;
    while i < t.len() && (t[i] == ' ' || t[i] == '\t' || t[i] == '\n' || t[i] == '\r')
        invariant
            pos <= i <= t.len(),
            after_blanks(t@, pos as int) == after_blanks(t@, i as int),
        decreases t.len() - i,
    {
        i += 1;
    }
    i
}

fn hex_of(c: char) -> (r: Option<u32>)
    ensures
        match r {
            Some(v) => hex_any(c) == Some(v as int) && v < 16,
            None => hex_any(c) is None,
        },
{
    if '0' <= c && c <= '9' {
        Some((c as u32) - ('0' as u32))
    } else if 'a' <= c && c <= 'f' {
        Some((c as u32) - ('a' as u32) + 10)
    } else if 'A' <= c && c <= 'F' {
        Some((c as u32) - ('A' as u32) + 10)
    } else {
        None
    }
}

fn take_hex4(t: &Vec<char>, pos: usize) -> (r: Option<u32>)
    ensures
        match r {
            Some(v) => hex4(t@, pos as int) == Some(v as int) && v <= 0xFFFF && pos + 4 <= t.len(),
            None => hex4(t@, pos as int) is None,
        },
{
    if t.len() < 4 || pos > t.len() - 4 {
        return None;
    }
    let a = match hex_of(t[pos]) {
        Some(v) => v,
        None => {
            return None;
        },
    };
    let b = match hex_of(t[pos + 1]) {
        Some(v) => v,
        None => {
            return None;
        },
    };
    let c = match hex_of(t[pos + 2]) {
        Some(v) => v,
        None => {
            return None;
        },
    };
    let d = match hex_of(t[pos + 3]) {
        Some(v) => v,
        None => {
            return None;
        },
    };
    Some(((a * 16 + b) * 16 + c) * 16 + d)
}

fn simple_of(e: char) -> (r: Option<char>)
    ensures
        r == simple_escape(e),
{
    if e == '"' {
        Some('"')
    } else if e == '\\' {
        Some('\\')
    } else if e == '/' {
        Some('/')
    } else if e == 'b' {
        Some('\u{8}')
    } else if e == 'f' {
        Some('\u{c}')
    } else if e == 'n' {
        Some('\n')
    } else if e == 'r' {
        Some('\r')
    } else if e == 't' {
        Some('\t')
    } else {
        None
    }
}

fn take_escape(t: &Vec<char>, pos: usize) -> (r: Option<(char, usize)>)
    requires
        pos < t.len(),
    ensures
        match r {
            Some((c, end)) => read_escape(t@, pos as int) == Some(
                Read { value: c, end: end as int },
            ) && pos < end <= t.len(),
            None => read_escape(t@, pos as int) is None,
        },
{
    if t.len() - pos < 2 {
        return None;
    }
    let e = t[pos + 1];
    match simple_of(e) {
        Some(c) => Some((c, pos + 2)),
        None => {
            if e != 'u' {
                return None;
            }
            let unit = match take_hex4(t, pos + 2) {
                Some(v) => v,
                None => {
                    return None;
                },
            };
            if 0xD800 <= unit && unit <= 0xDBFF {
                if t.len() - pos < 12 || t[pos + 6] != '\\' || t[pos + 7] != 'u' {
                    proof {
                        if pos + 7 < t.len() && t@[pos + 6] == '\\' && t@[pos + 7] == 'u' {
                            assert(hex4(t@, pos + 8) is None);
                        }
                    }
                    return None;
                }
                let low = match take_hex4(t, pos + 8) {
                    Some(v) => v,
                    None => {
                        return None;
                    },
                };
                if low < 0xDC00 || low > 0xDFFF {
                    return None;
                }
                let code: u32 = 0x10000 + (unit - 0xD800) * 0x400 + (low - 0xDC00);
                match scalar_char(code) {
                    Some(c) => Some((c, pos + 12)),
                    None => None,
                }
            } else if 0xDC00 <= unit && unit <= 0xDFFF {
                None
            } else {
                match scalar_char(unit) {
                    Some(c) => Some((c, pos + 6)),
                    None => None,
                }
            }
        },
    }
}

/// Reads the characters of a string after its opening quote.
pub fn take_text(t: &Vec<char>, pos: usize) -> (r: Option<(String, usize)>)
    ensures
        match r {
            Some((s, end)) => read_text(t@, pos as int) == Some(
                Read { value: s@, end: end as int },
            ) && pos < end <= t.len(),
            None => read_text(t@, pos as int) is None,
        },
{
    let mut buf: Vec<char> = Vec::new();
    let mut i: usize = pos;
    proof {
        let first = read_text(t@, pos as int);
        if first is Some {
            assert(buf@ + first->0.value =~= first->0.value);
        }
    }
    while i < t.len()
        invariant
            pos <= i,
            read_text(t@, pos as int) == (match read_text(t@, i as int) {
                Some(r) => Some(Read { value: buf@ + r.value, end: r.end }),
                None => None,
            }),
        decreases t.len() - i,
    {
        let c = t[i];
        if c == '"' {
            assert(buf@ + Seq::<char>::empty() =~= buf@);
            return Some((string_of(&buf), i + 1));
        }
        let (next, end) = if c == '\\' {
            match take_escape(t, i) {
                Some(read) => read,
                None => {
                    return None;
                },
            }
        } else if c <= '\u{1f}' {
            return None;
        } else {
            (c, i + 1)
        };
        proof {
            let rest = read_text(t@, end as int);
            if rest is Some {
                assert(buf@ + (seq![next] + rest->0.value) =~= buf@.push(next) + rest->0.value);
            }
        }
        buf.push(next);
        i = end;
    }
    None
}

/// The place after a number of JSON that starts at `pos`: a minus sign
/// or none; a zero, or digits that start with another digit; then, each
/// or none, a point with digits, and an exponent with digits and a sign or
/// none.
pub open spec fn skip_number(t: Seq<char>, pos: int) -> Option<int> {
    if pos < 0 || pos >= t.len() {
        None
    } else {
        let start = if t[pos] == '-' {
            pos + 1
        } else {
            pos
        };
        if start >= t.len() || !is_digit(t[start]) {
            None
        } else {
            let whole = if t[start] == '0' {
                start + 1
            } else {
                digits_end(t, start)
            };
            if 0 <= whole < t.len() && t[whole] == '.' {
                if whole + 1 < t.len() && is_digit(t[whole + 1]) {
                    skip_exponent(t, digits_end(t, whole + 1))
                } else {
                    None
                }
            } else {
                skip_exponent(t, whole)
            }
        }
    }
}

/// The place after the exponent of a number, if one stands at `pos`;
/// else `pos`.
pub open spec fn skip_exponent(t: Seq<char>, pos: int) -> Option<int> {
    if 0 <= pos < t.len() && (t[pos] == 'e' || t[pos] == 'E') {
        let digits = if pos + 1 < t.len() && (t[pos + 1] == '+' || t[pos + 1] == '-') {
            pos + 2
        } else {
            pos + 1
        };
        if digits < t.len() && is_digit(t[digits]) {
            Some(digits_end(t, digits))
        } else {
            None
        }
    } else {
        Some(pos)
    }
}

/// A member of an object of the text: its name, and the places at which
/// its value starts and ends.
pub ghost struct Span {
    pub name: Seq<char>,
    pub start: int,
    pub end: int,
}

/// Whether the text holds the word `w` at `pos`.
pub open spec fn word_at(t: Seq<char>, pos: int, w: Seq<char>) -> bool {
    0 <= pos && pos + w.len() <= t.len() && t.subrange(pos, pos + w.len()) == w
}

/// The place after the value of JSON that starts at `pos`.
pub open spec fn skip_value(t: Seq<char>, pos: int) -> Option<int>
    decreases t.len() - pos, 0nat,
{
    if pos < 0 || pos >= t.len() {
        None
    } else if t[pos] == '"' {
        match read_text(t, pos + 1) {
            Some(r) => Some(r.end),
            None => None,
        }
    } else if t[pos] == '{' {
        let first = after_blanks(t, pos + 1);
        if first <= pos || first > t.len() {
            None
        } else if first < t.len() && t[first] == '}' {
            Some(first + 1)
        } else {
            match scan_members(t, first) {
                Some(r) => Some(r.end),
                None => None,
            }
        }
    } else if t[pos] == '[' {
        let first = after_blanks(t, pos + 1);
        if first <= pos || first > t.len() {
            None
        } else if first < t.len() && t[first] == ']' {
            Some(first + 1)
        } else {
            skip_items(t, first)
        }
    } else if word_at(t, pos, seq!['t', 'r', 'u', 'e']) {
        Some(pos + 4)
    } else if word_at(t, pos, seq!['f', 'a', 'l', 's', 'e']) {
        Some(pos + 5)
    } else if word_at(t, pos, seq!['n', 'u', 'l', 'l']) {
        Some(pos + 4)
    } else {
        skip_number(t, pos)
    }
}

/// The place after the items of an array, the first of which starts at
/// `pos`, and after its closing bracket.
pub open spec fn skip_items(t: Seq<char>, pos: int) -> Option<int>
    decreases t.len() - pos, 1nat,
{
    match skip_value(t, pos) {
        None => None,
        Some(end) => {
            let p = after_blanks(t, end);
            if end <= pos || p < end || p >= t.len() {
                None
            } else if t[p] == ']' {
                Some(p + 1)
            } else if t[p] == ',' {
                let next = after_blanks(t, p + 1);
                if next <= p || next > t.len() {
                    None
                } else {
                    skip_items(t, next)
                }
            } else {
                None
            }
        },
    }
}

/// The members of an object, the name of the first of which starts at
/// `pos`, up to and with the closing brace.
pub open spec fn scan_members(t: Seq<char>, pos: int) -> Option<Read<Seq<Span>>>
    decreases t.len() - pos, 1nat,
{
    if pos < 0 || pos >= t.len() || t[pos] != '"' {
        None
    } else {
        match read_text(t, pos + 1) {
            None => None,
            Some(name) => {
                let colon = after_blanks(t, name.end);
                if name.end <= pos || colon < name.end || colon >= t.len() || t[colon] != ':' {
                    None
                } else {
                    let start = after_blanks(t, colon + 1);
                    if start <= colon || start > t.len() {
                        None
                    } else {
                        match skip_value(t, start) {
                            None => None,
                            Some(end) => {
                                let p = after_blanks(t, end);
                                let span = Span { name: name.value, start, end };
                                if end <= start || p < end || p >= t.len() {
                                    None
                                } else if t[p] == '}' {
                                    Some(Read { value: seq![span], end: p + 1 })
                                } else if t[p] == ',' {
                                    let next = after_blanks(t, p + 1);
                                    if next <= p || next > t.len() {
                                        None
                                    } else {
                                        match scan_members(t, next) {
                                            Some(rest) => Some(
                                                Read {
                                                    value: seq![span] + rest.value,
                                                    end: rest.end,
                                                },
                                            ),
                                            None => None,
                                        }
                                    }
                                } else {
                                    None
                                }
                            },
                        }
                    }
                }
            },
        }
    }
}

/// The members of the object that a text is, with blanks before and
/// after it or none; none where the text is no object.
pub open spec fn payload_members(t: Seq<char>) -> Option<Seq<Span>> {
    let open = after_blanks(t, 0);
    if open < 0 || open >= t.len() || t[open] != '{' {
        None
    } else {
        let first = after_blanks(t, open + 1);
        if first < t.len() && t[first] == '}' {
            if after_blanks(t, first + 1) == t.len() {
                Some(Seq::empty())
            } else {
                None
            }
        } else {
            match scan_members(t, first) {
                Some(r) => if after_blanks(t, r.end) == t.len() {
                    Some(r.value)
                } else {
                    None
                },
                None => None,
            }
        }
    }
}

/// A member of an object of the text.
#[derive(Debug, Clone, PartialEq, Eq)]
pub struct Member {
    pub name: String,
    /// The place at which the value starts.
    pub start: usize,
    /// The place after the value.
    pub end: usize,
}

impl View for Member {
    type V = Span;

    open spec fn view(&self) -> Span {
        Span { name: self.name@, start: self.start as int, end: self.end as int }
    }
}

/// The members of a sequence, as mathematical values.
pub open spec fn spans(members: Seq<Member>) -> Seq<Span> {
    Seq::new(members.len(), |i: int| members[i]@)
}

fn pass_digits(t: &Vec<char>, pos: usize) -> (r: usize)
    requires
        pos <= t.len(),
    ensures
        r == digits_end(t@, pos as int),
        pos <= r <= t.len(),
{
    let mut i: usize = pos;
    while i < t.len() && '0' <= t[i] && t[i] <= '9'
        invariant
            pos <= i <= t.len(),
            digits_end(t@, pos as int) == digits_end(t@, i as int),
        decreases t.len() - i,
    {
        i += 1;
    }
    i
}

fn pass_exponent(t: &Vec<char>, pos: usize) -> (r: Option<usize>)
    requires
        pos <= t.len(),
    ensures
        match r {
            Some(end) => skip_exponent(t@, pos as int) == Some(end as int) && pos <= end
                <= t.len(),
            None => skip_exponent(t@, pos as int) is None,
        },
{
    if pos < t.len() && (t[pos] == 'e' || t[pos] == 'E') {
        let digits: usize = if pos + 1 < t.len() && (t[pos + 1] == '+' || t[pos + 1] == '-') {
            pos + 2
        } else {
            pos + 1
        };
        if digits < t.len() && '0' <= t[digits] && t[digits] <= '9' {
            Some(pass_digits(t, digits))
        } else {
            None
        }
    } else {
        Some(pos)
    }
}

fn pass_number(t: &Vec<char>, pos: usize) -> (r: Option<usize>)
    ensures
        match r {
            Some(end) => skip_number(t@, pos as int) == Some(end as int) && pos < end <= t.len(),
            None => skip_number(t@, pos as int) is None,
        },
{
    if pos >= t.len() {
        return None;
    }
    let start: usize = if t[pos] == '-' {
        pos + 1
    } else {
        pos
    };
    if start >= t.len() || !('0' <= t[start] && t[start] <= '9') {
        return None;
    }
    let whole: usize = if t[start] == '0' {
        start + 1
    } else {
        assert(is_digit(t@[start as int]));
        pass_digits(t, start + 1)
    };
    if whole < t.len() && t[whole] == '.' {
        if whole + 1 < t.len() && '0' <= t[whole + 1] && t[whole + 1] <= '9' {
            let fraction = pass_digits(t, whole + 1);
            pass_exponent(t, fraction)
        } else {
            None
        }
    } else {
        pass_exponent(t, whole)
    }
}

fn is_word(t: &Vec<char>, pos: usize, a: char, b: char, c: char, d: char) -> (r: bool)
    requires
        pos <= t.len(),
    ensures
        r == word_at(t@, pos as int, seq![a, b, c, d]),
{
    if t.len() - pos < 4 {
        return false;
    }
    let r = t[pos] == a && t[pos + 1] == b && t[pos + 2] == c && t[pos + 3] == d;
    proof {
        let w = seq![a, b, c, d];
        let part = t@.subrange(pos as int, pos + 4);
        if r {
            assert(part =~= w);
        } else {
            assert(part[0] == t@[pos as int]);
            assert(part[1] == t@[pos + 1]);
            assert(part[2] == t@[pos + 2]);
            assert(part[3] == t@[pos + 3]);
            assert(w[0] == a && w[1] == b && w[2] == c && w[3] == d);
        }
    }
    r
}

fn is_false(t: &Vec<char>, pos: usize) -> (r: bool)
    requires
        pos <= t.len(),
    ensures
        r == word_at(t@, pos as int, seq!['f', 'a', 'l', 's', 'e']),
{
    if t.len() - pos < 5 {
        return false;
    }
    let r = t[pos] == 'f' && t[pos + 1] == 'a' && t[pos + 2] == 'l' && t[pos + 3] == 's' && t[pos
        + 4] == 'e';
    proof {
        let w = seq!['f', 'a', 'l', 's', 'e'];
        let part = t@.subrange(pos as int, pos + 5);
        if r {
            assert(part =~= w);
        } else {
            assert(part[0] == t@[pos as int]);
            assert(part[1] == t@[pos + 1]);
            assert(part[2] == t@[pos + 2]);
            assert(part[3] == t@[pos + 3]);
            assert(part[4] == t@[pos + 4]);
            assert(w[0] == 'f' && w[1] == 'a' && w[2] == 'l' && w[3] == 's' && w[4] == 'e');
        }
    }
    r
}

/// The place after the value that starts at `pos`.
fn pass_value(t: &Vec<char>, pos: usize) -> (r: Option<usize>)
    ensures
        match r {
            Some(end) => skip_value(t@, pos as int) == Some(end as int) && pos < end <= t.len(),
            None => skip_value(t@, pos as int) is None,
        },
    decreases t.len() - pos, 0nat,
{
    if pos >= t.len() {
        return None;
    }
    let c = t[pos];
    if c == '"' {
        match take_text(t, pos + 1) {
            Some((_, end)) => Some(end),
            None => None,
        }
    } else if c == '{' {
        let first = pass_blanks(t, pos + 1);
        if first < t.len() && t[first] == '}' {
            Some(first + 1)
        } else {
            match take_members(t, first) {
                Some((_, end)) => Some(end),
                None => None,
            }
        }
    } else if c == '[' {
        let first = pass_blanks(t, pos + 1);
        if first < t.len() && t[first] == ']' {
            Some(first + 1)
        } else {
            pass_items(t, first)
        }
    } else if is_word(t, pos, 't', 'r', 'u', 'e') {
        Some(pos + 4)
    } else if is_false(t, pos) {
        Some(pos + 5)
    } else if is_word(t, pos, 'n', 'u', 'l', 'l') {
        Some(pos + 4)
    } else {
        pass_number(t, pos)
    }
}

fn pass_items(t: &Vec<char>, pos: usize) -> (r: Option<usize>)
    ensures
        match r {
            Some(end) => skip_items(t@, pos as int) == Some(end as int) && pos < end <= t.len(),
            None => skip_items(t@, pos as int) is None,
        },
    decreases t.len() - pos, 1nat,
{
    let end = match pass_value(t, pos) {
        Some(end) => end,
        None => {
            return None;
        },
    };
    let p = pass_blanks(t, end);
    if p >= t.len() {
        return None;
    }
    if t[p] == ']' {
        Some(p + 1)
    } else if t[p] == ',' {
        let next = pass_blanks(t, p + 1);
        pass_items(t, next)
    } else {
        None
    }
}

/// The members of an object, the name of the first of which starts at
/// `pos`.
fn take_members(t: &Vec<char>, pos: usize) -> (r: Option<(Vec<Member>, usize)>)
    ensures
        match r {
            Some((members, end)) => scan_members(t@, pos as int) == Some(
                Read { value: spans(members@), end: end as int },
            ) && pos < end <= t.len(),
            None => scan_members(t@, pos as int) is None,
        },
    decreases t.len() - pos, 1nat,
{
    if pos >= t.len() || t[pos] != '"' {
        return None;
    }
    let (name, after_name) = match take_text(t, pos + 1) {
        Some(read) => read,
        None => {
            return None;
        },
    };
    let colon = pass_blanks(t, after_name);
    if colon >= t.len() || t[colon] != ':' {
        return None;
    }
    let start = pass_blanks(t, colon + 1);
    let end = match pass_value(t, start) {
        Some(end) => end,
        None => {
            return None;
        },
    };
    let p = pass_blanks(t, end);
    if p >= t.len() {
        return None;
    }
    let member = Member { name, start, end };
    let ghost span = member@;
    if t[p] == '}' {
        let mut members: Vec<Member> = Vec::new();
        members.push(member);
        assert(spans(members@) =~= seq![span]);
        Some((members, p + 1))
    } else if t[p] == ',' {
        let next = pass_blanks(t, p + 1);
        match take_members(t, next) {
            Some((rest, last)) => {
                let mut members: Vec<Member> = Vec::new();
                members.push(member);
                let mut rest = rest;
                let ghost tail = rest@;
                members.append(&mut rest);
                assert(spans(members@) =~= seq![span] + spans(tail));
                Some((members, last))
            },
            None => None,
        }
    } else {
        None
    }
}

/// The members of the object that a text is.
pub fn members_of_payload(t: &Vec<char>) -> (r: Option<Vec<Member>>)
    ensures
        (match r {
            Some(members) => Some(spans(members@)),
            None => None,
        }) == payload_members(t@),
        r is Some ==> forall|i: int|
            0 <= i < r->0@.len() ==> (#[trigger] r->0@[i]).start < r->0@[i].end <= t.len(),
{
    let open = pass_blanks(t, 0);
    if open >= t.len() || t[open] != '{' {
        return None;
    }
    let first = pass_blanks(t, open + 1);
    if first < t.len() && t[first] == '}' {
        if pass_blanks(t, first + 1) == t.len() {
            let members: Vec<Member> = Vec::new();
            assert(spans(members@) =~= Seq::<Span>::empty());
            Some(members)
        } else {
            None
        }
    } else {
        match take_members(t, first) {
            Some((members, end)) => {
                if pass_blanks(t, end) == t.len() {
                    proof {
                        lemma_spans_lie_within(t@, first as int);
                        assert forall|i: int| 0 <= i < members@.len() implies (
                        #[trigger] members@[i]).start < members@[i].end <= t.len() by {
                            assert(spans(members@)[i] == members@[i]@);
                        }
                    }
                    Some(members)
                } else {
                    None
                }
            },
            None => None,
        }
    }
}

/// The values of the members of an object lie within the text.
proof fn lemma_spans_lie_within(t: Seq<char>, pos: int)
    requires
        scan_members(t, pos) is Some,
    ensures
        forall|i: int|
            0 <= i < scan_members(t, pos)->0.value.len() ==> 0 <= (#[trigger] scan_members(
                t,
                pos,
            )->0.value[i]).start < scan_members(t, pos)->0.value[i].end <= t.len(),
    decreases t.len() - pos,
{
    let r = scan_members(t, pos)->0;
    let name = read_text(t, pos + 1)->0;
    let colon = after_blanks(t, name.end);
    let start = after_blanks(t, colon + 1);
    let end = skip_value(t, start)->0;
    let p = after_blanks(t, end);
    lemma_after_blanks(t, end);
    if t[p] == ',' {
        let next = after_blanks(t, p + 1);
        lemma_spans_lie_within(t, next);
        let rest = scan_members(t, next)->0.value;
        assert forall|i: int| 0 <= i < r.value.len() implies 0 <= (#[trigger] r.value[i]).start
            < r.value[i].end <= t.len() by {
            if i > 0 {
                assert(r.value[i] == rest[i - 1]);
            }
        }
    }
}

proof fn lemma_after_blanks(t: Seq<char>, pos: int)
    requires
        0 <= pos <= t.len(),
    ensures
        pos <= after_blanks(t, pos) <= t.len(),
    decreases t.len() - pos,
{
    if pos < t.len() && is_blank(t[pos]) {
        lemma_after_blanks(t, pos + 1);
    }
}

/// The members of a sequence that have the name `name`, in their order.
pub open spec fn occurrences(members: Seq<Span>, name: Seq<char>) -> Seq<Span>
    decreases members.len(),
{
    if members.len() == 0 {
        Seq::empty()
    } else if members.last().name == name {
        occurrences(members.drop_last(), name).push(members.last())
    } else {
        occurrences(members.drop_last(), name)
    }
}

/// The string that is the value of a member, if its value is a string.
pub open spec fn text_at(t: Seq<char>, span: Span) -> Option<Seq<char>> {
    if 0 <= span.start < t.len() && t[span.start] == '"' {
        match read_text(t, span.start + 1) {
            Some(r) => if r.end == span.end {
                Some(r.value)
            } else {
                None
            },
            None => None,
        }
    } else {
        None
    }
}

/// The integer that is the value of a member, if its value is an
/// integer of 64 bits, written without a fraction and without an
/// exponent.
pub open spec fn int_at(t: Seq<char>, span: Span) -> Option<int> {
    match read_number(t, span.start) {
        Some(r) => if r.end == span.end {
            Some(r.value)
        } else {
            None
        },
        None => None,
    }
}

/// Whether the value of a member is `null`.
pub open spec fn null_at(t: Seq<char>, span: Span) -> bool {
    word_at(t, span.start, seq!['n', 'u', 'l', 'l']) && span.end == span.start + 4
}

/// Reads the strings of an array, the first of which starts at `pos`,
/// up to and with the closing bracket.
pub open spec fn read_texts(t: Seq<char>, pos: int) -> Option<Read<Seq<Seq<char>>>>
    decreases t.len() - pos,
{
    if pos < 0 || pos >= t.len() || t[pos] != '"' {
        None
    } else {
        match read_text(t, pos + 1) {
            None => None,
            Some(first) => {
                let p = after_blanks(t, first.end);
                if first.end <= pos || p < first.end || p >= t.len() {
                    None
                } else if t[p] == ']' {
                    Some(Read { value: seq![first.value], end: p + 1 })
                } else if t[p] == ',' {
                    let next = after_blanks(t, p + 1);
                    if next <= p || next > t.len() {
                        None
                    } else {
                        match read_texts(t, next) {
                            Some(rest) => Some(
                                Read { value: seq![first.value] + rest.value, end: rest.end },
                            ),
                            None => None,
                        }
                    }
                } else {
                    None
                }
            },
        }
    }
}

/// The strings that are the value of a member, if its value is an array
/// of strings.
pub open spec fn texts_at(t: Seq<char>, span: Span) -> Option<Seq<Seq<char>>> {
    if 0 <= span.start < t.len() && t[span.start] == '[' {
        let first = after_blanks(t, span.start + 1);
        if 0 <= first < t.len() && t[first] == ']' {
            if first + 1 == span.end {
                Some(Seq::empty())
            } else {
                None
            }
        } else {
            match read_texts(t, first) {
                Some(r) => if r.end == span.end {
                    Some(r.value)
                } else {
                    None
                },
                None => None,
            }
        }
    } else {
        None
    }
}

/// The string of the one member with the name `name`.
pub open spec fn one_text(t: Seq<char>, members: Seq<Span>, name: Seq<char>) -> Option<Seq<char>> {
    if occurrences(members, name).len() == 1 {
        text_at(t, occurrences(members, name)[0])
    } else {
        None
    }
}

/// The integer of the one member with the name `name`.
pub open spec fn one_int(t: Seq<char>, members: Seq<Span>, name: Seq<char>) -> Option<int> {
    if occurrences(members, name).len() == 1 {
        int_at(t, occurrences(members, name)[0])
    } else {
        None
    }
}

/// The strings of the one member with the name `name`.
pub open spec fn one_texts(t: Seq<char>, members: Seq<Span>, name: Seq<char>) -> Option<
    Seq<Seq<char>>,
> {
    if occurrences(members, name).len() == 1 {
        texts_at(t, occurrences(members, name)[0])
    } else {
        None
    }
}

/// The string of the member with the name `name`, where there is one and
/// it is not `null`. There may be no such member, and not more than one.
pub open spec fn optional_text_member(
    t: Seq<char>,
    members: Seq<Span>,
    name: Seq<char>,
) -> Option<Option<Seq<char>>> {
    if occurrences(members, name).len() == 0 {
        Some(None)
    } else if occurrences(members, name).len() == 1 {
        if null_at(t, occurrences(members, name)[0]) {
            Some(None)
        } else {
            match text_at(t, occurrences(members, name)[0]) {
                Some(s) => Some(Some(s)),
                None => None,
            }
        }
    } else {
        None
    }
}

/// The claims of an API key among the members of a payload: each of
/// its seven members once, with a value of its kind.
pub open spec fn api_key_among(t: Seq<char>, members: Seq<Span>) -> Option<ApiKeyClaimsModel> {
    if one_text(t, members, "api_key_id"@) is Some && one_text(t, members, "user_id"@) is Some
        && one_text(t, members, "organization_id"@) is Some && one_texts(t, members, "scopes"@)
        is Some && one_text(t, members, "key_prefix"@) is Some && one_int(t, members, "exp"@)
        is Some && one_int(t, members, "iat"@) is Some {
        Some(
            ApiKeyClaimsModel {
                api_key_id: one_text(t, members, "api_key_id"@)->0,
                user_id: one_text(t, members, "user_id"@)->0,
                organization_id: one_text(t, members, "organization_id"@)->0,
                scopes: one_texts(t, members, "scopes"@)->0,
                key_prefix: one_text(t, members, "key_prefix"@)->0,
                exp: one_int(t, members, "exp"@)->0,
                iat: one_int(t, members, "iat"@)->0,
            },
        )
    } else {
        None
    }
}

/// The claims of a user session among the members of a payload: the
/// user, the e-mail address and the two seconds once each, and the
/// organization once or not at all.
pub open spec fn session_among(t: Seq<char>, members: Seq<Span>) -> Option<ClaimsModel> {
    if one_text(t, members, "user_id"@) is Some && one_text(t, members, "email"@) is Some
        && optional_text_member(t, members, "org_id"@) is Some && one_int(t, members, "exp"@)
        is Some && one_int(t, members, "iat"@) is Some {
        Some(
            ClaimsModel {
                user_id: one_text(t, members, "user_id"@)->0,
                email: one_text(t, members, "email"@)->0,
                org_id: optional_text_member(t, members, "org_id"@)->0,
                exp: one_int(t, members, "exp"@)->0,
                iat: one_int(t, members, "iat"@)->0,
            },
        )
    } else {
        None
    }
}

/// The claims that a payload holds, whatever the order of its members,
/// the blanks between them and the members beyond those of the claims. A
/// payload with a member `api_key_id` holds the claims of an API key or
/// none; any other holds those of a user session or none.
pub open spec fn lenient_claims(t: Seq<char>) -> Option<TokenClaimsModel> {
    match payload_members(t) {
        None => None,
        Some(members) => if occurrences(members, "api_key_id"@).len() > 0 {
            match api_key_among(t, members) {
                Some(c) => Some(TokenClaimsModel::ApiKey(c)),
                None => None,
            }
        } else {
            match session_among(t, members) {
                Some(c) => Some(TokenClaimsModel::User(c)),
                None => None,
            }
        },
    }
}

/// How many members have a name.
#[derive(Debug, Clone, Copy, PartialEq, Eq, Structural)]
enum Found {
    Never,
    Once(usize),
    Often,
}

fn find(members: &Vec<Member>, name: &str) -> (r: Found)
    ensures
        match r {
            Found::Never => occurrences(spans(members@), name@).len() == 0,
            Found::Once(i) => occurrences(spans(members@), name@).len() == 1 && i < members.len()
                && occurrences(spans(members@), name@)[0] == members@[i as int]@,
            Found::Often => occurrences(spans(members@), name@).len() > 1,
        },
{
    let ghost all = spans(members@);
    let mut count: usize = 0;
    let mut first: usize = 0;
    let mut i: usize = 0;
    assert(all.take(0) =~= Seq::<Span>::empty());
    while i < members.len()
        invariant
            i <= members.len(),
            all == spans(members@),
            count <= i,
            count == occurrences(all.take(i as int), name@).len(),
            count > 0 ==> first < i && occurrences(all.take(i as int), name@)[0]
                == members@[first as int]@,
        decreases members.len() - i,
    {
        let ghost next = all.take(i + 1);
        assert(next.drop_last() =~= all.take(i as int));
        assert(next.last() == members@[i as int]@);
        if same_text(members[i].name.as_str(), name) {
            if count == 0 {
                first = i;
            }
            count += 1;
        }
        i += 1;
    }
    assert(all.take(members.len() as int) =~= all);
    if count == 0 {
        Found::Never
    } else if count == 1 {
        Found::Once(first)
    } else {
        Found::Often
    }
}

fn text_of(t: &Vec<char>, member: &Member) -> (r: Option<String>)
    ensures
        (match r {
            Some(s) => Some(s@),
            None => None,
        }) == text_at(t@, member@),
{
    if member.start >= t.len() || t[member.start] != '"' {
        return None;
    }
    match take_text(t, member.start + 1) {
        Some((s, end)) => if end == member.end {
            Some(s)
        } else {
            None
        },
        None => None,
    }
}

fn int_of(t: &Vec<char>, member: &Member) -> (r: Option<i64>)
    ensures
        (match r {
            Some(n) => Some(n as int),
            None => None,
        }) == int_at(t@, member@),
{
    match take_number(t, member.start) {
        Some((n, end)) => if end == member.end {
            Some(n)
        } else {
            None
        },
        None => None,
    }
}

fn is_null(t: &Vec<char>, member: &Member) -> (r: bool)
    ensures
        r == null_at(t@, member@),
{
    if member.start > t.len() {
        assert(!word_at(t@, member.start as int, seq!['n', 'u', 'l', 'l']));
        return false;
    }
    is_word(t, member.start, 'n', 'u', 'l', 'l') && member.end >= member.start && member.end
        - member.start == 4
}

fn take_texts(t: &Vec<char>, pos: usize) -> (r: Option<(Vec<String>, usize)>)
    ensures
        match r {
            Some((items, end)) => read_texts(t@, pos as int) == Some(
                Read { value: texts(items@), end: end as int },
            ) && pos < end <= t.len(),
            None => read_texts(t@, pos as int) is None,
        },
    decreases t.len() - pos,
{
    if pos >= t.len() || t[pos] != '"' {
        return None;
    }
    let (first, end) = match take_text(t, pos + 1) {
        Some(read) => read,
        None => {
            return None;
        },
    };
    let p = pass_blanks(t, end);
    if p >= t.len() {
        return None;
    }
    let ghost head = first@;
    if t[p] == ']' {
        let mut items: Vec<String> = Vec::new();
        items.push(first);
        assert(texts(items@) =~= seq![head]);
        Some((items, p + 1))
    } else if t[p] == ',' {
        let next = pass_blanks(t, p + 1);
        match take_texts(t, next) {
            Some((rest, last)) => {
                let mut items: Vec<String> = Vec::new();
                items.push(first);
                let mut rest = rest;
                let ghost tail = rest@;
                items.append(&mut rest);
                assert(texts(items@) =~= seq![head] + texts(tail));
                Some((items, last))
            },
            None => None,
        }
    } else {
        None
    }
}

fn texts_of(t: &Vec<char>, member: &Member) -> (r: Option<Vec<String>>)
    ensures
        (match r {
            Some(items) => Some(texts(items@)),
            None => None,
        }) == texts_at(t@, member@),
{
    if member.start >= t.len() || t[member.start] != '[' {
        return None;
    }
    let first = pass_blanks(t, member.start + 1);
    if first < t.len() && t[first] == ']' {
        if first + 1 == member.end {
            let items: Vec<String> = Vec::new();
            assert(texts(items@) =~= Seq::<Seq<char>>::empty());
            Some(items)
        } else {
            None
        }
    } else {
        match take_texts(t, first) {
            Some((items, end)) => if end == member.end {
                Some(items)
            } else {
                None
            },
            None => None,
        }
    }
}

fn the_text(t: &Vec<char>, members: &Vec<Member>, name: &str) -> (r: Option<String>)
    ensures
        (match r {
            Some(s) => Some(s@),
            None => None,
        }) == one_text(t@, spans(members@), name@),
{
    match find(members, name) {
        Found::Once(i) => text_of(t, &members[i]),
        _ => None,
    }
}

fn the_int(t: &Vec<char>, members: &Vec<Member>, name: &str) -> (r: Option<i64>)
    ensures
        (match r {
            Some(n) => Some(n as int),
            None => None,
        }) == one_int(t@, spans(members@), name@),
{
    match find(members, name) {
        Found::Once(i) => int_of(t, &members[i]),
        _ => None,
    }
}

fn the_texts(t: &Vec<char>, members: &Vec<Member>, name: &str) -> (r: Option<Vec<String>>)
    ensures
        (match r {
            Some(items) => Some(texts(items@)),
            None => None,
        }) == one_texts(t@, spans(members@), name@),
{
    match find(members, name) {
        Found::Once(i) => texts_of(t, &members[i]),
        _ => None,
    }
}

fn the_optional_text(t: &Vec<char>, members: &Vec<Member>, name: &str) -> (r: Option<
    Option<String>,
>)
    ensures
        (match r {
            Some(Some(s)) => Some(Some(s@)),
            Some(None) => Some(None),
            None => None,
        }) == optional_text_member(t@, spans(members@), name@),
{
    match find(members, name) {
        Found::Never => Some(None),
        Found::Once(i) => {
            if is_null(t, &members[i]) {
                Some(None)
            } else {
                match text_of(t, &members[i]) {
                    Some(s) => Some(Some(s)),
                    None => None,
                }
            }
        },
        Found::Often => None,
    }
}

fn api_key_in(t: &Vec<char>, members: &Vec<Member>) -> (r: Option<ApiKeyClaims>)
    ensures
        (match r {
            Some(c) => Some(c@),
            None => None,
        }) == api_key_among(t@, spans(members@)),
{
    let api_key_id = match the_text(t, members, "api_key_id") {
        Some(s) => s,
        None => {
            return None;
        },
    };
    let user_id = match the_text(t, members, "user_id") {
        Some(s) => s,
        None => {
            return None;
        },
    };
    let organization_id = match the_text(t, members, "organization_id") {
        Some(s) => s,
        None => {
            return None;
        },
    };
    let scopes = match the_texts(t, members, "scopes") {
        Some(s) => s,
        None => {
            return None;
        },
    };
    let key_prefix = match the_text(t, members, "key_prefix") {
        Some(s) => s,
        None => {
            return None;
        },
    };
    let exp = match the_int(t, members, "exp") {
        Some(n) => n,
        None => {
            return None;
        },
    };
    let iat = match the_int(t, members, "iat") {
        Some(n) => n,
        None => {
            return None;
        },
    };
    Some(ApiKeyClaims { api_key_id, user_id, organization_id, scopes, key_prefix, exp, iat })
}

fn session_in(t: &Vec<char>, members: &Vec<Member>) -> (r: Option<Claims>)
    ensures
        (match r {
            Some(c) => Some(c@),
            None => None,
        }) == session_among(t@, spans(members@)),
{
    let user_id = match the_text(t, members, "user_id") {
        Some(s) => s,
        None => {
            return None;
        },
    };
    let email = match the_text(t, members, "email") {
        Some(s) => s,
        None => {
            return None;
        },
    };
    let org_id = match the_optional_text(t, members, "org_id") {
        Some(s) => s,
        None => {
            return None;
        },
    };
    let exp = match the_int(t, members, "exp") {
        Some(n) => n,
        None => {
            return None;
        },
    };
    let iat = match the_int(t, members, "iat") {
        Some(n) => n,
        None => {
            return None;
        },
    };
    Some(Claims { user_id, email, org_id, exp, iat })
}

/// Reads the claims that a payload holds.
pub fn read_claims(text: &str) -> (r: Option<TokenClaims>)
    ensures
        (match r {
            Some(c) => Some(c@),
            None => None,
        }) == lenient_claims(text@),
{
    let t = chars_of(text);
    let members = match members_of_payload(&t) {
        Some(members) => members,
        None => {
            return None;
        },
    };
    match find(&members, "api_key_id") {
        Found::Never => match session_in(&t, &members) {
            Some(c) => Some(TokenClaims::User(c)),
            None => None,
        },
        _ => match api_key_in(&t, &members) {
            Some(c) => Some(TokenClaims::ApiKey(c)),
            None => None,
        },
    }
}

} // verus!
