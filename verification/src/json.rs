//! JSON text: how a value is written, and how a text is read back. The
//! text is compact: no blanks, members in their order, integers in plain
//! decimal form, and in strings only the escapes that are needed. Text of
//! another form is not read, though it may be JSON: text with blanks, with
//! other escapes, with fractions or exponents, or with `true` or `false`.

use vstd::prelude::*;
use crate::number::{decimal, digits_value, is_digit};
use crate::reply::{JsonModel, MemberModel};

pub mod codec;
pub mod read_back;
pub mod replies;
pub mod written;

pub use crate::json::codec::{decode_json, encode_json};
pub use crate::json::read_back::lemma_render_parse;
pub use crate::json::written::{lemma_parse_render, lemma_render_injective};

verus! {

/// The lower-case hexadecimal digit of a value below 16.
pub open spec fn hex_digit(v: int) -> char {
    if v < 10 {
        ('0' as int + v) as char
    } else {
        ('a' as int + v - 10) as char
    }
}

/// The value of a lower-case hexadecimal digit.
pub open spec fn hex_value(c: char) -> Option<int> {
    if '0' <= c <= '9' {
        Some(c as int - '0' as int)
    } else if 'a' <= c <= 'f' {
        Some(c as int - 'a' as int + 10)
    } else {
        None
    }
}

/// The letter that follows the backslash in the short escape of a
/// character, where it has one.
pub open spec fn short_escape(c: char) -> Option<char> {
    if c == '"' {
        Some('"')
    } else if c == '\\' {
        Some('\\')
    } else if c == '\u{8}' {
        Some('b')
    } else if c == '\u{c}' {
        Some('f')
    } else if c == '\n' {
        Some('n')
    } else if c == '\r' {
        Some('r')
    } else if c == '\t' {
        Some('t')
    } else {
        None
    }
}

/// The character that a letter after a backslash stands for.
pub open spec fn short_unescape(e: char) -> Option<char> {
    if e == '"' {
        Some('"')
    } else if e == '\\' {
        Some('\\')
    } else if e == 'b' {
        Some('\u{8}')
    } else if e == 'f' {
        Some('\u{c}')
    } else if e == 'n' {
        Some('\n')
    } else if e == 'r' {
        Some('\r')
    } else if e == 't' {
        Some('\t')
    } else {
        None
    }
}

/// How one character of a string is written: with its short escape where
/// it has one, as `\u00` and two hexadecimal digits where it is another
/// control character, as itself otherwise.
pub open spec fn escape_char(c: char) -> Seq<char> {
    if short_escape(c) is Some {
        seq!['\\', short_escape(c)->0]
    } else if (c as int) < 0x20 {
        seq!['\\', 'u', '0', '0', hex_digit(c as int / 16), hex_digit(c as int % 16)]
    } else {
        seq![c]
    }
}

/// How the characters of a string are written, between the quotes.
pub open spec fn escape(s: Seq<char>) -> Seq<char>
    decreases s.len(),
{
    if s.len() == 0 {
        Seq::empty()
    } else {
        escape_char(s[0]) + escape(s.drop_first())
    }
}

/// How a string is written.
pub open spec fn quoted(s: Seq<char>) -> Seq<char> {
    seq!['"'] + escape(s) + seq!['"']
}

/// How a JSON value is written.
pub open spec fn render(v: JsonModel) -> Seq<char>
    decreases v, 0nat,
{
    match v {
        JsonModel::Null => seq!['n', 'u', 'l', 'l'],
        JsonModel::Number(n) => decimal(n),
        JsonModel::String(s) => quoted(s),
        JsonModel::Array(items) => if items.len() == 0 {
            seq!['[', ']']
        } else {
            seq!['['] + render(items[0]) + items_tail(items, 1) + seq![']']
        },
        JsonModel::Object(members) => if members.len() == 0 {
            seq!['{', '}']
        } else {
            seq!['{'] + render_member(members, 0) + members_tail(members, 1) + seq!['}']
        },
    }
}

/// How the items of an array from place `from` on are written, each after
/// a comma.
pub open spec fn items_tail(items: Seq<JsonModel>, from: nat) -> Seq<char>
    decreases items, items.len() - from,
{
    if from >= items.len() {
        Seq::empty()
    } else {
        seq![','] + render(items[from as int]) + items_tail(items, from + 1)
    }
}

/// How the member at place `at` is written: its name, a colon, its value.
pub open spec fn render_member(members: Seq<MemberModel>, at: nat) -> Seq<char>
    decreases members, members.len() - at,
{
    if at >= members.len() {
        Seq::empty()
    } else {
        quoted(members[at as int].name) + seq![':'] + render(members[at as int].value)
    }
}

/// How the members of an object from place `from` on are written, each
/// after a comma.
pub open spec fn members_tail(members: Seq<MemberModel>, from: nat) -> Seq<char>
    decreases members, members.len() - from,
{
    if from >= members.len() {
        Seq::empty()
    } else {
        seq![','] + quoted(members[from as int].name) + seq![':'] + render(
            members[from as int].value,
        ) + members_tail(members, from + 1)
    }
}

/// A value of which every number fits 64 bits.
pub open spec fn fits(v: JsonModel) -> bool
    decreases v,
{
    match v {
        JsonModel::Null => true,
        JsonModel::Number(n) => i64::MIN <= n <= i64::MAX,
        JsonModel::String(_) => true,
        JsonModel::Array(items) => forall|i: int| 0 <= i < items.len() ==> fits(#[trigger] items[i]),
        JsonModel::Object(members) => forall|i: int|
            0 <= i < members.len() ==> fits((#[trigger] members[i]).value),
    }
}

/// What was read from a text, and the place after it.
pub ghost struct Read<T> {
    pub value: T,
    pub end: int,
}

/// Reads the characters of a string after its opening quote, up to and
/// with its closing quote.
pub open spec fn read_string(t: Seq<char>, pos: int) -> Option<Read<Seq<char>>>
    decreases t.len() - pos,
{
    if pos < 0 || pos >= t.len() {
        None
    } else if t[pos] == '"' {
        Some(Read { value: Seq::empty(), end: pos + 1 })
    } else {
        match read_char(t, pos) {
            None => None,
            Some(c) => if c.end <= pos {
                None
            } else {
                match read_string(t, c.end) {
                    None => None,
                    Some(rest) => Some(Read { value: seq![c.value] + rest.value, end: rest.end }),
                }
            },
        }
    }
}

/// Reads one character of a string, which is not its closing quote.
pub open spec fn read_char(t: Seq<char>, pos: int) -> Option<Read<char>> {
    if pos < 0 || pos >= t.len() {
        None
    } else if t[pos] == '\\' {
        if pos + 1 >= t.len() {
            None
        } else if short_unescape(t[pos + 1]) is Some {
            Some(Read { value: short_unescape(t[pos + 1])->0, end: pos + 2 })
        } else if t[pos + 1] == 'u' && pos + 5 < t.len() && t[pos + 2] == '0' && t[pos + 3] == '0'
            && hex_value(t[pos + 4]) is Some && hex_value(t[pos + 5]) is Some {
            let code = hex_value(t[pos + 4])->0 * 16 + hex_value(t[pos + 5])->0;
            if code < 0x20 && short_escape(code as char) is None {
                Some(Read { value: code as char, end: pos + 6 })
            } else {
                None
            }
        } else {
            None
        }
    } else if (t[pos] as int) < 0x20 || t[pos] == '"' {
        None
    } else {
        Some(Read { value: t[pos], end: pos + 1 })
    }
}

/// The first place from `pos` on that holds no digit.
pub open spec fn digits_end(t: Seq<char>, pos: int) -> int
    decreases t.len() - pos,
{
    if 0 <= pos < t.len() && is_digit(t[pos]) {
        digits_end(t, pos + 1)
    } else {
        pos
    }
}

/// Reads an integer: a minus sign or none, then digits without a leading
/// zero, which denote a 64-bit number; zero has no sign.
pub open spec fn read_number(t: Seq<char>, pos: int) -> Option<Read<int>> {
    if pos < 0 || pos >= t.len() {
        None
    } else {
        let negative = t[pos] == '-';
        let start = if negative {
            pos + 1
        } else {
            pos
        };
        let end = digits_end(t, start);
        let digits = t.subrange(start, end);
        let magnitude = digits_value(digits);
        let value = if negative {
            -magnitude
        } else {
            magnitude
        };
        if start < end <= t.len() && (end - start == 1 || t[start] != '0') && !(negative
            && magnitude == 0) && i64::MIN <= value <= i64::MAX {
            Some(Read { value, end })
        } else {
            None
        }
    }
}

/// Reads a value.
pub open spec fn read_value(t: Seq<char>, pos: int) -> Option<Read<JsonModel>>
    decreases t.len() - pos, 0nat,
{
    if pos < 0 || pos >= t.len() {
        None
    } else if t[pos] == 'n' {
        if pos + 4 <= t.len() && t[pos + 1] == 'u' && t[pos + 2] == 'l' && t[pos + 3] == 'l' {
            Some(Read { value: JsonModel::Null, end: pos + 4 })
        } else {
            None
        }
    } else if t[pos] == '"' {
        match read_string(t, pos + 1) {
            Some(s) => Some(Read { value: JsonModel::String(s.value), end: s.end }),
            None => None,
        }
    } else if t[pos] == '[' {
        if pos + 1 < t.len() && t[pos + 1] == ']' {
            Some(Read { value: JsonModel::Array(Seq::empty()), end: pos + 2 })
        } else {
            match read_items(t, pos + 1) {
                Some(items) => Some(Read { value: JsonModel::Array(items.value), end: items.end }),
                None => None,
            }
        }
    } else if t[pos] == '{' {
        if pos + 1 < t.len() && t[pos + 1] == '}' {
            Some(Read { value: JsonModel::Object(Seq::empty()), end: pos + 2 })
        } else {
            match read_members(t, pos + 1) {
                Some(members) => Some(
                    Read { value: JsonModel::Object(members.value), end: members.end },
                ),
                None => None,
            }
        }
    } else {
        match read_number(t, pos) {
            Some(n) => Some(Read { value: JsonModel::Number(n.value), end: n.end }),
            None => None,
        }
    }
}

/// Reads the items of an array, the first of which starts at `pos`, up
/// to and with the closing bracket.
pub open spec fn read_items(t: Seq<char>, pos: int) -> Option<Read<Seq<JsonModel>>>
    decreases t.len() - pos, 1nat,
{
    match read_value(t, pos) {
        None => None,
        Some(first) => if first.end <= pos || first.end >= t.len() {
            None
        } else if t[first.end] == ']' {
            Some(Read { value: seq![first.value], end: first.end + 1 })
        } else if t[first.end] == ',' {
            match read_items(t, first.end + 1) {
                Some(rest) => Some(Read { value: seq![first.value] + rest.value, end: rest.end }),
                None => None,
            }
        } else {
            None
        },
    }
}

/// Reads the members of an object, the first of which starts at `pos`,
/// up to and with the closing brace.
pub open spec fn read_members(t: Seq<char>, pos: int) -> Option<Read<Seq<MemberModel>>>
    decreases t.len() - pos, 1nat,
{
    if pos < 0 || pos >= t.len() || t[pos] != '"' {
        None
    } else {
        match read_string(t, pos + 1) {
            None => None,
            Some(name) => if name.end <= pos || name.end >= t.len() || t[name.end] != ':' {
                None
            } else {
                match read_value(t, name.end + 1) {
                    None => None,
                    Some(value) => {
                        let member = MemberModel { name: name.value, value: value.value };
                        if value.end <= pos || value.end >= t.len() {
                            None
                        } else if t[value.end] == '}' {
                            Some(Read { value: seq![member], end: value.end + 1 })
                        } else if t[value.end] == ',' {
                            match read_members(t, value.end + 1) {
                                Some(rest) => Some(
                                    Read { value: seq![member] + rest.value, end: rest.end },
                                ),
                                None => None,
                            }
                        } else {
                            None
                        }
                    },
                }
            },
        }
    }
}

/// The value that a text denotes, where the whole of it is one value.
pub open spec fn parse(text: Seq<char>) -> Option<JsonModel> {
    match read_value(text, 0) {
        Some(r) => if r.end == text.len() {
            Some(r.value)
        } else {
            None
        },
        None => None,
    }
}

} // verus!
