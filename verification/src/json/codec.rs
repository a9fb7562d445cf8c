//! Writing values as text and reading text as values.

use vstd::prelude::*;
use crate::json::{
    digits_end, escape, escape_char, hex_value, items_tail, members_tail, parse, quoted,
    read_char, read_items, read_members, read_number, read_string, read_value, render,
    render_member, short_escape, short_unescape, Read,
};
use crate::number::{
    all_digits, is_digit, lemma_digits_value_bounds, push_decimal, read_digits,
};
use crate::reply::{
    lemma_array_view, lemma_object_view, JsonMember, JsonModel, JsonValue, MemberModel,
};
use crate::text::{chars_of, slice_chars, string_of};

verus! {

fn write_char(out: &mut Vec<char>, c: char)
    ensures
        final(out)@ == old(out)@ + escape_char(c),
{
    let ghost start = out@;
    if c == '"' {
        out.push('\\');
        out.push('"');
    } else if c == '\\' {
        out.push('\\');
        out.push('\\');
    } else if c == '\u{8}' {
        out.push('\\');
        out.push('b');
    } else if c == '\u{c}' {
        out.push('\\');
        out.push('f');
    } else if c == '\n' {
        out.push('\\');
        out.push('n');
    } else if c == '\r' {
        out.push('\\');
        out.push('r');
    } else if c == '\t' {
        out.push('\\');
        out.push('t');
    } else if c <= '\u{1f}' {
        let code: u8 = c as u8;
        let hi: u8 = code / 16;
        let lo: u8 = code % 16;
        out.push('\\');
        out.push('u');
        out.push('0');
        out.push('0');
        out.push((('0' as u8) + hi) as char);
        if lo < 10 {
            out.push((('0' as u8) + lo) as char);
        } else {
            out.push((('a' as u8) + lo - 10) as char);
        }
    } else {
        out.push(c);
    }
    assert(out@ =~= start + escape_char(c));
}

/// Appends a string as it is written, with its quotes.
fn write_string(out: &mut Vec<char>, s: &str)
    ensures
        final(out)@ == old(out)@ + quoted(s@),
{
    let ghost start = out@;
    let chars = chars_of(s);
    out.push('"');
    let mut i: usize = 0;
    assert(chars@.skip(0) =~= chars@);
    while i < chars.len()
        invariant
            i <= chars.len(),
            out@ + escape(chars@.skip(i as int)) =~= start + seq!['"'] + escape(chars@),
        decreases chars.len() - i,
    {
        let ghost before = out@;
        let ghost rest = chars@.skip(i as int);
        assert(rest[0] == chars@[i as int]);
        assert(rest.drop_first() =~= chars@.skip(i + 1));
        write_char(out, chars[i]);
        assert(out@ + escape(chars@.skip(i + 1)) =~= before + escape(rest));
        i += 1;
    }
    assert(escape(chars@.skip(i as int)) =~= Seq::<char>::empty());
    out.push('"');
    assert(out@ =~= start + quoted(s@));
}

/// Appends a value as it is written.
fn write_value(out: &mut Vec<char>, v: &JsonValue)
    ensures
        final(out)@ == old(out)@ + render(v@),
    decreases v,
{
    let ghost start = out@;
    match v {
        JsonValue::Null => {
            out.push('n');
            out.push('u');
            out.push('l');
            out.push('l');
            assert(out@ =~= start + render(v@));
        },
        JsonValue::Number(n) => {
            push_decimal(out, *n);
        },
        JsonValue::String(s) => {
            write_string(out, s.as_str());
        },
        JsonValue::Array(items) => {
            proof {
                lemma_array_view(*items);
            }
            let ghost ms = v@->Array_0;
            if items.len() == 0 {
                out.push('[');
                out.push(']');
                assert(out@ =~= start + render(v@));
            } else {
                out.push('[');
                write_value(out, &items[0]);
                assert(ms[0] == items@[0]@);
                let mut i: usize = 1;
                while i < items.len()
                    invariant
                        1 <= i <= items.len(),
                        ms.len() == items@.len(),
                        forall|k: int| 0 <= k < items@.len() ==> #[trigger] ms[k] == items@[k]@,
                        forall|k: int|
                            0 <= k < items@.len() ==> decreases_to!(v => #[trigger] items@[k]),
                        out@ + items_tail(ms, i as nat) =~= start + seq!['['] + render(ms[0])
                            + items_tail(ms, 1),
                    decreases items.len() - i,
                {
                    let ghost before = out@;
                    out.push(',');
                    write_value(out, &items[i]);
                    assert(ms[i as int] == items@[i as int]@);
                    assert(out@ + items_tail(ms, (i + 1) as nat) =~= before + items_tail(
                        ms,
                        i as nat,
                    ));
                    i += 1;
                }
                assert(items_tail(ms, i as nat) =~= Seq::<char>::empty());
                out.push(']');
                assert(out@ =~= start + render(v@));
            }
        },
        JsonValue::Object(members) => {
            proof {
                lemma_object_view(*members);
            }
            let ghost ms = v@->Object_0;
            if members.len() == 0 {
                out.push('{');
                out.push('}');
                assert(out@ =~= start + render(v@));
            } else {
                out.push('{');
                write_string(out, members[0].name.as_str());
                out.push(':');
                write_value(out, &members[0].value);
                assert(ms[0] == MemberModel { name: members@[0].name@, value: members@[0].value@ });
                assert(out@ =~= start + seq!['{'] + render_member(ms, 0));
                let mut i: usize = 1;
                while i < members.len()
                    invariant
                        1 <= i <= members.len(),
                        ms.len() == members@.len(),
                        forall|k: int|
                            0 <= k < members@.len() ==> #[trigger] ms[k] == (MemberModel {
                                name: members@[k].name@,
                                value: members@[k].value@,
                            }),
                        forall|k: int|
                            0 <= k < members@.len() ==> decreases_to!(v => #[trigger] members@[k]),
                        out@ + members_tail(ms, i as nat) =~= start + seq!['{'] + render_member(
                            ms,
                            0,
                        ) + members_tail(ms, 1),
                    decreases members.len() - i,
                {
                    let ghost before = out@;
                    out.push(',');
                    write_string(out, members[i].name.as_str());
                    out.push(':');
                    write_value(out, &members[i].value);
                    assert(ms[i as int] == MemberModel {
                        name: members@[i as int].name@,
                        value: members@[i as int].value@,
                    });
                    assert(out@ + members_tail(ms, (i + 1) as nat) =~= before + members_tail(
                        ms,
                        i as nat,
                    ));
                    i += 1;
                }
                assert(members_tail(ms, i as nat) =~= Seq::<char>::empty());
                out.push('}');
                assert(out@ =~= start + render(v@));
            }
        },
    }
}

/// Writes a value as JSON text.
pub fn encode_json(v: &JsonValue) -> (text: String)
    ensures
        text@ == render(v@),
{
    let mut out: Vec<char> = Vec::new();
    write_value(&mut out, v);
    assert(Seq::<char>::empty() + render(v@) =~= render(v@));
    string_of(&out)
}

/// The value of a lower-case hexadecimal digit.
fn hex_of(c: char) -> (r: Option<u8>)
    ensures
        match r {
            Some(v) => hex_value(c) == Some(v as int),
            None => hex_value(c) is None,
        },
{
    if '0' <= c && c <= '9' {
        Some((c as u8) - ('0' as u8))
    } else if 'a' <= c && c <= 'f' {
        Some((c as u8) - ('a' as u8) + 10)
    } else {
        None
    }
}

/// The character that a letter after a backslash stands for.
fn short_of(e: char) -> (r: Option<char>)
    ensures
        r == short_unescape(e),
{
    if e == '"' {
        Some('"')
    } else if e == '\\' {
        Some('\\')
    } else if e == 'b' {
        Some('\u{8}')
    } else if e == 'f' {
        Some('\u{c}')
    } else if e == 'n' {
        Some('\n')
    } else if e == 'r' {
        Some('\r')
    } else if e == 't' {
        Some('\t')
    } else {
        None
    }
}

/// Reads one character of a string.
fn take_char(t: &Vec<char>, pos: usize) -> (r: Option<(char, usize)>)
    ensures
        match r {
            Some((c, end)) => read_char(t@, pos as int) == Some(
                Read { value: c, end: end as int },
            ) && pos < end <= t.len(),
            None => read_char(t@, pos as int) is None,
        },
{
    if pos >= t.len() {
        return None;
    }
    let c = t[pos];
    if c == '\\' {
        if pos + 1 >= t.len() {
            return None;
        }
        let e = t[pos + 1];
        match short_of(e) {
            Some(plain) => Some((plain, pos + 2)),
            None => {
                if e != 'u' || t.len() - pos < 6 {
                    return None;
                }
                if t[pos + 2] != '0' || t[pos + 3] != '0' {
                    return None;
                }
                let hi = match hex_of(t[pos + 4]) {
                    Some(v) => v,
                    None => {
                        return None;
                    },
                };
                let lo = match hex_of(t[pos + 5]) {
                    Some(v) => v,
                    None => {
                        return None;
                    },
                };
                if hi >= 2 {
                    return None;
                }
                let code: u8 = hi * 16 + lo;
                if code == 8 || code == 9 || code == 10 || code == 12 || code == 13 {
                    return None;
                }
                let plain = code as char;
                proof {
                    assert(plain as int == code as int);
                    assert(hex_value(t@[pos + 4]) == Some(hi as int));
                    assert(hex_value(t@[pos + 5]) == Some(lo as int));
                    assert(short_escape(plain) is None);
                    assert((code as int) as char == plain);
                    assert(short_unescape(t@[pos + 1]) is None);
                }
                Some((plain, pos + 6))
            },
        }
    } else if c <= '\u{1f}' || c == '"' {
        None
    } else {
        Some((c, pos + 1))
    }
}

/// Reads the characters of a string after its opening quote.
fn take_string(t: &Vec<char>, pos: usize) -> (r: Option<(String, usize)>)
    ensures
        match r {
            Some((s, end)) => read_string(t@, pos as int) == Some(
                Read { value: s@, end: end as int },
            ) && pos < end <= t.len(),
            None => read_string(t@, pos as int) is None,
        },
{
    let mut buf: Vec<char> = Vec::new();
    let mut i: usize = pos;
    proof {
        let first = read_string(t@, pos as int);
        if first is Some {
            assert(buf@ + first->0.value =~= first->0.value);
        }
    }
    while i < t.len()
        invariant
            pos <= i,
            read_string(t@, pos as int) == (match read_string(t@, i as int) {
                Some(r) => Some(Read { value: buf@ + r.value, end: r.end }),
                None => None,
            }),
        decreases t.len() - i,
    {
        if t[i] == '"' {
            assert(buf@ + Seq::<char>::empty() =~= buf@);
            return Some((string_of(&buf), i + 1));
        }
        match take_char(t, i) {
            None => {
                return None;
            },
            Some((c, end)) => {
                proof {
                    let next = read_string(t@, end as int);
                    if next is Some {
                        assert(buf@ + (seq![c] + next->0.value) =~= buf@.push(c) + next->0.value);
                    }
                }
                buf.push(c);
                i = end;
            },
        }
    }
    None
}

/// Reads an integer.
pub(crate) fn take_number(t: &Vec<char>, pos: usize) -> (r: Option<(i64, usize)>)
    ensures
        match r {
            Some((n, end)) => read_number(t@, pos as int) == Some(
                Read { value: n as int, end: end as int },
            ) && pos < end <= t.len(),
            None => read_number(t@, pos as int) is None,
        },
{
    if pos >= t.len() {
        return None;
    }
    let negative = t[pos] == '-';
    let start: usize = if negative {
        pos + 1
    } else {
        pos
    };
    let mut end: usize = start;
    while end < t.len() && '0' <= t[end] && t[end] <= '9'
        invariant
            start <= end <= t.len(),
            digits_end(t@, start as int) == digits_end(t@, end as int),
            forall|j: int| start <= j < end ==> is_digit(#[trigger] t@[j]),
        decreases t.len() - end,
    {
        end += 1;
    }
    assert(digits_end(t@, start as int) == end);
    if end == start {
        return None;
    }
    if end - start > 1 && t[start] == '0' {
        return None;
    }
    let digits = slice_chars(t, start, end);
    assert(all_digits(digits@)) by {
        assert forall|k: int| 0 <= k < digits@.len() implies is_digit(#[trigger] digits@[k]) by {
            assert(digits@[k] == t@[start + k]);
        }
    }
    assert(digits@.skip(0) =~= digits@);
    proof {
        lemma_digits_value_bounds(digits@);
    }
    if negative {
        match read_digits(&digits, 0, 0x8000_0000_0000_0000u64) {
            None => None,
            Some(m) => {
                if m == 0 {
                    None
                } else if m == 0x8000_0000_0000_0000u64 {
                    Some((i64::MIN, end))
                } else {
                    Some((-(m as i64), end))
                }
            },
        }
    } else {
        match read_digits(&digits, 0, 0x7fff_ffff_ffff_ffffu64) {
            None => None,
            Some(m) => Some((m as i64, end)),
        }
    }
}

/// What was read, as a mathematical value.
pub open spec fn value_read(r: Option<(JsonValue, usize)>) -> Option<Read<JsonModel>> {
    match r {
        Some((v, end)) => Some(Read { value: v@, end: end as int }),
        None => None,
    }
}

/// The views of the values of a sequence.
pub open spec fn models(items: Seq<JsonValue>) -> Seq<JsonModel> {
    Seq::new(items.len(), |i: int| items[i]@)
}

/// The views of the members of a sequence.
pub open spec fn member_models(members: Seq<JsonMember>) -> Seq<MemberModel> {
    Seq::new(members.len(), |i: int| MemberModel { name: members[i].name@, value: members[i].value@ })
}

/// Reads a value.
fn take_value(t: &Vec<char>, pos: usize) -> (r: Option<(JsonValue, usize)>)
    ensures
        value_read(r) == read_value(t@, pos as int),
        match r {
            Some((_, end)) => pos < end <= t.len(),
            None => true,
        },
    decreases t.len() - pos, 0nat,
{
    if pos >= t.len() {
        return None;
    }
    let c = t[pos];
    if c == 'n' {
        if t.len() - pos >= 4 && t[pos + 1] == 'u' && t[pos + 2] == 'l' && t[pos + 3] == 'l' {
            Some((JsonValue::Null, pos + 4))
        } else {
            None
        }
    } else if c == '"' {
        match take_string(t, pos + 1) {
            Some((s, end)) => Some((JsonValue::String(s), end)),
            None => None,
        }
    } else if c == '[' {
        if pos + 1 < t.len() && t[pos + 1] == ']' {
            let items: Vec<JsonValue> = Vec::new();
            proof {
                lemma_array_view(items);
            }
            let v = JsonValue::Array(items);
            assert(v@->Array_0 =~= Seq::<JsonModel>::empty());
            Some((v, pos + 2))
        } else {
            match take_items(t, pos + 1) {
                Some((items, end)) => {
                    proof {
                        lemma_array_view(items);
                    }
                    let v = JsonValue::Array(items);
                    assert(v@->Array_0 =~= models(items@));
                    Some((v, end))
                },
                None => None,
            }
        }
    } else if c == '{' {
        if pos + 1 < t.len() && t[pos + 1] == '}' {
            let members: Vec<JsonMember> = Vec::new();
            proof {
                lemma_object_view(members);
            }
            let v = JsonValue::Object(members);
            assert(v@->Object_0 =~= Seq::<MemberModel>::empty());
            Some((v, pos + 2))
        } else {
            match take_members(t, pos + 1) {
                Some((members, end)) => {
                    proof {
                        lemma_object_view(members);
                    }
                    let v = JsonValue::Object(members);
                    assert(v@->Object_0 =~= member_models(members@));
                    Some((v, end))
                },
                None => None,
            }
        }
    } else {
        match take_number(t, pos) {
            Some((n, end)) => Some((JsonValue::Number(n), end)),
            None => None,
        }
    }
}

/// Reads the items of an array.
fn take_items(t: &Vec<char>, pos: usize) -> (r: Option<(Vec<JsonValue>, usize)>)
    ensures
        match r {
            Some((items, end)) => read_items(t@, pos as int) == Some(
                Read { value: models(items@), end: end as int },
            ) && pos < end <= t.len(),
            None => read_items(t@, pos as int) is None,
        },
    decreases t.len() - pos, 1nat,
{
    let (first, after) = match take_value(t, pos) {
        Some(read) => read,
        None => {
            return None;
        },
    };
    if after >= t.len() {
        return None;
    }
    if t[after] == ']' {
        let mut items: Vec<JsonValue> = Vec::new();
        items.push(first);
        assert(models(items@) =~= seq![first@]);
        Some((items, after + 1))
    } else if t[after] == ',' {
        match take_items(t, after + 1) {
            Some((rest, end)) => {
                let mut items: Vec<JsonValue> = Vec::new();
                items.push(first);
                let mut rest = rest;
                let ghost tail = rest@;
                items.append(&mut rest);
                assert(models(items@) =~= seq![first@] + models(tail));
                Some((items, end))
            },
            None => None,
        }
    } else {
        None
    }
}

/// Reads the members of an object.
fn take_members(t: &Vec<char>, pos: usize) -> (r: Option<(Vec<JsonMember>, usize)>)
    ensures
        match r {
            Some((members, end)) => read_members(t@, pos as int) == Some(
                Read { value: member_models(members@), end: end as int },
            ) && pos < end <= t.len(),
            None => read_members(t@, pos as int) is None,
        },
    decreases t.len() - pos, 1nat,
{
    if pos >= t.len() || t[pos] != '"' {
        return None;
    }
    let (name, colon) = match take_string(t, pos + 1) {
        Some(read) => read,
        None => {
            return None;
        },
    };
    if colon >= t.len() || t[colon] != ':' {
        return None;
    }
    let (value, after) = match take_value(t, colon + 1) {
        Some(read) => read,
        None => {
            return None;
        },
    };
    if after >= t.len() {
        return None;
    }
    let member = JsonMember { name, value };
    let ghost model = MemberModel { name: member.name@, value: member.value@ };
    if t[after] == '}' {
        let mut members: Vec<JsonMember> = Vec::new();
        members.push(member);
        assert(member_models(members@) =~= seq![model]);
        Some((members, after + 1))
    } else if t[after] == ',' {
        match take_members(t, after + 1) {
            Some((rest, end)) => {
                let mut members: Vec<JsonMember> = Vec::new();
                members.push(member);
                let mut rest = rest;
                let ghost tail = rest@;
                members.append(&mut rest);
                assert(member_models(members@) =~= seq![model] + member_models(tail));
                Some((members, end))
            },
            None => None,
        }
    } else {
        None
    }
}

/// Reads JSON text: the value that the whole text denotes, if it denotes
/// one.
pub fn decode_json(text: &str) -> (r: Option<JsonValue>)
    ensures
        (match r {
            Some(v) => Some(v@),
            None => None,
        }) == parse(text@),
{
    let t = chars_of(text);
    match take_value(&t, 0) {
        Some((v, end)) => if end == t.len() {
            Some(v)
        } else {
            None
        },
        None => None,
    }
}


} // verus!
