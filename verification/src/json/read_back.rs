//! What is read was written.

use vstd::prelude::*;
use crate::json::{
    digits_end, escape, escape_char, fits, hex_digit, hex_value, items_tail, members_tail,
    parse, quoted, read_char, read_items, read_members, read_number, read_string, read_value,
    render, render_member, short_escape, short_unescape,
};
use crate::number::{all_digits, decimal, decimal_digits, digit_char, digits_value, is_digit};
use crate::reply::{JsonModel, MemberModel};

verus! {

pub open spec fn part(t: Seq<char>, from: int, to: int) -> Seq<char> {
    t.subrange(from, to)
}

proof fn lemma_part_join(t: Seq<char>, a: int, b: int, c: int)
    requires
        0 <= a <= b <= c <= t.len(),
    ensures
        part(t, a, c) == part(t, a, b) + part(t, b, c),
{
    assert(part(t, a, c) =~= part(t, a, b) + part(t, b, c));
}

proof fn lemma_char_read_is_written(t: Seq<char>, pos: int)
    requires
        read_char(t, pos) is Some,
    ensures
        0 <= pos < read_char(t, pos)->0.end <= t.len(),
        part(t, pos, read_char(t, pos)->0.end) == escape_char(read_char(t, pos)->0.value),
{
    let r = read_char(t, pos)->0;
    let c = r.value;
    if t[pos] == '\\' {
        if short_unescape(t[pos + 1]) is Some {
            assert(short_escape(c) == Some(t[pos + 1]));
            assert(part(t, pos, pos + 2) =~= seq!['\\', t[pos + 1]]);
        } else {
            let hi = hex_value(t[pos + 4])->0;
            let lo = hex_value(t[pos + 5])->0;
            let code = hi * 16 + lo;
            assert(0 <= hi < 16 && 0 <= lo < 16);
            assert(hi < 2);
            assert(c as int == code);
            assert(code / 16 == hi && code % 16 == lo);
            assert(hex_digit(hi) == t[pos + 4]);
            assert(hex_digit(lo) == t[pos + 5]);
            assert(part(t, pos, pos + 6) =~= seq![
                '\\',
                'u',
                '0',
                '0',
                hex_digit(hi),
                hex_digit(lo),
            ]);
        }
    } else {
        assert(short_escape(c) is None);
        assert(part(t, pos, pos + 1) =~= seq![c]);
    }
}

proof fn lemma_string_read_is_written(t: Seq<char>, pos: int)
    requires
        read_string(t, pos) is Some,
    ensures
        0 <= pos < read_string(t, pos)->0.end <= t.len(),
        part(t, pos, read_string(t, pos)->0.end) == escape(read_string(t, pos)->0.value)
            + seq!['"'],
    decreases t.len() - pos,
{
    let r = read_string(t, pos)->0;
    if t[pos] == '"' {
        assert(r.value =~= Seq::<char>::empty());
        assert(part(t, pos, pos + 1) =~= escape(r.value) + seq!['"']);
    } else {
        let c = read_char(t, pos)->0;
        lemma_char_read_is_written(t, pos);
        lemma_string_read_is_written(t, c.end);
        let rest = read_string(t, c.end)->0;
        lemma_part_join(t, pos, c.end, rest.end);
        let s = seq![c.value] + rest.value;
        assert(s[0] == c.value);
        assert(s.drop_first() =~= rest.value);
        assert(escape(s) == escape_char(c.value) + escape(rest.value));
        assert(part(t, pos, rest.end) =~= escape(s) + seq!['"']);
    }
}

proof fn lemma_digits_end_bounds(t: Seq<char>, pos: int)
    requires
        0 <= pos <= t.len(),
    ensures
        pos <= digits_end(t, pos) <= t.len(),
        forall|j: int| pos <= j < digits_end(t, pos) ==> is_digit(#[trigger] t[j]),
    decreases t.len() - pos,
{
    if pos < t.len() && is_digit(t[pos]) {
        lemma_digits_end_bounds(t, pos + 1);
    }
}

/// A run of digits that does not start with a needless zero is the
/// decimal form of the number that it denotes.
proof fn lemma_digits_are_decimal(d: Seq<char>)
    requires
        d.len() >= 1,
        all_digits(d),
        d.len() == 1 || d[0] != '0',
    ensures
        digits_value(d) >= 0,
        d.len() > 1 ==> digits_value(d) >= 10,
        decimal_digits(digits_value(d) as nat) == d,
    decreases d.len(),
{
    let head = d.drop_last();
    let c = d.last();
    assert(is_digit(d[d.len() - 1]));
    assert(digit_char(c as int - '0' as int) == c);
    if d.len() == 1 {
        assert(head =~= Seq::<char>::empty());
        assert(digits_value(head) == 0);
        assert(d =~= seq![c]);
    } else {
        assert(all_digits(head)) by {
            assert forall|i: int| 0 <= i < head.len() implies is_digit(#[trigger] head[i]) by {
                assert(head[i] == d[i]);
            }
        }
        assert(head[0] == d[0]);
        lemma_digits_are_decimal(head);
        let m = digits_value(head);
        if head.len() == 1 {
            assert(is_digit(head[0]));
            assert(head =~= seq![head[0]]);
            assert(head.drop_last() =~= Seq::<char>::empty());
            assert(digits_value(head.drop_last()) == 0);
            assert(m == head[0] as int - '0' as int);
            assert(m >= 1);
        }
        let v = digits_value(d);
        assert(v == m * 10 + (c as int - '0' as int));
        assert(v >= 10);
        assert(v / 10 == m && v % 10 == c as int - '0' as int);
        assert(decimal_digits(v as nat) == decimal_digits(m as nat).push(c));
        assert(head.push(c) =~= d);
    }
}

proof fn lemma_number_read_is_written(t: Seq<char>, pos: int)
    requires
        read_number(t, pos) is Some,
    ensures
        0 <= pos < read_number(t, pos)->0.end <= t.len(),
        i64::MIN <= read_number(t, pos)->0.value <= i64::MAX,
        part(t, pos, read_number(t, pos)->0.end) == decimal(read_number(t, pos)->0.value),
        t[pos] == '-' || is_digit(t[pos]),
{
    let r = read_number(t, pos)->0;
    let negative = t[pos] == '-';
    let start = if negative {
        pos + 1
    } else {
        pos
    };
    lemma_digits_end_bounds(t, start);
    let digits = part(t, start, r.end);
    assert(all_digits(digits)) by {
        assert forall|k: int| 0 <= k < digits.len() implies is_digit(#[trigger] digits[k]) by {
            assert(digits[k] == t[start + k]);
        }
    }
    assert(digits[0] == t[start]);
    lemma_digits_are_decimal(digits);
    if negative {
        assert(part(t, pos, r.end) =~= seq!['-'] + digits);
    } else {
        assert(is_digit(t[start]));
    }
}

proof fn lemma_value_read_is_written(t: Seq<char>, pos: int)
    requires
        read_value(t, pos) is Some,
    ensures
        0 <= pos < read_value(t, pos)->0.end <= t.len(),
        fits(read_value(t, pos)->0.value),
        part(t, pos, read_value(t, pos)->0.end) == render(read_value(t, pos)->0.value),
    decreases t.len() - pos, 0nat,
{
    let r = read_value(t, pos)->0;
    if t[pos] == 'n' {
        assert(part(t, pos, pos + 4) =~= seq!['n', 'u', 'l', 'l']);
    } else if t[pos] == '"' {
        lemma_string_read_is_written(t, pos + 1);
        let s = read_string(t, pos + 1)->0;
        lemma_part_join(t, pos, pos + 1, s.end);
        assert(part(t, pos, pos + 1) =~= seq!['"']);
        assert(part(t, pos, s.end) =~= quoted(s.value));
    } else if t[pos] == '[' {
        if pos + 1 < t.len() && t[pos + 1] == ']' {
            assert(part(t, pos, pos + 2) =~= seq!['[', ']']);
        } else {
            lemma_items_read_are_written(t, pos + 1);
            let items = read_items(t, pos + 1)->0;
            lemma_part_join(t, pos, pos + 1, items.end);
            assert(part(t, pos, pos + 1) =~= seq!['[']);
            assert(part(t, pos, items.end) =~= seq!['['] + (render(items.value[0]) + items_tail(
                items.value,
                1,
            ) + seq![']']));
            assert(render(r.value) =~= seq!['['] + (render(items.value[0]) + items_tail(
                items.value,
                1,
            ) + seq![']']));
        }
    } else if t[pos] == '{' {
        if pos + 1 < t.len() && t[pos + 1] == '}' {
            assert(part(t, pos, pos + 2) =~= seq!['{', '}']);
        } else {
            lemma_members_read_are_written(t, pos + 1);
            let members = read_members(t, pos + 1)->0;
            lemma_part_join(t, pos, pos + 1, members.end);
            assert(part(t, pos, pos + 1) =~= seq!['{']);
            assert(part(t, pos, members.end) =~= seq!['{'] + (render_member(members.value, 0)
                + members_tail(members.value, 1) + seq!['}']));
            assert(render(r.value) =~= seq!['{'] + (render_member(members.value, 0)
                + members_tail(members.value, 1) + seq!['}']));
        }
    } else {
        lemma_number_read_is_written(t, pos);
    }
}

/// The tail of a sequence of items that starts with one more item.
proof fn lemma_items_tail_shift(first: JsonModel, rest: Seq<JsonModel>, from: nat)
    ensures
        items_tail(seq![first] + rest, from + 1) == items_tail(rest, from),
    decreases rest.len() - from,
{
    let all = seq![first] + rest;
    if from < rest.len() {
        assert(all[from as int + 1] == rest[from as int]);
        lemma_items_tail_shift(first, rest, from + 1);
    }
}

/// The tail of a sequence of members that starts with one more member.
proof fn lemma_members_tail_shift(first: MemberModel, rest: Seq<MemberModel>, from: nat)
    ensures
        members_tail(seq![first] + rest, from + 1) == members_tail(rest, from),
    decreases rest.len() - from,
{
    let all = seq![first] + rest;
    if from < rest.len() {
        assert(all[from as int + 1] == rest[from as int]);
        lemma_members_tail_shift(first, rest, from + 1);
    }
}

proof fn lemma_items_read_are_written(t: Seq<char>, pos: int)
    requires
        read_items(t, pos) is Some,
    ensures
        0 <= pos < read_items(t, pos)->0.end <= t.len(),
        read_items(t, pos)->0.value.len() >= 1,
        forall|i: int|
            0 <= i < read_items(t, pos)->0.value.len() ==> fits(
                #[trigger] read_items(t, pos)->0.value[i],
            ),
        part(t, pos, read_items(t, pos)->0.end) == render(read_items(t, pos)->0.value[0])
            + items_tail(read_items(t, pos)->0.value, 1) + seq![']'],
    decreases t.len() - pos, 1nat,
{
    let r = read_items(t, pos)->0;
    let first = read_value(t, pos)->0;
    lemma_value_read_is_written(t, pos);
    if t[first.end] == ']' {
        assert(r.value =~= seq![first.value]);
        lemma_part_join(t, pos, first.end, first.end + 1);
        assert(part(t, first.end, first.end + 1) =~= seq![']']);
        assert(items_tail(r.value, 1) =~= Seq::<char>::empty());
        assert(part(t, pos, r.end) =~= render(r.value[0]) + items_tail(r.value, 1) + seq![']']);
    } else {
        let rest = read_items(t, first.end + 1)->0;
        lemma_items_read_are_written(t, first.end + 1);
        assert(r.value == seq![first.value] + rest.value);
        assert forall|i: int| 0 <= i < r.value.len() implies fits(#[trigger] r.value[i]) by {
            if i > 0 {
                assert(r.value[i] == rest.value[i - 1]);
            }
        }
        lemma_part_join(t, pos, first.end, first.end + 1);
        lemma_part_join(t, pos, first.end + 1, rest.end);
        assert(part(t, first.end, first.end + 1) =~= seq![',']);
        lemma_items_tail_shift(first.value, rest.value, 1);
        assert(r.value[1] == rest.value[0]);
        assert(items_tail(r.value, 1) == seq![','] + render(rest.value[0]) + items_tail(
            r.value,
            2,
        ));
        assert(part(t, pos, r.end) =~= render(r.value[0]) + items_tail(r.value, 1) + seq![']']);
    }
}

proof fn lemma_members_read_are_written(t: Seq<char>, pos: int)
    requires
        read_members(t, pos) is Some,
    ensures
        0 <= pos < read_members(t, pos)->0.end <= t.len(),
        read_members(t, pos)->0.value.len() >= 1,
        forall|i: int|
            0 <= i < read_members(t, pos)->0.value.len() ==> fits(
                (#[trigger] read_members(t, pos)->0.value[i]).value,
            ),
        part(t, pos, read_members(t, pos)->0.end) == render_member(
            read_members(t, pos)->0.value,
            0,
        ) + members_tail(read_members(t, pos)->0.value, 1) + seq!['}'],
    decreases t.len() - pos, 1nat,
{
    let r = read_members(t, pos)->0;
    let name = read_string(t, pos + 1)->0;
    lemma_string_read_is_written(t, pos + 1);
    let value = read_value(t, name.end + 1)->0;
    lemma_value_read_is_written(t, name.end + 1);
    let member = MemberModel { name: name.value, value: value.value };
    lemma_part_join(t, pos, pos + 1, name.end);
    assert(part(t, pos, pos + 1) =~= seq!['"']);
    assert(part(t, pos, name.end) =~= quoted(name.value));
    lemma_part_join(t, pos, name.end, name.end + 1);
    assert(part(t, name.end, name.end + 1) =~= seq![':']);
    lemma_part_join(t, pos, name.end + 1, value.end);
    let written = quoted(name.value) + seq![':'] + render(value.value);
    assert(part(t, pos, value.end) =~= written);
    lemma_part_join(t, pos, value.end, value.end + 1);
    if t[value.end] == '}' {
        assert(r.value =~= seq![member]);
        assert(part(t, value.end, value.end + 1) =~= seq!['}']);
        assert(members_tail(r.value, 1) =~= Seq::<char>::empty());
        assert(render_member(r.value, 0) == written);
        assert(part(t, pos, r.end) =~= render_member(r.value, 0) + members_tail(r.value, 1)
            + seq!['}']);
    } else {
        let rest = read_members(t, value.end + 1)->0;
        lemma_members_read_are_written(t, value.end + 1);
        assert(r.value == seq![member] + rest.value);
        assert forall|i: int| 0 <= i < r.value.len() implies fits(
            (#[trigger] r.value[i]).value,
        ) by {
            if i > 0 {
                assert(r.value[i] == rest.value[i - 1]);
            }
        }
        lemma_part_join(t, pos, value.end + 1, rest.end);
        assert(part(t, value.end, value.end + 1) =~= seq![',']);
        lemma_members_tail_shift(member, rest.value, 1);
        assert(r.value[0] == member);
        assert(r.value[1] == rest.value[0]);
        assert(render_member(r.value, 0) == written);
        assert(render_member(rest.value, 0) == quoted(rest.value[0].name) + seq![':'] + render(
            rest.value[0].value,
        ));
        assert(members_tail(r.value, 1) =~= seq![','] + render_member(rest.value, 0)
            + members_tail(r.value, 2));
        assert(part(t, pos, r.end) =~= render_member(r.value, 0) + members_tail(r.value, 1)
            + seq!['}']);
    }
}

/// What is read was written: a text that denotes a value is the text of
/// that value, and every number of the value fits 64 bits.
pub proof fn lemma_render_parse(text: Seq<char>)
    requires
        parse(text) is Some,
    ensures
        fits(parse(text)->0),
        render(parse(text)->0) == text,
{
    lemma_value_read_is_written(text, 0);
    assert(part(text, 0, text.len() as int) =~= text);
}


} // verus!
