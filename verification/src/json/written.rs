//! What is written is read back.

use vstd::prelude::*;
use crate::json::{
    digits_end, escape, escape_char, fits, hex_digit, hex_value, items_tail, members_tail,
    parse, quoted, read_char, read_items, read_members, read_number, read_string, read_value,
    render, render_member, short_escape, Read,
};
use crate::number::{all_digits, decimal, decimal_digits, digit_char, digits_value, is_digit};
use crate::reply::{JsonModel, MemberModel};

verus! {

/// The text `t` holds `s` from place `pos` on.
pub open spec fn holds_at(t: Seq<char>, pos: int, s: Seq<char>) -> bool {
    &&& 0 <= pos
    &&& pos + s.len() <= t.len()
    &&& forall|k: int| 0 <= k < s.len() ==> t[pos + k] == #[trigger] s[k]
}

/// No digit stands at place `pos` of `t`.
pub open spec fn no_digit_at(t: Seq<char>, pos: int) -> bool {
    pos >= t.len() || !is_digit(t[pos])
}

proof fn lemma_holds_split(t: Seq<char>, pos: int, a: Seq<char>, b: Seq<char>)
    requires
        holds_at(t, pos, a + b),
    ensures
        holds_at(t, pos, a),
        holds_at(t, pos + a.len(), b),
{
    let ab = a + b;
    assert forall|k: int| 0 <= k < a.len() implies t[pos + k] == #[trigger] a[k] by {
        assert(ab[k] == a[k]);
    }
    assert forall|k: int| 0 <= k < b.len() implies t[pos + a.len() + k] == #[trigger] b[k] by {
        assert(ab[a.len() + k] == b[k]);
    }
}

proof fn lemma_decimal_digits(m: nat)
    ensures
        all_digits(decimal_digits(m)),
        decimal_digits(m).len() >= 1,
        digits_value(decimal_digits(m)) == m,
        decimal_digits(m).len() == 1 || decimal_digits(m)[0] != '0',
        decimal_digits(m).len() == 1 ==> m < 10,
    decreases m,
{
    let d = decimal_digits(m);
    if m < 10 {
        assert(d == seq![digit_char(m as int)]);
        assert(d.drop_last() =~= Seq::<char>::empty());
        assert(digits_value(d.drop_last()) == 0);
        assert(d.last() == digit_char(m as int));
    } else {
        lemma_decimal_digits(m / 10);
        let head = decimal_digits(m / 10);
        assert(d == head.push(digit_char((m % 10) as int)));
        assert(d.drop_last() =~= head);
        assert(d.last() == digit_char((m % 10) as int));
        assert(d[0] == head[0]);
        if head.len() == 1 {
            assert(m / 10 < 10);
            assert(head =~= seq![digit_char((m / 10) as int)]);
            assert(m / 10 >= 1);
        }
        assert forall|i: int| 0 <= i < d.len() implies is_digit(#[trigger] d[i]) by {
            if i < head.len() {
                assert(d[i] == head[i]);
            }
        }
    }
}

proof fn lemma_digits_end(t: Seq<char>, pos: int, k: nat)
    requires
        0 <= pos,
        pos + k <= t.len(),
        forall|j: int| pos <= j < pos + k ==> is_digit(#[trigger] t[j]),
        no_digit_at(t, pos + k),
    ensures
        digits_end(t, pos) == pos + k,
    decreases k,
{
    if k > 0 {
        assert(is_digit(t[pos]));
        lemma_digits_end(t, pos + 1, (k - 1) as nat);
    }
}

proof fn lemma_read_number(t: Seq<char>, pos: int, n: int)
    requires
        i64::MIN <= n <= i64::MAX,
        holds_at(t, pos, decimal(n)),
        no_digit_at(t, pos + decimal(n).len()),
    ensures
        read_number(t, pos) == Some(Read { value: n, end: pos + decimal(n).len() }),
{
    let m: nat = if n < 0 {
        (-n) as nat
    } else {
        n as nat
    };
    let d = decimal_digits(m);
    lemma_decimal_digits(m);
    let start = if n < 0 {
        pos + 1
    } else {
        pos
    };
    if n < 0 {
        lemma_holds_split(t, pos, seq!['-'], d);
        assert(seq!['-'][0] == '-');
        assert(t[pos + 0] == seq!['-'][0]);
    } else {
        assert(is_digit(d[0]));
        assert(t[pos + 0] == d[0]);
    }
    assert(holds_at(t, start, d));
    assert forall|j: int| start <= j < start + d.len() implies is_digit(#[trigger] t[j]) by {
        assert(t[start + (j - start)] == d[j - start]);
        assert(is_digit(d[j - start]));
    }
    lemma_digits_end(t, start, d.len());
    assert(t.subrange(start, start + d.len()) =~= d) by {
        assert forall|k: int| 0 <= k < d.len() implies t.subrange(start, start + d.len())[k]
            == d[k] by {
            assert(t[start + k] == d[k]);
        }
    }
    assert(t[start + 0] == d[0]);
}

proof fn lemma_read_char(t: Seq<char>, pos: int, c: char)
    requires
        holds_at(t, pos, escape_char(c)),
    ensures
        read_char(t, pos) == Some(Read { value: c, end: pos + escape_char(c).len() }),
        t[pos] != '"',
{
    let e = escape_char(c);
    assert(t[pos + 0] == e[0]);
    if short_escape(c) is Some {
        assert(t[pos + 1] == e[1]);
    } else if (c as int) < 0x20 {
        assert(t[pos + 1] == e[1]);
        assert(t[pos + 2] == e[2]);
        assert(t[pos + 3] == e[3]);
        assert(t[pos + 4] == e[4]);
        assert(t[pos + 5] == e[5]);
        let hi = c as int / 16;
        let lo = c as int % 16;
        assert(0 <= hi < 2);
        assert(hex_value(hex_digit(hi)) == Some(hi));
        assert(hex_value(hex_digit(lo)) == Some(lo));
        assert(hi * 16 + lo == c as int);
        assert((c as int) as char == c);
    } else {
    }
}

proof fn lemma_read_string(t: Seq<char>, pos: int, s: Seq<char>)
    requires
        holds_at(t, pos, escape(s) + seq!['"']),
    ensures
        read_string(t, pos) == Some(Read { value: s, end: pos + escape(s).len() + 1 }),
    decreases s.len(),
{
    if s.len() == 0 {
        assert((escape(s) + seq!['"'])[0] == '"');
        assert(t[pos + 0] == '"');
        assert(s =~= Seq::<char>::empty());
    } else {
        let c = s[0];
        let rest = s.drop_first();
        let e = escape_char(c);
        assert(escape(s) + seq!['"'] =~= e + (escape(rest) + seq!['"']));
        lemma_holds_split(t, pos, e, escape(rest) + seq!['"']);
        lemma_read_char(t, pos, c);
        lemma_read_string(t, pos + e.len(), rest);
        assert(seq![c] + rest =~= s);
    }
}

proof fn lemma_read_quoted(t: Seq<char>, pos: int, s: Seq<char>)
    requires
        holds_at(t, pos, quoted(s)),
    ensures
        t[pos] == '"',
        read_string(t, pos + 1) == Some(Read { value: s, end: pos + quoted(s).len() }),
{
    assert(quoted(s) =~= seq!['"'] + (escape(s) + seq!['"']));
    lemma_holds_split(t, pos, seq!['"'], escape(s) + seq!['"']);
    assert(seq!['"'][0] == '"');
    assert(t[pos + 0] == seq!['"'][0]);
    lemma_read_string(t, pos + 1, s);
}

/// Two values that are written alike are one value.
pub proof fn lemma_render_injective(a: JsonModel, b: JsonModel)
    requires
        fits(a),
        fits(b),
        render(a) == render(b),
    ensures
        a == b,
{
    lemma_parse_render(a);
    lemma_parse_render(b);
}

/// The first character with which a value is written.
proof fn lemma_render_first(v: JsonModel)
    ensures
        render(v).len() >= 1,
        v is Null ==> render(v)[0] == 'n',
        v is String ==> render(v)[0] == '"',
        v is Array ==> render(v)[0] == '[',
        v is Object ==> render(v)[0] == '{',
        v is Number ==> render(v)[0] == '-' || is_digit(render(v)[0]),
{
    match v {
        JsonModel::Number(n) => {
            if n < 0 {
                lemma_decimal_digits((-n) as nat);
            } else {
                lemma_decimal_digits(n as nat);
                assert(is_digit(decimal_digits(n as nat)[0]));
            }
        },
        JsonModel::Array(items) => {
            if items.len() > 0 {
            }
        },
        JsonModel::Object(members) => {
            if members.len() > 0 {
            }
        },
        _ => {},
    }
}

proof fn lemma_read_value(t: Seq<char>, pos: int, v: JsonModel)
    requires
        fits(v),
        holds_at(t, pos, render(v)),
        no_digit_at(t, pos + render(v).len()),
    ensures
        read_value(t, pos) == Some(Read { value: v, end: pos + render(v).len() }),
    decreases v, 0nat,
{
    lemma_render_first(v);
    assert(t[pos + 0] == render(v)[0]);
    match v {
        JsonModel::Null => {
            assert(t[pos + 1] == render(v)[1]);
            assert(t[pos + 2] == render(v)[2]);
            assert(t[pos + 3] == render(v)[3]);
        },
        JsonModel::Number(n) => {
            lemma_read_number(t, pos, n);
        },
        JsonModel::String(s) => {
            lemma_read_quoted(t, pos, s);
        },
        JsonModel::Array(items) => {
            if items.len() == 0 {
                assert(t[pos + 1] == render(v)[1]);
                assert(items =~= Seq::<JsonModel>::empty());
            } else {
                let inner = render(items[0]) + items_tail(items, 1) + seq![']'];
                assert(render(v) =~= seq!['['] + inner);
                lemma_holds_split(t, pos, seq!['['], inner);
                lemma_render_first(items[0]);
                assert(t[pos + 1 + 0] == inner[0]);
                assert(inner[0] == render(items[0])[0]);
                lemma_read_items(t, pos + 1, items, 0);
                assert(items.skip(0) =~= items);
            }
        },
        JsonModel::Object(members) => {
            if members.len() == 0 {
                assert(t[pos + 1] == render(v)[1]);
                assert(members =~= Seq::<MemberModel>::empty());
            } else {
                let inner = render_member(members, 0) + members_tail(members, 1) + seq!['}'];
                assert(render(v) =~= seq!['{'] + inner);
                lemma_holds_split(t, pos, seq!['{'], inner);
                assert(t[pos + 1 + 0] == inner[0]);
                assert(inner[0] == '"');
                lemma_read_members(t, pos + 1, members, 0);
                assert(members.skip(0) =~= members);
            }
        },
    }
}

proof fn lemma_read_items(t: Seq<char>, pos: int, items: Seq<JsonModel>, from: nat)
    requires
        from < items.len(),
        forall|i: int| 0 <= i < items.len() ==> fits(#[trigger] items[i]),
        holds_at(t, pos, render(items[from as int]) + items_tail(items, from + 1) + seq![']']),
    ensures
        read_items(t, pos) == Some(
            Read {
                value: items.skip(from as int),
                end: pos + render(items[from as int]).len() + items_tail(items, from + 1).len()
                    + 1,
            },
        ),
    decreases items, items.len() - from,
{
    let first = render(items[from as int]);
    let tail = items_tail(items, from + 1);
    let after = tail + seq![']'];
    assert(first + tail + seq![']'] =~= first + after);
    lemma_holds_split(t, pos, first, after);
    let e = pos + first.len();
    lemma_render_first(items[from as int]);
    assert(t[e + 0] == after[0]);
    if from + 1 >= items.len() {
        assert(after[0] == ']');
        lemma_read_value(t, pos, items[from as int]);
        assert(items.skip(from as int) =~= seq![items[from as int]]);
    } else {
        let next = render(items[from as int + 1]);
        let more = items_tail(items, from + 2);
        assert(tail == seq![','] + next + more);
        assert(after[0] == ',');
        lemma_read_value(t, pos, items[from as int]);
        assert(after =~= seq![','] + (next + more + seq![']']));
        lemma_holds_split(t, e, seq![','], next + more + seq![']']);
        lemma_read_items(t, e + 1, items, from + 1);
        assert(items.skip(from as int) =~= seq![items[from as int]] + items.skip(from as int + 1));
    }
}

proof fn lemma_read_members(t: Seq<char>, pos: int, members: Seq<MemberModel>, from: nat)
    requires
        from < members.len(),
        forall|i: int| 0 <= i < members.len() ==> fits((#[trigger] members[i]).value),
        holds_at(t, pos, render_member(members, from) + members_tail(members, from + 1) + seq!['}']),
    ensures
        read_members(t, pos) == Some(
            Read {
                value: members.skip(from as int),
                end: pos + render_member(members, from).len() + members_tail(
                    members,
                    from + 1,
                ).len() + 1,
            },
        ),
    decreases members, members.len() - from,
{
    let m = members[from as int];
    let name = quoted(m.name);
    let value = render(m.value);
    let tail = members_tail(members, from + 1);
    let after = tail + seq!['}'];
    assert(render_member(members, from) + tail + seq!['}'] =~= name + (seq![':'] + (value
        + after)));
    lemma_holds_split(t, pos, name, seq![':'] + (value + after));
    lemma_read_quoted(t, pos, m.name);
    let colon = pos + name.len();
    lemma_holds_split(t, colon, seq![':'], value + after);
    assert(seq![':'][0] == ':');
    assert(t[colon + 0] == seq![':'][0]);
    lemma_holds_split(t, colon + 1, value, after);
    let e = colon + 1 + value.len();
    lemma_render_first(m.value);
    assert(t[e + 0] == after[0]);
    assert(fits(m.value));
    if from + 1 >= members.len() {
        assert(after[0] == '}');
        lemma_read_value(t, colon + 1, m.value);
        assert(members.skip(from as int) =~= seq![m]);
    } else {
        let next = render_member(members, from + 1);
        let more = members_tail(members, from + 2);
        assert(tail =~= seq![','] + next + more);
        assert(after[0] == ',');
        lemma_read_value(t, colon + 1, m.value);
        assert(after =~= seq![','] + (next + more + seq!['}']));
        lemma_holds_split(t, e, seq![','], next + more + seq!['}']);
        lemma_read_members(t, e + 1, members, from + 1);
        assert(members.skip(from as int) =~= seq![m] + members.skip(from as int + 1));
    }
}

/// What is written is read back: a value of which every number fits 64
/// bits is the value that its text denotes.
pub proof fn lemma_parse_render(v: JsonModel)
    requires
        fits(v),
    ensures
        parse(render(v)) == Some(v),
{
    lemma_read_value(render(v), 0, v);
}


} // verus!
