//! Character-level helpers for the strings that travel through the gateway:
//! comparison, prefixes, concatenation, upper case.

use vstd::prelude::*;
use vstd::string::*;

verus! {

/// `String::push` appends one character to the end of the string.
pub assume_specification[ std::string::String::push ](s: &mut std::string::String, c: char)
    ensures
        final(s)@ == old(s)@.push(c),
;

/// The characters of `s`, in order.
pub fn chars_of(s: &str) -> (out: Vec<char>)
    ensures
        out@ == s@,
{
    let mut out: Vec<char> = Vec::new();
    for c in it: s.chars()
        invariant
            it.seq() == s@,
            out@ == s@.take(it.index() as int),
    {
        out.push(c);
    }
    out
}

/// The string made of the characters of `chars`, in order.
pub fn string_of(chars: &Vec<char>) -> (out: String)
    ensures
        out@ == chars@,
{
    let mut out = String::new();
    let mut i: usize = 0;
    while i < chars.len()
        invariant
            i <= chars.len(),
            out@ == chars@.take(i as int),
        decreases chars.len() - i,
    {
        out.push(chars[i]);
        i += 1;
    }
    out
}

/// Whether two character vectors hold the same text.
pub fn same_chars(a: &Vec<char>, b: &Vec<char>) -> (r: bool)
    ensures
        r == (a@ == b@),
{
    if a.len() != b.len() {
        return false;
    }
    let mut i: usize = 0;
    while i < a.len()
        invariant
            i <= a.len(),
            a.len() == b.len(),
            a@.take(i as int) == b@.take(i as int),
        decreases a.len() - i,
    {
        if a[i] != b[i] {
            return false;
        }
        assert(a@.take(i + 1) == a@.take(i as int).push(a@[i as int]));
        assert(b@.take(i + 1) == b@.take(i as int).push(b@[i as int]));
        i += 1;
    }
    assert(a@.take(a.len() as int) == a@);
    assert(b@.take(b.len() as int) == b@);
    true
}

/// Whether two strings hold the same text.
pub fn same_text(a: &str, b: &str) -> (r: bool)
    ensures
        r == (a@ == b@),
{
    let x = chars_of(a);
    let y = chars_of(b);
    same_chars(&x, &y)
}

/// `s` starts with `prefix`.
pub open spec fn has_prefix(s: Seq<char>, prefix: Seq<char>) -> bool {
    prefix.len() <= s.len() && s.take(prefix.len() as int) == prefix
}

/// Whether `s` starts with `prefix`.
pub fn starts_with_chars(s: &Vec<char>, prefix: &Vec<char>) -> (r: bool)
    ensures
        r == has_prefix(s@, prefix@),
{
    if prefix.len() > s.len() {
        return false;
    }
    let mut i: usize = 0;
    while i < prefix.len()
        invariant
            i <= prefix.len() <= s.len(),
            s@.take(i as int) == prefix@.take(i as int),
        decreases prefix.len() - i,
    {
        if s[i] != prefix[i] {
            assert(s@.take(prefix.len() as int)[i as int] != prefix@[i as int]);
            return false;
        }
        assert(s@.take(i + 1) == s@.take(i as int).push(s@[i as int]));
        assert(prefix@.take(i + 1) == prefix@.take(i as int).push(prefix@[i as int]));
        i += 1;
    }
    assert(prefix@.take(prefix.len() as int) == prefix@);
    true
}

/// The characters of `s` from position `from` to position `to`.
pub fn slice_chars(s: &Vec<char>, from: usize, to: usize) -> (out: Vec<char>)
    requires
        from <= to <= s.len(),
    ensures
        out@ == s@.subrange(from as int, to as int),
{
    let mut out: Vec<char> = Vec::new();
    let mut i: usize = from;
    while i < to
        invariant
            from <= i <= to <= s.len(),
            out@ == s@.subrange(from as int, i as int),
        decreases to - i,
    {
        out.push(s[i]);
        assert(s@.subrange(from as int, i + 1) == s@.subrange(from as int, i as int).push(
            s@[i as int],
        ));
        i += 1;
    }
    out
}

/// At most the first `n` characters of `s`: what a log line may show of a
/// credential.
pub open spec fn leading(s: Seq<char>, n: nat) -> Seq<char> {
    if s.len() <= n {
        s
    } else {
        s.take(n as int)
    }
}

/// At most the first `n` characters of `s`.
pub fn leading_chars(s: &str, n: usize) -> (out: String)
    ensures
        out@ == leading(s@, n as nat),
{
    let chars = chars_of(s);
    if chars.len() <= n {
        string_of(&chars)
    } else {
        let head = slice_chars(&chars, 0, n);
        string_of(&head)
    }
}

/// The concatenation of `a` and `b`.
pub fn join2(a: &str, b: &str) -> (out: String)
    ensures
        out@ == a@ + b@,
{
    let mut out = String::new();
    out.append(a);
    out.append(b);
    assert(out@ == Seq::<char>::empty() + a@ + b@);
    assert(Seq::<char>::empty() + a@ == a@);
    out
}

/// The concatenation of `a`, `b` and `c`.
pub fn join3(a: &str, b: &str, c: &str) -> (out: String)
    ensures
        out@ == a@ + b@ + c@,
{
    let mut out = String::new();
    out.append(a);
    out.append(b);
    out.append(c);
    assert(out@ =~= a@ + b@ + c@);
    out
}

/// The text of a string that may be there.
pub open spec fn optional_text(s: Option<&str>) -> Option<Seq<char>> {
    match s {
        Some(t) => Some(t@),
        None => None,
    }
}

/// The texts of a sequence of strings.
pub open spec fn texts(items: Seq<String>) -> Seq<Seq<char>> {
    Seq::new(items.len(), |i: int| items[i]@)
}

/// Whether every character of a text is an ASCII character.
pub open spec fn is_ascii_text(s: Seq<char>) -> bool {
    forall|i: int| 0 <= i < s.len() ==> (#[trigger] s[i]) <= '\u{7f}'
}

/// The upper-case form of an ASCII character: the capital letter of a
/// small letter, and every other character itself.
pub open spec fn ascii_upper_char(c: char) -> char {
    if 'a' <= c <= 'z' {
        (c as int - 'a' as int + 'A' as int) as char
    } else {
        c
    }
}

/// The upper-case form of an ASCII text, character by character.
pub open spec fn ascii_upper(s: Seq<char>) -> Seq<char> {
    Seq::new(s.len(), |i: int| ascii_upper_char(s[i]))
}

/// `str::to_uppercase`: the upper-case form of a text, by the Unicode
/// case mapping that the standard library carries.
pub uninterp spec fn uppercase(s: Seq<char>) -> Seq<char>;

/// The upper-case form of a text: that of ASCII text is written out here,
/// that of other text is the one that the standard library gives.
pub open spec fn upper_form(s: Seq<char>) -> Seq<char> {
    if is_ascii_text(s) {
        ascii_upper(s)
    } else {
        uppercase(s)
    }
}

/// `str::to_uppercase` returns the upper-case form of its argument; the
/// same text always gives the same result. Of ASCII text it turns the
/// small letters `a` to `z` into the capital letters `A` to `Z` and leaves
/// every other character as it is: these are the only ASCII characters
/// that have an upper-case mapping.
#[verifier::external_body]
pub(crate) fn to_upper(s: &str) -> (r: String)
    ensures
        r@ == uppercase(s@),
        is_ascii_text(s@) ==> r@ == ascii_upper(s@),
{
    s.to_uppercase()
}

/// The upper-case form of an ASCII text leaves its capital letters and
/// its other characters as they are, and is as long as the text.
pub proof fn lemma_ascii_upper(s: Seq<char>)
    ensures
        ascii_upper(s).len() == s.len(),
        is_ascii_text(s) ==> is_ascii_text(ascii_upper(s)),
        (forall|i: int| 0 <= i < s.len() ==> !('a' <= #[trigger] s[i] <= 'z')) ==> ascii_upper(s)
            == s,
        ascii_upper(ascii_upper(s)) == ascii_upper(s),
{
    assert(ascii_upper(ascii_upper(s)) =~= ascii_upper(s));
    if forall|i: int| 0 <= i < s.len() ==> !('a' <= #[trigger] s[i] <= 'z') {
        assert(ascii_upper(s) =~= s);
    }
    if is_ascii_text(s) {
        assert forall|i: int| 0 <= i < ascii_upper(s).len() implies (#[trigger] ascii_upper(
            s,
        )[i]) <= '\u{7f}' by {
            assert(s[i] <= '\u{7f}');
        }
    }
}

} // verus!
