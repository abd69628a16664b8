//! Text helpers: white space, character replacement, substring search and decimal numerals.

use vstd::prelude::*;

verus! {

/// Whether a character has the Unicode `White_Space` property.
pub uninterp spec fn white_space(c: char) -> bool;

/// `char::is_whitespace` tells whether a character has the Unicode `White_Space` property. Among
/// the ASCII characters these are the space and U+0009 to U+000D.
pub assume_specification[ char::is_whitespace ](c: char) -> (result: bool)
    ensures
        result == white_space(c),
        (c as u32) < 0x80 ==> result == (c == ' ' || 9 <= (c as u32) <= 13),
;

/// `String::push` appends one character.
pub assume_specification[ String::push ](s: &mut String, c: char)
    ensures
        final(s)@ == old(s)@.push(c),
;

/// A text that holds nothing but white space.
pub open spec fn blank(s: Seq<char>) -> bool {
    forall|i: int| 0 <= i < s.len() ==> white_space(#[trigger] s[i])
}

/// Whether a text holds nothing but white space.
pub fn is_blank(s: &str) -> (result: bool)
    ensures
        result == blank(s@),
{
    for c in it: s.chars()
        invariant
            it.seq() == s@,
            forall|i: int| 0 <= i < it.index() ==> white_space(#[trigger] s@[i]),
    {
        if !c.is_whitespace() {
            assert(!white_space(s@[it.index() as int]));
            return false;
        }
    }
    true
}

/// The characters of a text, one by one.
pub fn chars_of(s: &str) -> (result: Vec<char>)
    ensures
        result@ == s@,
{
    let mut result: Vec<char> = Vec::new();
    for c in it: s.chars()
        invariant
            it.seq() == s@,
            result@ == s@.take(it.index() as int),
    {
        result.push(c);
    }
    result
}

/// Whether two texts are the same.
pub fn same_text(a: &str, b: &str) -> (result: bool)
    ensures
        result == (a@ == b@),
{
    a.to_owned() == b.to_owned()
}

/// Whether a text comes before another one in the order of texts: at the first place where they
/// differ it has the smaller character, or it ends there.
pub open spec fn text_before(a: Seq<char>, b: Seq<char>) -> bool {
    exists|at: int| #[trigger] differs_at(a, b, at) && (at == a.len() || a[at] < b[at])
}

/// Whether two texts are the same up to a place where the second one goes on.
pub open spec fn differs_at(a: Seq<char>, b: Seq<char>, at: int) -> bool {
    0 <= at <= a.len() && at < b.len() && a.take(at) == b.take(at)
}

/// `s` with every character that occurs in `targets` replaced by `with`.
pub open spec fn replaced(s: Seq<char>, targets: Seq<char>, with: char) -> Seq<char> {
    s.map_values(|c: char| if targets.contains(c) { with } else { c })
}

fn has_char(s: &str, wanted: char) -> (result: bool)
    ensures
        result == s@.contains(wanted),
{
    for c in it: s.chars()
        invariant
            it.seq() == s@,
            forall|i: int| 0 <= i < it.index() ==> #[trigger] s@[i] != wanted,
    {
        if c == wanted {
            assert(s@[it.index() as int] == wanted);
            return true;
        }
    }
    false
}

/// Replaces every character of `s` that occurs in `targets` by `with`.
pub fn replace_chars(s: &str, targets: &str, with: char) -> (result: String)
    ensures
        result@ == replaced(s@, targets@, with),
{
    let mut result = String::new();
    for c in it: s.chars()
        invariant
            it.seq() == s@,
            result@ == replaced(s@.take(it.index() as int), targets@, with),
    {
        if has_char(targets, c) {
            result.push(with);
        } else {
            result.push(c);
        }
        proof {
            let k = it.index() as int;
            assert(s@.take(k + 1) =~= s@.take(k).push(c));
        }
    }
    assert(s@.take(s@.len() as int) =~= s@);
    result
}

/// Whether `needle` stands in `s` at position `at`.
pub open spec fn occurs_at(s: Seq<char>, needle: Seq<char>, at: int) -> bool {
    0 <= at && at + needle.len() <= s.len() && s.subrange(at, at + needle.len() as int) == needle
}

/// Whether `needle` stands somewhere in `s`.
pub open spec fn occurs(s: Seq<char>, needle: Seq<char>) -> bool {
    exists|at: int| occurs_at(s, needle, at)
}

fn matches_at(s: &Vec<char>, needle: &Vec<char>, at: usize) -> (result: bool)
    requires
        at + needle.len() <= s.len(),
    ensures
        result == occurs_at(s@, needle@, at as int),
{
    for j in 0..needle.len()
        invariant
            at + needle.len() <= s.len(),
            s@.subrange(at as int, at + j) == needle@.take(j as int),
    {
        if s[at + j] != needle[j] {
            assert(s@.subrange(at as int, at + needle.len())[j as int] != needle@[j as int]);
            return false;
        }
        assert(s@.subrange(at as int, at + j + 1) =~= s@.subrange(at as int, at + j).push(
            s@[at + j],
        ));
        assert(needle@.take(j + 1) =~= needle@.take(j as int).push(needle@[j as int]));
    }
    assert(needle@.take(needle.len() as int) =~= needle@);
    true
}

/// Whether `needle` stands somewhere in `s`.
pub fn contains_text(s: &str, needle: &str) -> (result: bool)
    ensures
        result == occurs(s@, needle@),
{
    let hay = chars_of(s);
    let wanted = chars_of(needle);
    if wanted.len() > hay.len() {
        return false;
    }
    let last: usize = hay.len() - wanted.len();
    for at in 0..last
        invariant
            hay@ == s@,
            wanted@ == needle@,
            last == hay.len() - wanted.len(),
            forall|k: int| 0 <= k < at ==> !occurs_at(s@, needle@, k),
    {
        if matches_at(&hay, &wanted, at) {
            return true;
        }
    }
    matches_at(&hay, &wanted, last)
}

/// The decimal digit for `d`.
pub open spec fn digit(d: int) -> char {
    ('0' as int + d) as char
}

/// The decimal numeral of a natural number.
pub open spec fn decimal_nat(n: nat) -> Seq<char>
    decreases n,
{
    if n < 10 {
        seq![digit(n as int)]
    } else {
        decimal_nat(n / 10).push(digit((n % 10) as int))
    }
}

/// The decimal numeral of an integer.
pub open spec fn decimal(n: int) -> Seq<char> {
    if n < 0 {
        seq!['-'] + decimal_nat((-n) as nat)
    } else {
        decimal_nat(n as nat)
    }
}

fn push_decimal(out: &mut String, n: u64)
    ensures
        final(out)@ == old(out)@ + decimal_nat(n as nat),
    decreases n,
{
    if n >= 10 {
        push_decimal(out, n / 10);
    }
    out.push((48u8 + (n % 10) as u8) as char);
    assert(final(out)@ =~= old(out)@ + decimal_nat(n as nat));
}

/// The decimal numeral of an unsigned number.
pub fn unsigned_text(n: u64) -> (result: String)
    ensures
        result@ == decimal(n as int),
{
    let mut result = String::new();
    push_decimal(&mut result, n);
    result
}

/// The decimal numeral of a signed number.
pub fn signed_text(n: i64) -> (result: String)
    ensures
        result@ == decimal(n as int),
{
    let mut result = String::new();
    if n >= 0 {
        push_decimal(&mut result, n as u64);
    } else {
        result.push('-');
        push_decimal(&mut result, (-(n + 1)) as u64 + 1);
        assert(result@ =~= decimal(n as int));
    }
    result
}

} // verus!
