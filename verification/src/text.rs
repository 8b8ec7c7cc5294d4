//! Characters and character sequences.
//!
//! A string is modelled by its sequence of characters. The functions here
//! classify characters and take strings apart; each is stated over such
//! sequences.

use vstd::prelude::*;
use vstd::string::*;

verus! {

/// `String::push` adds one character at the end of a string.
pub assume_specification[ String::push ](s: &mut String, c: char)
    ensures
        final(s)@ == old(s)@.push(c),
;

/// White space of the ASCII range: space, tab, line feed, form feed and
/// carriage return.
pub open spec fn ascii_space(c: char) -> bool {
    c == ' ' || c == '\t' || c == '\n' || c == '\x0C' || c == '\r'
}

/// The characters with the Unicode property `White_Space`.
pub open spec fn white_space(c: char) -> bool {
    ||| '\t' <= c <= '\r'
    ||| c == ' '
    ||| c == '\u{85}'
    ||| c == '\u{A0}'
    ||| c == '\u{1680}'
    ||| '\u{2000}' <= c <= '\u{200A}'
    ||| c == '\u{2028}'
    ||| c == '\u{2029}'
    ||| c == '\u{202F}'
    ||| c == '\u{205F}'
    ||| c == '\u{3000}'
}

/// The characters of the Unicode general category `Cc`.
pub open spec fn control(c: char) -> bool {
    c <= '\u{1F}' || '\u{7F}' <= c <= '\u{9F}'
}

/// Decides [`ascii_space`].
pub fn is_ascii_space(c: char) -> (found: bool)
    ensures
        found == ascii_space(c),
{
    c == ' ' || c == '\t' || c == '\n' || c == '\x0C' || c == '\r'
}

/// Decides [`white_space`].
pub fn is_white_space(c: char) -> (found: bool)
    ensures
        found == white_space(c),
{
    ('\t' <= c && c <= '\r') || c == ' ' || c == '\u{85}' || c == '\u{A0}' || c == '\u{1680}' || (
    '\u{2000}' <= c && c <= '\u{200A}') || c == '\u{2028}' || c == '\u{2029}' || c == '\u{202F}'
        || c == '\u{205F}' || c == '\u{3000}'
}

/// Decides [`control`].
pub fn is_control(c: char) -> (found: bool)
    ensures
        found == control(c),
{
    c <= '\u{1F}' || ('\u{7F}' <= c && c <= '\u{9F}')
}

/// White space is 25 characters: those with the codes 9 to 13, 32, 133, 160, and
/// some beyond.
pub proof fn law_white_space(c: char)
    ensures
        c as int <= 0xFF ==> (white_space(c) <==> 9 <= c as int <= 13 || c as int == 32 || c as int
            == 133 || c as int == 160),
        c as int > 0xFF ==> (white_space(c) <==> c as int == 0x1680 || 0x2000 <= c as int <= 0x200A
            || c as int == 0x2028 || c as int == 0x2029 || c as int == 0x202F || c as int == 0x205F
            || c as int == 0x3000),
        ascii_space(c) <==> c as int == 9 || c as int == 10 || c as int == 12 || c as int == 13
            || c as int == 32,
        control(c) <==> c as int <= 31 || 127 <= c as int <= 159,
{
}

/// The characters of a string.
pub fn chars_of(s: &str) -> (chars: Vec<char>)
    ensures
        chars@ == s@,
{
    let mut chars: Vec<char> = Vec::new();
    for c in it: s.chars()
        invariant
            chars@ == it.seq().take(it.index()),
    {
        chars.push(c);
        assert(it.seq().take(it.index() + 1) =~= it.seq().take(it.index()).push(c));
    }
    chars
}

/// The string of the characters from `from` up to `to`.
pub fn string_of(chars: &Vec<char>, from: usize, to: usize) -> (s: String)
    requires
        from <= to <= chars@.len(),
    ensures
        s@ == chars@.subrange(from as int, to as int),
{
    let mut s = String::new();
    let mut i: usize = from;
    while i < to
        invariant
            from <= i <= to <= chars@.len(),
            s@ == chars@.subrange(from as int, i as int),
        decreases to - i,
    {
        s.push(chars[i]);
        i = i + 1;
        assert(chars@.subrange(from as int, i as int) =~= chars@.subrange(
            from as int,
            i - 1,
        ).push(chars@[i - 1]));
    }
    s
}

/// The characters of a string, where there is one.
pub open spec fn opt_text(s: Option<String>) -> Option<Seq<char>> {
    match s {
        Some(s) => Some(s@),
        None => None,
    }
}

/// The characters of a string slice, where there is one.
pub open spec fn opt_str(s: Option<&str>) -> Option<Seq<char>> {
    match s {
        Some(s) => Some(s@),
        None => None,
    }
}

/// The characters of pairs of strings.
pub open spec fn pair_views(pairs: Seq<(String, String)>) -> Seq<(Seq<char>, Seq<char>)> {
    pairs.map_values(|pair: (String, String)| (pair.0@, pair.1@))
}

/// The characters of strings.
pub open spec fn text_views(texts: Seq<String>) -> Seq<Seq<char>> {
    texts.map_values(|text: String| text@)
}

/// A string, and each string of a list, is modelled by its characters, one by one.
pub proof fn law_views(
    texts: Seq<String>,
    pairs: Seq<(String, String)>,
    given: Option<String>,
    slice: Option<&str>,
    at: int,
)
    ensures
        text_views(texts).len() == texts.len(),
        0 <= at < texts.len() ==> text_views(texts)[at] == texts[at]@,
        pair_views(pairs).len() == pairs.len(),
        0 <= at < pairs.len() ==> pair_views(pairs)[at] == (pairs[at].0@, pairs[at].1@),
        given is Some <==> opt_text(given) is Some,
        given matches Some(text) ==> opt_text(given) == Some(text@),
        slice is Some <==> opt_str(slice) is Some,
        slice matches Some(text) ==> opt_str(slice) == Some(text@),
{
}

/// Whether two strings have the same characters.
pub fn same_text(a: &str, b: &str) -> (same: bool)
    ensures
        same == (a@ == b@),
{
    let left = chars_of(a);
    let right = chars_of(b);
    if left.len() != right.len() {
        return false;
    }
    let mut i: usize = 0;
    while i < left.len()
        invariant
            i <= left@.len() == right@.len(),
            left@ == a@,
            right@ == b@,
            forall|k: int| 0 <= k < i ==> left@[k] == right@[k],
        decreases left@.len() - i,
    {
        if left[i] != right[i] {
            return false;
        }
        i = i + 1;
    }
    assert(a@ =~= b@);
    true
}

/// A sequence without its leading white space.
pub open spec fn trim_start(s: Seq<char>) -> Seq<char>
    decreases s.len(),
{
    if s.len() > 0 && white_space(s[0]) {
        trim_start(s.drop_first())
    } else {
        s
    }
}

/// A sequence without its trailing white space.
pub open spec fn trim_end(s: Seq<char>) -> Seq<char>
    decreases s.len(),
{
    if s.len() > 0 && white_space(s.last()) {
        trim_end(s.drop_last())
    } else {
        s
    }
}

/// A sequence without the white space at either end.
pub open spec fn trimmed(s: Seq<char>) -> Seq<char> {
    trim_end(trim_start(s))
}

/// Nothing but white space is left out at the start.
proof fn lemma_trim_start(s: Seq<char>)
    ensures
        ({
            let start = s.len() - trim_start(s).len();
            &&& 0 <= start <= s.len()
            &&& trim_start(s) == s.skip(start)
            &&& forall|k: int| 0 <= k < start ==> white_space(#[trigger] s[k])
            &&& start < s.len() ==> !white_space(s[start])
        }),
    decreases s.len(),
{
    if s.len() > 0 && white_space(s[0]) {
        let rest = s.drop_first();
        lemma_trim_start(rest);
        let start = s.len() - trim_start(s).len();
        assert(rest.skip(start - 1) =~= s.skip(start));
        assert forall|k: int| 0 <= k < start implies white_space(#[trigger] s[k]) by {
            if k > 0 {
                assert(rest[k - 1] == s[k]);
            }
        }
        if start < s.len() {
            assert(rest[start - 1] == s[start]);
        }
    } else {
        assert(s.skip(0) =~= s);
    }
}

/// Nothing but white space is left out at the end.
proof fn lemma_trim_end(s: Seq<char>)
    ensures
        ({
            let end = trim_end(s).len() as int;
            &&& 0 <= end <= s.len()
            &&& trim_end(s) == s.take(end)
            &&& forall|k: int| end <= k < s.len() ==> white_space(#[trigger] s[k])
            &&& end > 0 ==> !white_space(s[end - 1])
        }),
    decreases s.len(),
{
    if s.len() > 0 && white_space(s.last()) {
        let rest = s.drop_last();
        lemma_trim_end(rest);
        let end = trim_end(s).len() as int;
        assert(rest.take(end) =~= s.take(end));
        assert forall|k: int| end <= k < s.len() implies white_space(#[trigger] s[k]) by {
            if k < rest.len() {
                assert(rest[k] == s[k]);
            }
        }
        if end > 0 {
            assert(rest[end - 1] == s[end - 1]);
        }
    } else {
        assert(s.take(s.len() as int) =~= s);
    }
}

/// A trimmed text is what stands between the first and the last character that
/// is not white space.
pub proof fn law_trimmed(s: Seq<char>)
    ensures
        exists|start: int, end: int| #[trigger] trims_to(s, start, end),
        trimmed(s).len() > 0 ==> !white_space(trimmed(s)[0]) && !white_space(trimmed(s).last()),
{
    lemma_trim_start(s);
    let rest = trim_start(s);
    let start = s.len() - rest.len();
    lemma_trim_end(rest);
    let end = start + trimmed(s).len();
    assert(trimmed(s) =~= s.subrange(start, end));
    assert forall|k: int| end <= k < s.len() implies white_space(#[trigger] s[k]) by {
        assert(rest[k - start] == s[k]);
    }
    if start < end {
        assert(rest[end - start - 1] == s[end - 1]);
    }
    assert(trims_to(s, start, end));
}

/// Whether the part of a text from `start` up to `end` is the trimmed text, with
/// nothing but white space around it and none at its ends.
pub open spec fn trims_to(s: Seq<char>, start: int, end: int) -> bool {
    &&& 0 <= start <= end <= s.len()
    &&& trimmed(s) == s.subrange(start, end)
    &&& forall|k: int| 0 <= k < start ==> white_space(#[trigger] s[k])
    &&& forall|k: int| end <= k < s.len() ==> white_space(#[trigger] s[k])
    &&& start < end ==> !white_space(s[start]) && !white_space(s[end - 1])
}

/// A text without white space at its ends is trimmed already.
pub proof fn law_trimmed_already(s: Seq<char>)
    requires
        s.len() > 0 ==> !white_space(s[0]) && !white_space(s.last()),
    ensures
        trimmed(s) == s,
{
}

/// Trimming twice is trimming once.
pub proof fn law_trim_idempotent(s: Seq<char>)
    ensures
        trimmed(trimmed(s)) == trimmed(s),
{
    law_trimmed(s);
    law_trimmed_already(trimmed(s));
}

/// White space before and behind a text is trimmed away, and nothing else is.
pub proof fn law_trimmed_between(before: Seq<char>, text: Seq<char>, after: Seq<char>)
    requires
        forall|i: int| 0 <= i < before.len() ==> white_space(#[trigger] before[i]),
        forall|i: int| 0 <= i < after.len() ==> white_space(#[trigger] after[i]),
        text.len() > 0 ==> !white_space(text[0]) && !white_space(text.last()),
    ensures
        trimmed(before + text + after) == text,
{
    let whole = before + text + after;
    law_trimmed(whole);
    let (start, end) = choose|start: int, end: int| #[trigger] trims_to(whole, start, end);
    let from = before.len() as int;
    let to = from + text.len();
    if text.len() > 0 {
        assert(whole[from] == text[0]);
        assert(whole[to - 1] == text.last());
        assert(start <= from);
        assert(end >= to);
        if start < from {
            assert(whole[start] == before[start]);
        }
        if end > to {
            assert(whole[end - 1] == after[end - 1 - to]);
        }
    } else if start < end {
        if start < from {
            assert(whole[start] == before[start]);
        } else {
            assert(whole[start] == after[start - to]);
        }
    }
    assert(whole.subrange(start, end) =~= text);
}

/// [`trimmed`], applied to the characters from `from` on.
pub fn trim_from(chars: &Vec<char>, from: usize) -> (s: String)
    requires
        from <= chars@.len(),
    ensures
        s@ == trimmed(chars@.skip(from as int)),
{
    let ghost all = chars@.skip(from as int);
    let mut start: usize = from;
    while start < chars.len() && is_white_space(chars[start])
        invariant
            from <= start <= chars@.len(),
            all == chars@.skip(from as int),
            trim_start(all) == trim_start(chars@.skip(start as int)),
        decreases chars@.len() - start,
    {
        assert(chars@.skip(start as int).drop_first() =~= chars@.skip(start + 1));
        start = start + 1;
    }
    let ghost rest = chars@.skip(start as int);
    assert(trim_start(all) == rest);
    let mut end: usize = chars.len();
    assert(rest =~= chars@.subrange(start as int, end as int));
    while end > start && is_white_space(chars[end - 1])
        invariant
            start <= end <= chars@.len(),
            trim_end(rest) == trim_end(chars@.subrange(start as int, end as int)),
        decreases end,
    {
        assert(chars@.subrange(start as int, end as int).drop_last() =~= chars@.subrange(
            start as int,
            end - 1,
        ));
        end = end - 1;
    }
    string_of(chars, start, end)
}

/// The string without the white space at either end.
pub fn trim(s: &str) -> (res: String)
    ensures
        res@ == trimmed(s@),
{
    let chars = chars_of(s);
    assert(chars@.skip(0) =~= s@);
    trim_from(&chars, 0)
}

/// A character with the ASCII letters `A` to `Z` mapped to `a` to `z`.
pub open spec fn ascii_lower(c: char) -> char {
    if 'A' <= c <= 'Z' {
        (c as u32 + 32) as char
    } else {
        c
    }
}

/// A sequence with every character mapped by [`ascii_lower`].
pub open spec fn ascii_lowered(s: Seq<char>) -> Seq<char> {
    s.map_values(|c: char| ascii_lower(c))
}

/// A character with the ASCII letters `a` to `z` mapped to `A` to `Z`.
pub open spec fn ascii_upper(c: char) -> char {
    if 'a' <= c <= 'z' {
        (c as u32 - 32) as char
    } else {
        c
    }
}

/// Lowering a text keeps its length, turns the letters `A` to `Z` into `a` to `z`, and
/// keeps every other character.
pub proof fn law_ascii_lowered(s: Seq<char>, at: int)
    requires
        0 <= at < s.len(),
    ensures
        ascii_lowered(s).len() == s.len(),
        65 <= s[at] as int <= 90 ==> ascii_lowered(s)[at] as int == s[at] as int + 32,
        !(65 <= s[at] as int <= 90) ==> ascii_lowered(s)[at] == s[at],
{
}

/// The string with its ASCII letters in lower case.
pub fn to_ascii_lower(s: &str) -> (res: String)
    ensures
        res@ == ascii_lowered(s@),
{
    let chars = chars_of(s);
    let mut res = String::new();
    let mut i: usize = 0;
    while i < chars.len()
        invariant
            i <= chars@.len(),
            res@ == ascii_lowered(chars@.take(i as int)),
        decreases chars@.len() - i,
    {
        let c = chars[i];
        let lower = if 'A' <= c && c <= 'Z' {
            (c as u8 + 32u8) as char
        } else {
            c
        };
        assert(lower == ascii_lower(c));
        res.push(lower);
        i = i + 1;
        assert(chars@.take(i as int) =~= chars@.take(i - 1).push(c));
        assert(ascii_lowered(chars@.take(i as int)) =~= ascii_lowered(chars@.take(i - 1)).push(
            lower,
        ));
    }
    assert(chars@.take(i as int) =~= s@);
    res
}

/// The digit with the given value, which is below ten.
pub open spec fn digit(value: nat) -> char
    recommends
        value < 10,
{
    (48 + value) as char
}

/// The digits of a number in the given base, without leading zeros.
pub open spec fn numeral(n: nat, base: nat) -> Seq<char>
    decreases n,
    when base >= 2
{
    if n < base {
        seq![digit(n)]
    } else {
        proof {
            vstd::arithmetic::div_mod::lemma_div_decreases(n as int, base as int);
        }
        numeral(n / base, base).push(digit(n % base))
    }
}

/// The number that digits stand for in a base.
pub open spec fn number(digits: Seq<char>, base: nat) -> int
    decreases digits.len(),
{
    if digits.len() == 0 {
        0
    } else {
        number(digits.drop_last(), base) * base + (digits.last() as int - '0' as int)
    }
}

/// The digits of a number stand for that number. They are digits of the base, and
/// only zero itself starts with a zero.
pub proof fn law_numeral(n: nat, base: nat)
    requires
        2 <= base <= 10,
    ensures
        number(numeral(n, base), base) == n,
        numeral(n, base).len() > 0,
        forall|i: int|
            0 <= i < numeral(n, base).len() ==> {
                let value = (#[trigger] numeral(n, base)[i]) as int - '0' as int;
                0 <= value && value < base
            },
        n > 0 ==> numeral(n, base)[0] != '0',
    decreases n,
{
    reveal_with_fuel(number, 2);
    let digits = numeral(n, base);
    if n < base {
        assert(digits.drop_last().len() == 0);
        assert(digits.last() == digit(n));
    } else {
        vstd::arithmetic::div_mod::lemma_div_decreases(n as int, base as int);
        vstd::arithmetic::div_mod::lemma_fundamental_div_mod(n as int, base as int);
        vstd::arithmetic::div_mod::lemma_mod_bound(n as int, base as int);
        vstd::arithmetic::div_mod::lemma_div_non_zero(n as int, base as int);
        law_numeral(n / base, base);
        let rest = numeral(n / base, base);
        assert(digits.drop_last() =~= rest);
        assert(digits.last() == digit(n % base));
        assert((n / base) * base == base * (n / base)) by (nonlinear_arith);
        assert forall|i: int| 0 <= i < digits.len() implies {
            let value = (#[trigger] digits[i]) as int - '0' as int;
            0 <= value && value < base
        } by {
            if i < rest.len() {
                assert(digits[i] == rest[i]);
            }
        }
        assert(digits[0] == rest[0]);
    }
}

/// Writes a number in a base of at most ten.
pub fn write_numeral(n: u32, base: u32) -> (res: String)
    requires
        2 <= base <= 10,
    ensures
        res@ == numeral(n as nat, base as nat),
    decreases n,
{
    if n < base {
        let mut res = String::new();
        res.push((48u8 + n as u8) as char);
        assert(res@ =~= seq![digit(n as nat)]);
        res
    } else {
        proof {
            vstd::arithmetic::div_mod::lemma_div_decreases(n as int, base as int);
        }
        let mut res = write_numeral(n / base, base);
        res.push((48u8 + (n % base) as u8) as char);
        res
    }
}

} // verus!
