//! Text handling over sequences of characters: trimming, splitting, decimal numbers.

use vstd::prelude::*;

verus! {

/// Appends a character to a string (`String::push`): the result is the old contents followed by
/// that character.
pub assume_specification[ String::push ](s: &mut String, c: char)
    ensures
        final(s)@ == old(s)@.push(c),
;

/// What `str::to_lowercase` makes of a text, under the Unicode case tables.
pub uninterp spec fn lowercase(s: Seq<char>) -> Seq<char>;

/// `str::to_lowercase`: the result is named, the Unicode tables are not spelled out.
#[verifier::external_body]
pub(crate) fn to_lowercase(s: &str) -> (r: String)
    ensures
        r@ == lowercase(s@),
{
    s.to_lowercase()
}

/// What `str::to_uppercase` makes of a text, under the Unicode case tables.
pub uninterp spec fn uppercase(s: Seq<char>) -> Seq<char>;

/// `str::to_uppercase`: the result is named, the Unicode tables are not spelled out.
#[verifier::external_body]
pub(crate) fn to_uppercase(s: &str) -> (r: String)
    ensures
        r@ == uppercase(s@),
{
    s.to_uppercase()
}

/// A character with the Unicode property `White_Space`.
pub open spec fn is_white(c: char) -> bool {
    ||| '\u{9}' <= c <= '\u{d}'
    ||| c == ' '
    ||| c == '\u{85}'
    ||| c == '\u{a0}'
    ||| c == '\u{1680}'
    ||| '\u{2000}' <= c <= '\u{200a}'
    ||| c == '\u{2028}'
    ||| c == '\u{2029}'
    ||| c == '\u{202f}'
    ||| c == '\u{205f}'
    ||| c == '\u{3000}'
}

/// `s` without its trailing white space.
pub open spec fn trim_end(s: Seq<char>) -> Seq<char>
    decreases s.len(),
{
    if s.len() > 0 && is_white(s.last()) {
        trim_end(s.drop_last())
    } else {
        s
    }
}

/// `s` without its leading white space.
pub open spec fn trim_start(s: Seq<char>) -> Seq<char>
    decreases s.len(),
{
    if s.len() > 0 && is_white(s[0]) {
        trim_start(s.drop_first())
    } else {
        s
    }
}

/// `s` without white space at either end.
pub open spec fn trim(s: Seq<char>) -> Seq<char> {
    trim_start(trim_end(s))
}

/// `p` stands at position `i` of `s`.
pub open spec fn occurs_at(s: Seq<char>, p: Seq<char>, i: int) -> bool {
    0 <= i && i + p.len() <= s.len() && s.subrange(i, i + p.len()) == p
}

/// `p` stands somewhere in `s`.
pub open spec fn has_text(s: Seq<char>, p: Seq<char>) -> bool {
    exists|i: int| #[trigger] occurs_at(s, p, i)
}

/// Position of the first `c` in `s`, or its length.
pub open spec fn find(s: Seq<char>, c: char) -> int
    decreases s.len(),
{
    if s.len() == 0 || s[0] == c {
        0
    } else {
        1 + find(s.drop_first(), c)
    }
}

/// The pieces of `s` between the separators `c`; always at least one.
pub open spec fn split(s: Seq<char>, c: char) -> Seq<Seq<char>>
    decreases s.len(),
    via split_terminates
{
    let i = find(s, c);
    if i < s.len() {
        seq![s.take(i)] + split(s.skip(i + 1), c)
    } else {
        seq![s]
    }
}

#[via_fn]
proof fn split_terminates(s: Seq<char>, c: char) {
    lemma_find(s, c);
}

/// `parts` with `sep` between consecutive ones.
pub open spec fn join(parts: Seq<Seq<char>>, sep: Seq<char>) -> Seq<char>
    decreases parts.len(),
{
    if parts.len() == 0 {
        seq![]
    } else if parts.len() == 1 {
        parts[0]
    } else {
        join(parts.drop_last(), sep) + sep + parts.last()
    }
}

/// The ASCII letter `c` in lower case, any other character unchanged.
pub open spec fn ascii_lower(c: char) -> char {
    if 'A' <= c <= 'Z' {
        ((c as u32) + 32) as char
    } else {
        c
    }
}

/// `s` with its ASCII letters in lower case.
pub open spec fn ascii_lowercase(s: Seq<char>) -> Seq<char> {
    s.map_values(|c: char| ascii_lower(c))
}

/// The ASCII letter `c` in upper case, any other character unchanged.
pub open spec fn ascii_upper(c: char) -> char {
    if 'a' <= c <= 'z' {
        ((c as u32) - 32) as char
    } else {
        c
    }
}

/// `s` with its ASCII letters in upper case.
pub open spec fn ascii_uppercase(s: Seq<char>) -> Seq<char> {
    s.map_values(|c: char| ascii_upper(c))
}

/// Decimal digit of `d`.
pub open spec fn digit(d: int) -> char {
    (('0' as u32) + d) as char
}

/// Decimal writing of `n`, without leading zeros.
pub open spec fn decimal(n: nat) -> Seq<char>
    decreases n,
{
    if n < 10 {
        seq![digit(n as int)]
    } else {
        decimal(n / 10).push(digit((n % 10) as int))
    }
}

/// Decimal writing of an integer.
pub open spec fn signed_decimal(n: int) -> Seq<char> {
    if n < 0 {
        seq!['-'] + decimal((-n) as nat)
    } else {
        decimal(n as nat)
    }
}

/// Every character is a decimal digit.
pub open spec fn all_digits(s: Seq<char>) -> bool {
    forall|i: int| 0 <= i < s.len() ==> '0' <= #[trigger] s[i] <= '9'
}

/// Number written by a sequence of digits.
pub open spec fn value(s: Seq<char>) -> nat
    decreases s.len(),
{
    if s.len() == 0 {
        0
    } else {
        (value(s.drop_last()) * 10 + (s.last() as int - '0' as int)) as nat
    }
}

/// The digits after an optional leading `+`.
pub open spec fn unsigned_digits(s: Seq<char>) -> Seq<char> {
    if s.len() > 0 && s[0] == '+' {
        s.skip(1)
    } else {
        s
    }
}

/// Unsigned decimal number, with an optional leading `+`, no larger than `max`.
pub open spec fn parse_unsigned(s: Seq<char>, max: nat) -> Option<nat> {
    let d = unsigned_digits(s);
    if d.len() > 0 && all_digits(d) && value(d) <= max {
        Some(value(d))
    } else {
        None
    }
}

/// The texts of a list of strings.
pub open spec fn texts(v: Seq<String>) -> Seq<Seq<char>> {
    v.map_values(|s: String| s@)
}

/// The contents of a list of character lists.
pub open spec fn pieces(v: Seq<Vec<char>>) -> Seq<Seq<char>> {
    v.map_values(|s: Vec<char>| s@)
}

pub proof fn lemma_find(s: Seq<char>, c: char)
    ensures
        0 <= find(s, c) <= s.len(),
        find(s, c) < s.len() ==> s[find(s, c)] == c,
        forall|i: int| 0 <= i < find(s, c) ==> s[i] != c,
    decreases s.len(),
{
    if s.len() > 0 && s[0] != c {
        let t = s.drop_first();
        lemma_find(t, c);
        assert forall|i: int| 0 <= i < find(s, c) implies s[i] != c by {
            if i > 0 {
                assert(t[i - 1] == s[i]);
            }
        }
    }
}

/// A position before which there is no `c`, and where one stands or the text ends, is the first.
pub proof fn lemma_find_is(s: Seq<char>, c: char, i: int)
    requires
        0 <= i <= s.len(),
        i < s.len() ==> s[i] == c,
        forall|j: int| 0 <= j < i ==> s[j] != c,
    ensures
        find(s, c) == i,
{
    lemma_find(s, c);
    let f = find(s, c);
    if f < i {
        assert(s[f] != c);
    }
}

/// The characters of a text.
pub(crate) fn chars_of(s: &str) -> (r: Vec<char>)
    ensures
        r@ == s@,
{
    let mut out: Vec<char> = Vec::new();
    for c in it: s.chars()
        invariant
            out@ == it.seq().take(it.index() as int),
            it.seq() == s@,
    {
        out.push(c);
    }
    out
}

/// The text made of these characters.
pub(crate) fn string_of(chars: &[char]) -> (r: String)
    ensures
        r@ == chars@,
{
    let mut out = String::new();
    let mut i: usize = 0;
    while i < chars.len()
        invariant
            i <= chars.len(),
            out@ == chars@.take(i as int),
        decreases chars.len() - i,
    {
        out.push(chars[i]);
        i += 1;
    }
    assert(chars@.take(chars@.len() as int) == chars@);
    out
}

/// A copy of part of a list of characters.
pub(crate) fn part(s: &[char], from: usize, to: usize) -> (r: Vec<char>)
    requires
        from <= to <= s.len(),
    ensures
        r@ == s@.subrange(from as int, to as int),
{
    let mut out: Vec<char> = Vec::new();
    let mut i: usize = from;
    while i < to
        invariant
            from <= i <= to <= s.len(),
            out@ == s@.subrange(from as int, i as int),
        decreases to - i,
    {
        out.push(s[i]);
        i += 1;
    }
    out
}

/// Appends a list of characters.
pub(crate) fn append(out: &mut Vec<char>, s: &[char])
    ensures
        final(out)@ == old(out)@ + s@,
{
    let mut i: usize = 0;
    while i < s.len()
        invariant
            i <= s.len(),
            out@ == old(out)@ + s@.take(i as int),
        decreases s.len() - i,
    {
        out.push(s[i]);
        i += 1;
    }
    assert(s@.take(s@.len() as int) == s@);
}

/// Equality of two lists of characters.
pub(crate) fn same(a: &[char], b: &[char]) -> (r: bool)
    ensures
        r == (a@ == b@),
{
    if a.len() != b.len() {
        return false;
    }
    let mut i: usize = 0;
    while i < a.len()
        invariant
            i <= a.len(),
            a.len() == b.len(),
            forall|j: int| 0 <= j < i ==> a@[j] == b@[j],
        decreases a.len() - i,
    {
        if a[i] != b[i] {
            return false;
        }
        i += 1;
    }
    assert(a@ == b@);
    true
}

/// Equality of a list of characters and a text.
pub(crate) fn is_text(a: &[char], b: &str) -> (r: bool)
    ensures
        r == (a@ == b@),
{
    let c = chars_of(b);
    same(a, c.as_slice())
}

/// Equality of two texts.
pub(crate) fn same_text(a: &str, b: &str) -> (r: bool)
    ensures
        r == (a@ == b@),
{
    let c = chars_of(a);
    is_text(c.as_slice(), b)
}

/// White space test of one character.
pub(crate) fn white(c: char) -> (r: bool)
    ensures
        r == is_white(c),
{
    ('\u{9}' <= c && c <= '\u{d}') || c == ' ' || c == '\u{85}' || c == '\u{a0}' || c == '\u{1680}'
        || ('\u{2000}' <= c && c <= '\u{200a}') || c == '\u{2028}' || c == '\u{2029}' || c
        == '\u{202f}' || c == '\u{205f}' || c == '\u{3000}'
}

/// `s` without its trailing white space.
pub(crate) fn trim_end_of(s: &[char]) -> (r: Vec<char>)
    ensures
        r@ == trim_end(s@),
{
    let mut n: usize = s.len();
    assert(s@.take(n as int) == s@);
    while n > 0 && white(s[n - 1])
        invariant
            n <= s.len(),
            trim_end(s@.take(n as int)) == trim_end(s@),
        decreases n,
    {
        assert(s@.take(n as int).drop_last() == s@.take(n - 1));
        n -= 1;
    }
    part(s, 0, n)
}

/// `s` without its leading white space.
pub(crate) fn trim_start_of(s: &[char]) -> (r: Vec<char>)
    ensures
        r@ == trim_start(s@),
{
    let mut n: usize = 0;
    assert(s@.skip(0) == s@);
    while n < s.len() && white(s[n])
        invariant
            n <= s.len(),
            trim_start(s@.skip(n as int)) == trim_start(s@),
        decreases s.len() - n,
    {
        assert(s@.skip(n as int).drop_first() == s@.skip(n + 1));
        n += 1;
    }
    part(s, n, s.len())
}

/// `s` without white space at either end.
pub(crate) fn trim_of(s: &[char]) -> (r: Vec<char>)
    ensures
        r@ == trim(s@),
{
    let e = trim_end_of(s);
    trim_start_of(e.as_slice())
}

/// Whether `p` stands at position `i` of `s`.
pub(crate) fn at(s: &[char], p: &[char], i: usize) -> (r: bool)
    ensures
        r == occurs_at(s@, p@, i as int),
{
    if p.len() > s.len() || i > s.len() - p.len() {
        return false;
    }
    let mut j: usize = 0;
    while j < p.len()
        invariant
            j <= p.len(),
            i + p.len() <= s.len(),
            forall|k: int| 0 <= k < j ==> s@[i + k] == p@[k],
        decreases p.len() - j,
    {
        if s[i + j] != p[j] {
            assert(s@.subrange(i as int, i + p.len())[j as int] != p@[j as int]);
            return false;
        }
        j += 1;
    }
    assert(s@.subrange(i as int, i + p.len()) == p@);
    true
}

/// Whether `s` begins with the text `p`.
pub(crate) fn starts(s: &[char], p: &str) -> (r: bool)
    ensures
        r == occurs_at(s@, p@, 0),
{
    let q = chars_of(p);
    at(s, q.as_slice(), 0)
}

/// Whether the text `p` stands somewhere in `s`.
pub(crate) fn contains(s: &[char], p: &[char]) -> (r: bool)
    ensures
        r == has_text(s@, p@),
{
    let mut i: usize = 0;
    while i < s.len()
        invariant
            i <= s.len(),
            forall|k: int| 0 <= k < i ==> !#[trigger] occurs_at(s@, p@, k),
        decreases s.len() - i,
    {
        if at(s, p, i) {
            return true;
        }
        i += 1;
    }
    at(s, p, i)
}

/// Position of the first `c` at or after `from`, or the length of `s`.
pub(crate) fn find_from(s: &[char], c: char, from: usize) -> (r: usize)
    requires
        from <= s.len(),
    ensures
        from <= r <= s.len(),
        r == from + find(s@.skip(from as int), c),
{
    let mut i: usize = from;
    while i < s.len() && s[i] != c
        invariant
            from <= i <= s.len(),
            forall|k: int| from <= k < i ==> s@[k] != c,
        decreases s.len() - i,
    {
        i += 1;
    }
    proof {
        lemma_find_is(s@.skip(from as int), c, i - from);
    }
    i
}

/// The pieces of `s` between the separators `c`.
pub(crate) fn split_of(s: &[char], c: char) -> (r: Vec<Vec<char>>)
    ensures
        pieces(r@) == split(s@, c),
{
    let mut out: Vec<Vec<char>> = Vec::new();
    let mut from: usize = 0;
    assert(s@.skip(0) == s@);
    assert(pieces(out@) + split(s@, c) == split(s@, c));
    loop
        invariant
            from <= s.len(),
            pieces(out@) + split(s@.skip(from as int), c) == split(s@, c),
        decreases s.len() - from,
    {
        let i: usize = find_from(s, c, from);
        let piece = part(s, from, i);
        let ghost rest = s@.skip(from as int);
        assert(piece@ == rest.take(i - from));
        let ghost before = pieces(out@);
        out.push(piece);
        assert(pieces(out@) == before.push(piece@));
        if i == s.len() {
            assert(piece@ == rest);
            assert(split(rest, c) == seq![rest]);
            assert(pieces(out@) == split(s@, c));
            return out;
        }
        assert(rest.skip(i - from + 1) == s@.skip(i + 1));
        assert(pieces(out@) + split(s@.skip(i + 1), c) == before + split(rest, c));
        from = i + 1;
    }
}

/// The ASCII letters of `s` in lower case.
pub(crate) fn ascii_lowercase_of(s: &[char]) -> (r: Vec<char>)
    ensures
        r@ == ascii_lowercase(s@),
{
    let mut out: Vec<char> = Vec::new();
    let mut i: usize = 0;
    while i < s.len()
        invariant
            i <= s.len(),
            out@ == ascii_lowercase(s@).take(i as int),
        decreases s.len() - i,
    {
        out.push(lower_char(s[i]));
        i += 1;
    }
    assert(ascii_lowercase(s@).take(s@.len() as int) == ascii_lowercase(s@));
    out
}

/// The ASCII letters of `s` in upper case.
pub(crate) fn ascii_uppercase_of(s: &[char]) -> (r: Vec<char>)
    ensures
        r@ == ascii_uppercase(s@),
{
    let mut out: Vec<char> = Vec::new();
    let mut i: usize = 0;
    while i < s.len()
        invariant
            i <= s.len(),
            out@ == ascii_uppercase(s@).take(i as int),
        decreases s.len() - i,
    {
        let c = s[i];
        out.push(
            if 'a' <= c && c <= 'z' {
                ((c as u8) - 32) as char
            } else {
                c
            },
        );
        i += 1;
    }
    assert(ascii_uppercase(s@).take(s@.len() as int) == ascii_uppercase(s@));
    out
}

fn lower_char(c: char) -> (r: char)
    ensures
        r == ascii_lower(c),
{
    if 'A' <= c && c <= 'Z' {
        ((c as u8) + 32) as char
    } else {
        c
    }
}

/// Decimal writing of `n`.
pub(crate) fn decimal_of(n: u64) -> (r: Vec<char>)
    ensures
        r@ == decimal(n as nat),
    decreases n,
{
    let d: char = (('0' as u8) + (n % 10) as u8) as char;
    if n < 10 {
        let mut out: Vec<char> = Vec::new();
        out.push(d);
        out
    } else {
        let mut out = decimal_of(n / 10);
        out.push(d);
        out
    }
}

/// Unsigned decimal number no larger than `max`.
pub(crate) fn parse_of(s: &[char], max: u64) -> (r: Option<u64>)
    ensures
        (match r {
            Some(v) => parse_unsigned(s@, max as nat) == Some(v as nat),
            None => parse_unsigned(s@, max as nat) is None,
        }),
{
    let from: usize = if s.len() > 0 && s[0] == '+' {
        1
    } else {
        0
    };
    let ghost d = unsigned_digits(s@);
    assert(d == s@.skip(from as int));
    if from == s.len() {
        return None;
    }
    let mut v: u64 = 0;
    let mut i: usize = from;
    while i < s.len()
        invariant
            from <= i <= s.len(),
            d == unsigned_digits(s@),
            d == s@.skip(from as int),
            all_digits(d.take(i - from)),
            v == value(d.take(i - from)),
            v <= max,
        decreases s.len() - i,
    {
        let c = s[i];
        if !('0' <= c && c <= '9') {
            assert(d[i - from] == c);
            return None;
        }
        let x: u64 = ((c as u8) - ('0' as u8)) as u64;
        assert(d.take(i - from + 1).drop_last() == d.take(i - from));
        assert(d.take(i - from + 1).last() == c);
        if v > max / 10 || x > max - v * 10 {
            proof {
                lemma_value_grows(d, i - from + 1);
            }
            return None;
        }
        v = v * 10 + x;
        i += 1;
    }
    assert(d.take(d.len() as int) == d);
    Some(v)
}

/// A longer number is no smaller.
proof fn lemma_value_grows(s: Seq<char>, n: int)
    requires
        0 <= n <= s.len(),
    ensures
        all_digits(s) ==> value(s) >= value(s.take(n)),
    decreases s.len() - n,
{
    if n == s.len() {
        assert(s.take(n) == s);
    } else {
        lemma_value_grows(s, n + 1);
        assert(s.take(n + 1).drop_last() == s.take(n));
        if all_digits(s) {
            assert(s.take(n + 1).last() == s[n]);
        }
    }
}

/// Reading the decimal writing of a number gives that number back.
pub proof fn decimal_is_read_back(n: nat, max: nat)
    requires
        n <= max,
    ensures
        parse_unsigned(decimal(n), max) == Some(n),
        all_digits(decimal(n)),
        decimal(n).len() > 0,
{
    lemma_decimal(n);
    assert(decimal(n)[0] != '+');
}

proof fn lemma_decimal(n: nat)
    ensures
        all_digits(decimal(n)),
        value(decimal(n)) == n,
        decimal(n).len() > 0,
    decreases n,
{
    let last = (n % 10) as int;
    if n < 10 {
        assert(decimal(n).drop_last() == Seq::<char>::empty());
        assert(value(Seq::<char>::empty()) == 0);
    } else {
        lemma_decimal(n / 10);
        assert(decimal(n).drop_last() == decimal(n / 10));
    }
}

/// Appends the decimal writing of `n`.
pub(crate) fn push_decimal(out: &mut String, n: u64)
    ensures
        final(out)@ == old(out)@ + decimal(n as nat),
{
    let d = decimal_of(n);
    let t = string_of(d.as_slice());
    out.append(t.as_str());
}

/// Appends the decimal writing of an integer.
pub(crate) fn push_signed(out: &mut String, n: i64)
    ensures
        final(out)@ == old(out)@ + signed_decimal(n as int),
{
    if n < 0 {
        out.push('-');
        let m: u64 = (-(n as i128)) as u64;
        push_decimal(out, m);
        assert(out@ =~= old(out)@ + signed_decimal(n as int));
    } else {
        push_decimal(out, n as u64);
    }
}

/// A new string with the text of a literal.
pub(crate) fn text(s: &str) -> (r: String)
    ensures
        r@ == s@,
{
    s.to_owned()
}

/// A copy of a list of strings.
pub(crate) fn copy_texts(v: &Vec<String>) -> (r: Vec<String>)
    ensures
        r@ == v@,
{
    let mut out: Vec<String> = Vec::new();
    let mut i: usize = 0;
    while i < v.len()
        invariant
            i <= v.len(),
            out@ == v@.take(i as int),
        decreases v.len() - i,
    {
        out.push(v[i].clone());
        i += 1;
    }
    assert(v@.take(v@.len() as int) == v@);
    out
}

/// A character is `low` in lower case where it is that letter, in one case or the other, and only
/// there.
pub proof fn lemma_ascii_lower_is(c: char, low: char, up: char)
    requires
        'a' <= low <= 'z',
        up as u32 + 32 == low as u32,
    ensures
        ascii_lower(c) == low <==> c == low || c == up,
{
    if 'A' <= c <= 'Z' {
        assert(ascii_lower(c) as u32 == c as u32 + 32);
        if ascii_lower(c) == low {
            assert(c as u32 == up as u32);
        }
    }
}

/// The letters `A` to `Z` change into `a` to `z` and back, 32 places further or before; no other
/// character changes, and no place of a text moves.
pub proof fn only_ascii_letters_change_case(s: Seq<char>, i: int)
    requires
        0 <= i < s.len(),
    ensures
        ascii_lowercase(s).len() == s.len(),
        ascii_uppercase(s).len() == s.len(),
        65 <= s[i] as u32 <= 90 ==> ascii_lowercase(s)[i] as u32 == s[i] as u32 + 32,
        97 <= s[i] as u32 <= 122 ==> ascii_uppercase(s)[i] as u32 == s[i] as u32 - 32,
        !(65 <= s[i] as u32 <= 90) ==> ascii_lowercase(s)[i] == s[i],
        !(97 <= s[i] as u32 <= 122) ==> ascii_uppercase(s)[i] == s[i],
{
}

/// Trimming takes white space off both ends, all of it, and nothing else: what is left is a part
/// of the text that neither begins nor ends with white space, and what went was nothing but.
pub proof fn trimming_takes_the_white_ends(s: Seq<char>) -> (cut: (int, int))
    ensures
        0 <= cut.0 <= cut.1 <= s.len(),
        trim(s) == s.subrange(cut.0, cut.1),
        forall|i: int| 0 <= i < cut.0 ==> is_white(#[trigger] s[i]),
        forall|i: int| cut.1 <= i < s.len() ==> is_white(#[trigger] s[i]),
        cut.0 < cut.1 ==> !is_white(s[cut.0]) && !is_white(s[cut.1 - 1]),
{
    let e = lemma_trim_end(s);
    let t = s.take(e);
    let b = lemma_trim_start(t);
    assert(trim(s) =~= s.subrange(b, e));
    assert forall|i: int| 0 <= i < b implies is_white(#[trigger] s[i]) by {
        assert(t[i] == s[i]);
    }
    if b < e {
        assert(t[b] == s[b]);
    }
    (b, e)
}

proof fn lemma_trim_end(s: Seq<char>) -> (e: int)
    ensures
        0 <= e <= s.len(),
        trim_end(s) == s.take(e),
        forall|i: int| e <= i < s.len() ==> is_white(#[trigger] s[i]),
        e > 0 ==> !is_white(s[e - 1]),
    decreases s.len(),
{
    if s.len() > 0 && is_white(s.last()) {
        let u = s.drop_last();
        let e = lemma_trim_end(u);
        assert(u.take(e) =~= s.take(e));
        assert forall|i: int| e <= i < s.len() implies is_white(#[trigger] s[i]) by {
            if i < u.len() {
                assert(u[i] == s[i]);
            }
        }
        e
    } else {
        assert(s.take(s.len() as int) =~= s);
        s.len() as int
    }
}

proof fn lemma_trim_start(s: Seq<char>) -> (b: int)
    ensures
        0 <= b <= s.len(),
        trim_start(s) == s.skip(b),
        forall|i: int| 0 <= i < b ==> is_white(#[trigger] s[i]),
        b < s.len() ==> !is_white(s[b]),
    decreases s.len(),
{
    if s.len() > 0 && is_white(s[0]) {
        let u = s.drop_first();
        let b = lemma_trim_start(u);
        assert(u.skip(b) =~= s.skip(b + 1));
        assert forall|i: int| 0 <= i < b + 1 implies is_white(#[trigger] s[i]) by {
            if i > 0 {
                assert(u[i - 1] == s[i]);
            }
        }
        if b < u.len() {
            assert(u[b] == s[b + 1]);
        }
        b + 1
    } else {
        assert(s.skip(0) =~= s);
        0
    }
}

/// White space is what Unicode lists as such, by its numbers: 9 to 13, 32, 133, 160, 5760, 8192
/// to 8202, 8232, 8233, 8239, 8287 and 12288.
pub proof fn white_space_is_as_listed(c: char)
    ensures
        ({
            let n = c as u32;
            is_white(c) <==> 9 <= n <= 13 || n == 32 || n == 133 || n == 160 || n == 5760 || 8192
                <= n <= 8202 || n == 8232 || n == 8233 || n == 8239 || n == 8287 || n == 12288
        }),
{
}

/// A text is found in another one where the characters before it, itself and those after it make
/// the other up.
pub proof fn texts_are_found_anywhere(before: Seq<char>, p: Seq<char>, after: Seq<char>)
    ensures
        has_text(before + p + after, p),
        occurs_at(before + p + after, p, before.len() as int),
{
    assert((before + p + after).subrange(
        before.len() as int,
        (before.len() + p.len()) as int,
    ) =~= p);
    assert(occurs_at(before + p + after, p, before.len() as int));
}

/// And where one is found, the other is made up like that.
pub proof fn found_texts_are_there(s: Seq<char>, p: Seq<char>) -> (i: int)
    requires
        has_text(s, p),
    ensures
        0 <= i <= s.len() - p.len(),
        s == s.take(i) + p + s.skip(i + p.len()),
{
    let i = choose|i: int| #[trigger] occurs_at(s, p, i);
    assert(s =~= s.take(i) + p + s.skip(i + p.len()));
    i
}

/// Splitting loses nothing: the pieces with the separator between them make the text up again,
/// and none of them holds it.
pub proof fn splitting_loses_nothing(s: Seq<char>, c: char)
    ensures
        split(s, c).len() >= 1,
        join(split(s, c), seq![c]) == s,
        forall|i: int| 0 <= i < split(s, c).len() ==> !(#[trigger] split(s, c)[i]).contains(c),
    decreases s.len(),
{
    let i = find(s, c);
    lemma_find(s, c);
    if i < s.len() {
        let rest = s.skip(i + 1);
        splitting_loses_nothing(rest, c);
        let tail = split(rest, c);
        let all = seq![s.take(i)] + tail;
        lemma_join_head(s.take(i), tail, seq![c]);
        assert(s =~= s.take(i) + seq![c] + rest);
        assert(!s.take(i).contains(c));
        assert forall|k: int| 0 <= k < all.len() implies !(#[trigger] all[k]).contains(c) by {
            if k > 0 {
                assert(all[k] == tail[k - 1]);
            }
        }
    } else {
        assert(!s.contains(c));
    }
}

proof fn lemma_join_head(head: Seq<char>, tail: Seq<Seq<char>>, sep: Seq<char>)
    requires
        tail.len() >= 1,
    ensures
        join(seq![head] + tail, sep) == head + sep + join(tail, sep),
    decreases tail.len(),
{
    let all = seq![head] + tail;
    assert(all.last() == tail.last());
    if tail.len() == 1 {
        assert(all.drop_last() =~= seq![head]);
        assert(join(seq![head], sep) == head);
        assert(join(tail, sep) == tail[0]);
    } else {
        lemma_join_head(head, tail.drop_last(), sep);
        assert(all.drop_last() =~= seq![head] + tail.drop_last());
        assert(join(all, sep) =~= head + sep + join(tail, sep));
    }
}

/// A number is written with its own digits: the last one is its remainder by ten, the others write
/// the rest, and a zero comes first only in zero itself.
pub proof fn numbers_are_written_in_decimal(n: nat)
    ensures
        decimal(n).last() as int == '0' as int + n % 10,
        n >= 10 ==> decimal(n).drop_last() == decimal(n / 10),
        n < 10 ==> decimal(n).len() == 1,
        n > 0 ==> decimal(n)[0] != '0',
        signed_decimal(n as int) == decimal(n),
        n > 0 ==> signed_decimal(-(n as int)) == seq!['-'] + decimal(n),
    decreases n,
{
    if n >= 10 {
        numbers_are_written_in_decimal(n / 10);
        lemma_decimal(n / 10);
        assert(decimal(n).drop_last() =~= decimal(n / 10));
        assert(decimal(n)[0] == decimal(n / 10)[0]);
    }
}

/// A number is read from digits alone, with one `+` before them at most; anything else, or a
/// number that is too large, is none.
pub proof fn only_numbers_are_read(s: Seq<char>, max: nat, i: int)
    ensures
        s.len() == 0 ==> parse_unsigned(s, max) is None,
        0 <= i < s.len() && !('0' <= s[i] <= '9') && !(i == 0 && s[0] == '+') ==> parse_unsigned(
            s,
            max,
        ) is None,
        parse_unsigned(s, max) is Some ==> parse_unsigned(s, max)->0 <= max,
        s.len() > 0 && s[0] != '+' ==> parse_unsigned(seq!['+'] + s, max) == parse_unsigned(s, max),
        s.len() == 1 && '0' <= s[0] <= '9' && max >= 9 ==> parse_unsigned(s, max) == Some(
            (s[0] as int - '0' as int) as nat,
        ),
{
    let d = unsigned_digits(s);
    if 0 <= i < s.len() && !('0' <= s[i] <= '9') && !(i == 0 && s[0] == '+') && all_digits(d) {
        if s[0] == '+' {
            assert(d[i - 1] == s[i]);
        } else {
            assert(d[i] == s[i]);
        }
    }
    if s.len() > 0 && s[0] != '+' {
        assert((seq!['+'] + s).skip(1) =~= s);
    }
    if s.len() == 1 && '0' <= s[0] <= '9' {
        assert(s.drop_last() =~= Seq::<char>::empty());
        assert(value(s.drop_last()) == 0);
        assert(d == s);
    }
}

/// A further digit makes a number ten times as large, and itself more.
pub proof fn digits_count_by_tens(s: Seq<char>, c: char)
    requires
        all_digits(s),
        '0' <= c <= '9',
    ensures
        value(s.push(c)) == value(s) * 10 + (c as int - '0' as int),
        all_digits(s.push(c)),
        value(Seq::empty()) == 0,
{
    assert(s.push(c).drop_last() =~= s);
}

/// A text between white space, which neither begins nor ends with it, is what trimming leaves.
pub proof fn lemma_trim_is(before: Seq<char>, inner: Seq<char>, after: Seq<char>)
    requires
        inner.len() > 0,
        !is_white(inner[0]),
        !is_white(inner.last()),
        forall|i: int| 0 <= i < before.len() ==> is_white(#[trigger] before[i]),
        forall|i: int| 0 <= i < after.len() ==> is_white(#[trigger] after[i]),
    ensures
        trim(before + inner + after) == inner,
{
    let s = before + inner + after;
    let cut = trimming_takes_the_white_ends(s);
    let b = before.len() as int;
    let e = b + inner.len();
    assert(s[b] == inner[0]);
    assert(s[e - 1] == inner.last());
    assert(cut.0 <= b);
    assert(cut.1 >= e);
    if cut.0 < b {
        assert(s[cut.0] == before[cut.0]);
    }
    if cut.1 > e {
        assert(s[cut.1 - 1] == after[cut.1 - 1 - e]);
    }
    assert(s.subrange(b, e) =~= inner);
}

} // verus!
