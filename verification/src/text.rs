//! Labels on several lines.

use crate::strings;
use vstd::prelude::*;

verus! {

/// Position of the first white space, or the length.
pub open spec fn word_len(s: Seq<char>) -> int
    decreases s.len(),
{
    if s.len() == 0 || strings::is_white(s[0]) {
        0
    } else {
        1 + word_len(s.drop_first())
    }
}

/// The words of a text: what stands between white space.
pub open spec fn words(s: Seq<char>) -> Seq<Seq<char>>
    decreases s.len(),
    via words_terminates
{
    let t = strings::trim_start(s);
    if t.len() == 0 {
        seq![]
    } else {
        seq![t.take(word_len(t))] + words(t.skip(word_len(t)))
    }
}

#[via_fn]
proof fn words_terminates(s: Seq<char>) {
    lemma_trim_start(s);
    lemma_word_len(strings::trim_start(s));
}

proof fn lemma_trim_start(s: Seq<char>)
    ensures
        strings::trim_start(s).len() <= s.len(),
        strings::trim_start(s).len() > 0 ==> !strings::is_white(strings::trim_start(s)[0]),
    decreases s.len(),
{
    if s.len() > 0 && strings::is_white(s[0]) {
        lemma_trim_start(s.drop_first());
    }
}

proof fn lemma_word_len(s: Seq<char>)
    ensures
        0 <= word_len(s) <= s.len(),
        s.len() > 0 && !strings::is_white(s[0]) ==> word_len(s) > 0,
    decreases s.len(),
{
    if s.len() > 0 {
        lemma_word_len(s.drop_first());
    }
}

/// Bytes of a character in UTF-8.
pub open spec fn char_bytes(c: char) -> nat {
    if (c as u32) < 0x80 {
        1
    } else if (c as u32) < 0x800 {
        2
    } else if (c as u32) < 0x1_0000 {
        3
    } else {
        4
    }
}

/// Bytes of a text in UTF-8.
pub open spec fn byte_len(s: Seq<char>) -> nat
    decreases s.len(),
{
    if s.len() == 0 {
        0
    } else {
        byte_len(s.drop_last()) + char_bytes(s.last())
    }
}

/// The words with one space between them.
pub open spec fn line(list: Seq<Seq<char>>) -> Seq<char> {
    strings::join(list, seq![' '])
}

/// Difference of length of the two lines that a split after `k` words gives.
pub open spec fn imbalance(list: Seq<Seq<char>>, k: int) -> int {
    let a = byte_len(line(list.take(k)));
    let b = byte_len(line(list.skip(k)));
    if a < b {
        b - a
    } else {
        a - b
    }
}

/// The first of the splits that balance the two lines best.
pub open spec fn best_split(list: Seq<Seq<char>>, k: int) -> bool {
    &&& 1 <= k < list.len()
    &&& forall|j: int| 1 <= j < list.len() ==> imbalance(list, k) <= #[trigger] imbalance(list, j)
    &&& forall|j: int| 1 <= j < k ==> imbalance(list, k) < #[trigger] imbalance(list, j)
}

/// The lines of a label: itself where it is one word or short, else its words on two lines.
pub open spec fn is_wrapped(label: Seq<char>, lines: Seq<Seq<char>>) -> bool {
    let list = words(label);
    if list.len() <= 1 || byte_len(label) <= 8 {
        lines == seq![label]
    } else {
        exists|k: int| #[trigger]
            best_split(list, k) && lines == seq![line(list.take(k)), line(list.skip(k))]
    }
}

fn bytes_of(s: &[char]) -> (r: u128)
    ensures
        r == byte_len(s@),
{
    let mut n: u128 = 0;
    let mut i: usize = 0;
    while i < s.len()
        invariant
            i <= s@.len(),
            n == byte_len(s@.take(i as int)),
            n <= 4 * i,
        decreases s.len() - i,
    {
        assert(s@.take(i + 1).drop_last() == s@.take(i as int));
        let c: u32 = s[i] as u32;
        let more: u128 = if c < 0x80 {
            1
        } else if c < 0x800 {
            2
        } else if c < 0x1_0000 {
            3
        } else {
            4
        };
        n = n + more;
        i += 1;
    }
    assert(s@.take(s@.len() as int) == s@);
    n
}

fn words_of(s: &[char]) -> (r: Vec<Vec<char>>)
    ensures
        strings::pieces(r@) == words(s@),
{
    let mut out: Vec<Vec<char>> = Vec::new();
    let mut i: usize = 0;
    assert(s@.skip(0) == s@);
    assert(strings::pieces(out@) + words(s@) == words(s@));
    loop
        invariant
            i <= s@.len(),
            strings::pieces(out@) + words(s@.skip(i as int)) == words(s@),
        ensures
            strings::pieces(out@) == words(s@),
        decreases s.len() - i,
    {
        let ghost rest = s@.skip(i as int);
        let mut from: usize = i;
        while from < s.len() && strings::white(s[from])
            invariant
                i <= from <= s@.len(),
                rest == s@.skip(i as int),
                strings::trim_start(s@.skip(from as int)) == strings::trim_start(rest),
            decreases s.len() - from,
        {
            assert(s@.skip(from as int).drop_first() == s@.skip(from + 1));
            assert(s@.skip(from as int)[0] == s@[from as int]);
            from += 1;
        }
        let ghost t = s@.skip(from as int);
        assert(from < s@.len() ==> t[0] == s@[from as int]);
        assert(strings::trim_start(rest) == t);
        if from == s.len() {
            assert(words(rest) == Seq::<Seq<char>>::empty());
            assert(strings::pieces(out@) + words(rest) == strings::pieces(out@));
            break;
        }
        let mut to: usize = from;
        assert(t.skip(0) == t);
        while to < s.len() && !strings::white(s[to])
            invariant
                from <= to <= s@.len(),
                t == s@.skip(from as int),
                word_len(t) == to - from + word_len(t.skip(to - from)),
            decreases s.len() - to,
        {
            assert(t.skip(to - from)[0] == s@[to as int]);
            assert(t.skip(to - from).drop_first() == t.skip(to + 1 - from));
            to += 1;
        }
        assert(to < s@.len() ==> t.skip(to - from)[0] == s@[to as int]);
        assert(word_len(t) == to - from);
        proof {
            lemma_word_len(t);
            assert(t.take(to - from) == s@.subrange(from as int, to as int));
            assert(t.skip(to - from) == s@.skip(to as int));
        }
        let ghost before = strings::pieces(out@);
        out.push(strings::part(s, from, to));
        proof {
            assert(strings::pieces(out@) == before.push(t.take(to - from)));
            assert(words(rest) == seq![t.take(to - from)] + words(s@.skip(to as int)));
            assert(strings::pieces(out@) + words(s@.skip(to as int)) == before + words(rest));
        }
        i = to;
    }
    out
}

fn line_of(list: &Vec<Vec<char>>, from: usize, to: usize) -> (r: Vec<char>)
    requires
        from <= to <= list@.len(),
    ensures
        r@ == line(strings::pieces(list@).subrange(from as int, to as int)),
{
    let ghost all = strings::pieces(list@);
    let mut out: Vec<char> = Vec::new();
    let mut i: usize = from;
    assert(all.subrange(from as int, from as int) == Seq::<Seq<char>>::empty());
    while i < to
        invariant
            from <= i <= to <= list@.len(),
            all == strings::pieces(list@),
            out@ == line(all.subrange(from as int, i as int)),
        decreases to - i,
    {
        proof {
            let next = all.subrange(from as int, i + 1);
            assert(next.drop_last() == all.subrange(from as int, i as int));
            assert(next.last() == list@[i as int]@);
            if i == from {
                assert(next[0] == list@[i as int]@);
            }
        }
        if i > from {
            out.push(' ');
            assert(out@ == line(all.subrange(from as int, i as int)) + seq![' ']);
        }
        strings::append(&mut out, list[i].as_slice());
        assert(out@ =~= line(all.subrange(from as int, i + 1)));
        i += 1;
    }
    out
}

/// Cuts a long label into two lines of about the same length.
pub fn wrap_label(label: &str) -> (r: Vec<String>)
    ensures
        is_wrapped(label@, strings::texts(r@)),
{
    let s = strings::chars_of(label);
    let list = words_of(s.as_slice());
    let ghost all = strings::pieces(list@);
    let mut out: Vec<String> = Vec::new();
    if list.len() <= 1 || bytes_of(s.as_slice()) <= 8 {
        out.push(strings::text(label));
        assert(strings::texts(out@) =~= seq![label@]);
        return out;
    }
    let mut best: usize = 1;
    let mut least: u128 = 0;
    let mut k: usize = 1;
    while k < list.len()
        invariant
            1 <= k <= list@.len(),
            list@.len() > 1,
            all == strings::pieces(list@),
            k > 1 ==> 1 <= best < k && least == imbalance(all, best as int),
            forall|j: int| 1 <= j < k ==> imbalance(all, best as int) <= #[trigger] imbalance(all, j),
            forall|j: int|
                1 <= j < best && k > 1 ==> imbalance(all, best as int) < #[trigger] imbalance(
                    all,
                    j,
                ),
        decreases list.len() - k,
    {
        let first = line_of(&list, 0, k);
        let second = line_of(&list, k, list.len());
        assert(all.subrange(0, k as int) == all.take(k as int));
        assert(all.subrange(k as int, all.len() as int) == all.skip(k as int));
        let a: u128 = bytes_of(first.as_slice());
        let b: u128 = bytes_of(second.as_slice());
        let diff: u128 = if a < b {
            b - a
        } else {
            a - b
        };
        assert(diff == imbalance(all, k as int));
        if k == 1 || diff < least {
            least = diff;
            best = k;
        }
        k += 1;
    }
    assert(best_split(all, best as int));
    let first = line_of(&list, 0, best);
    let second = line_of(&list, best, list.len());
    assert(all.subrange(0, best as int) == all.take(best as int));
    assert(all.subrange(best as int, all.len() as int) == all.skip(best as int));
    out.push(strings::string_of(first.as_slice()));
    out.push(strings::string_of(second.as_slice()));
    assert(strings::texts(out@) =~= seq![
        line(all.take(best as int)),
        line(all.skip(best as int)),
    ]);
    out
}

/// A label is never on more than two lines, and there is only one way to cut it.
pub proof fn labels_are_cut_in_one_way(
    label: Seq<char>,
    first: Seq<Seq<char>>,
    second: Seq<Seq<char>>,
)
    requires
        is_wrapped(label, first),
        is_wrapped(label, second),
    ensures
        first == second,
        1 <= first.len() <= 2,
{
    let list = words(label);
    if !(list.len() <= 1 || byte_len(label) <= 8) {
        let a = choose|k: int| #[trigger]
            best_split(list, k) && first == seq![line(list.take(k)), line(list.skip(k))];
        let b = choose|k: int| #[trigger]
            best_split(list, k) && second == seq![line(list.take(k)), line(list.skip(k))];
        assert(imbalance(list, a) <= imbalance(list, b));
        assert(imbalance(list, b) <= imbalance(list, a));
        assert(a == b);
    }
}

/// The words of a text are the pieces between white space, each whole and none empty: a word in
/// front of white space comes first, and white space in front does not count.
pub proof fn words_stand_between_white_space(word: Seq<char>, gap: char, rest: Seq<char>)
    requires
        word.len() > 0,
        forall|i: int| 0 <= i < word.len() ==> !strings::is_white(#[trigger] word[i]),
        strings::is_white(gap),
    ensures
        words(word + seq![gap] + rest) == seq![word] + words(rest),
        words(word) == seq![word],
        words(seq![gap] + rest) == words(rest),
        words(Seq::empty()).len() == 0,
{
    let s = word + seq![gap] + rest;
    assert(s[0] == word[0]);
    assert(strings::trim_start(s) == s);
    lemma_word_len_is(s, word.len() as int);
    assert(s.take(word.len() as int) =~= word);
    let tail = s.skip(word.len() as int);
    assert(tail =~= seq![gap] + rest);
    lemma_gap(gap, rest);
    assert(strings::trim_start(word) == word);
    lemma_word_len_is(word, word.len() as int);
    assert(word.take(word.len() as int) =~= word);
    assert(word.skip(word.len() as int) =~= Seq::<char>::empty());
    assert(words(Seq::<char>::empty()) =~= Seq::<Seq<char>>::empty());
    assert(seq![word] + Seq::<Seq<char>>::empty() =~= seq![word]);
}

proof fn lemma_gap(gap: char, rest: Seq<char>)
    requires
        strings::is_white(gap),
    ensures
        words(seq![gap] + rest) == words(rest),
{
    let s = seq![gap] + rest;
    assert(s[0] == gap);
    assert(s.drop_first() =~= rest);
    assert(strings::trim_start(s) == strings::trim_start(rest));
}

proof fn lemma_word_len_is(s: Seq<char>, n: int)
    requires
        0 <= n <= s.len(),
        forall|i: int| 0 <= i < n ==> !strings::is_white(#[trigger] s[i]),
        n < s.len() ==> strings::is_white(s[n]),
    ensures
        word_len(s) == n,
    decreases n,
{
    if n > 0 {
        let u = s.drop_first();
        assert(!strings::is_white(s[0]));
        assert forall|i: int| 0 <= i < n - 1 implies !strings::is_white(#[trigger] u[i]) by {
            assert(u[i] == s[i + 1]);
        }
        if n < s.len() {
            assert(u[n - 1] == s[n]);
        }
        lemma_word_len_is(u, n - 1);
    }
}

/// A text is as long as its characters in UTF-8: one byte up to 127, two up to 2047, three up to
/// 65535, four above.
pub proof fn lengths_count_bytes(s: Seq<char>, c: char)
    ensures
        byte_len(s.push(c)) == byte_len(s) + char_bytes(c),
        byte_len(Seq::empty()) == 0,
        (c as u32) <= 127 ==> char_bytes(c) == 1,
        128 <= (c as u32) <= 2047 ==> char_bytes(c) == 2,
        2048 <= (c as u32) <= 65535 ==> char_bytes(c) == 3,
        (c as u32) >= 65536 ==> char_bytes(c) == 4,
{
    assert(s.push(c).drop_last() =~= s);
}

/// A label of one word, or of eight bytes at most, stays on one line as it is. A longer one goes on
/// two lines, all of its words in order, the first line cut where the two differ least in length,
/// and as early as that.
pub proof fn long_labels_are_cut_in_the_middle(label: Seq<char>, lines: Seq<Seq<char>>)
    requires
        is_wrapped(label, lines),
    ensures
        words(label).len() <= 1 || byte_len(label) <= 8 ==> lines == seq![label],
        words(label).len() > 1 && byte_len(label) > 8 ==> lines.len() == 2 && exists|k: int|
            0 < k < words(label).len() && lines[0] == #[trigger] line(words(label).take(k))
                && lines[1] == line(words(label).skip(k)) && forall|j: int|
                0 < j < words(label).len() ==> {
                    let here = byte_len(line(words(label).take(k))) - byte_len(
                        line(words(label).skip(k)),
                    );
                    let there = byte_len(#[trigger] line(words(label).take(j))) - byte_len(
                        line(words(label).skip(j)),
                    );
                    let a = if here < 0 {
                        -here
                    } else {
                        here
                    };
                    let b = if there < 0 {
                        -there
                    } else {
                        there
                    };
                    a <= b && (j < k ==> a < b)
                },
{
    let list = words(label);
    if list.len() > 1 && byte_len(label) > 8 {
        let k = choose|k: int| #[trigger]
            best_split(list, k) && lines == seq![line(list.take(k)), line(list.skip(k))];
        assert(best_split(list, k));
        assert(lines[0] == line(list.take(k)));
        assert forall|j: int| 0 < j < list.len() implies ({
            let here = byte_len(line(list.take(k))) - byte_len(line(list.skip(k)));
            let there = byte_len(#[trigger] line(list.take(j))) - byte_len(line(list.skip(j)));
            let a = if here < 0 {
                -here
            } else {
                here
            };
            let b = if there < 0 {
                -there
            } else {
                there
            };
            a <= b && (j < k ==> a < b)
        }) by {
            assert(imbalance(list, k) <= imbalance(list, j));
            if j < k {
                assert(imbalance(list, k) < imbalance(list, j));
            }
        }
    }
}

/// A line has its words with one space between them.
pub proof fn lines_space_their_words(list: Seq<Seq<char>>, word: Seq<char>)
    ensures
        list.len() > 0 ==> line(list.push(word)) == line(list) + seq![' '] + word,
        line(seq![word]) == word,
{
    assert(list.push(word).drop_last() =~= list);
}

} // verus!
