use vstd::prelude::*;
use vstd::string::*;

verus! {

pub open spec fn is_space(c: char) -> bool {
    c == ' ' || c == '\t' || c == '\n' || c == '\r'
}

/// The offset just past the word that starts at `i`: the first blank at or
/// after `i`, or the end of `s`.
pub open spec fn word_end(s: Seq<char>, i: int) -> int
    decreases s.len() - i,
{
    if i >= s.len() || is_space(s[i]) {
        i
    } else {
        word_end(s, i + 1)
    }
}

pub proof fn lemma_word_end_bounds(s: Seq<char>, i: int)
    requires
        0 <= i <= s.len(),
    ensures
        i <= word_end(s, i) <= s.len(),
        i < s.len() && !is_space(s[i]) ==> i < word_end(s, i),
    decreases s.len() - i,
{
    if i < s.len() && !is_space(s[i]) {
        lemma_word_end_bounds(s, i + 1);
    }
}

/// The blank-separated words of `s` from offset `i` on, in order.
pub open spec fn words_from(s: Seq<char>, i: int) -> Seq<Seq<char>>
    decreases s.len() - i,
    via words_from_decreases
{
    if i < 0 || i >= s.len() {
        Seq::empty()
    } else if is_space(s[i]) {
        words_from(s, i + 1)
    } else {
        seq![s.subrange(i, word_end(s, i))] + words_from(s, word_end(s, i))
    }
}

#[via_fn]
proof fn words_from_decreases(s: Seq<char>, i: int) {
    if 0 <= i < s.len() && !is_space(s[i]) {
        lemma_word_end_bounds(s, i);
    }
}

/// The blank-separated words of `s`.
pub open spec fn words(s: Seq<char>) -> Seq<Seq<char>> {
    words_from(s, 0)
}

pub fn is_space_char(c: char) -> (b: bool)
    ensures
        b == is_space(c),
{
    c == ' ' || c == '\t' || c == '\n' || c == '\r'
}

/// The characters of a string slice.
pub fn chars_of(s: &str) -> (cs: Vec<char>)
    ensures
        cs@ == s@,
{
    let n = s.unicode_len();
    let mut cs: Vec<char> = Vec::new();
    let mut i: usize = 0;
    while i < n
        invariant
            n == s@.len(),
            i <= n,
            cs@ == s@.subrange(0, i as int),
        decreases n - i,
    {
        cs.push(s.get_char(i));
        i = i + 1;
        assert(cs@ =~= s@.subrange(0, i as int));
    }
    assert(cs@ =~= s@);
    cs
}

/// Splits a sequence of characters into its blank-separated words.
pub fn split_words(cs: &Vec<char>) -> (ws: Vec<Vec<char>>)
    ensures
        ws@.len() == words(cs@).len(),
        forall|k: int| 0 <= k < ws@.len() ==> ws@[k]@ == words(cs@)[k],
{
    let ghost s = cs@;
    let ghost mut acc: Seq<Seq<char>> = Seq::empty();
    let n = cs.len();
    let mut ws: Vec<Vec<char>> = Vec::new();
    let mut i: usize = 0;
    while i < n
        invariant
            n == s.len(),
            s == cs@,
            i <= n,
            words(s) == acc + words_from(s, i as int),
            ws@.len() == acc.len(),
            forall|k: int| 0 <= k < ws@.len() ==> ws@[k]@ == acc[k],
        decreases n - i,
    {
        if is_space_char(cs[i]) {
            i = i + 1;
        } else {
            let ghost start = i as int;
            let mut w: Vec<char> = Vec::new();
            while i < n && !is_space_char(cs[i])
                invariant
                    n == s.len(),
                    s == cs@,
                    0 <= start <= i <= n,
                    word_end(s, start) == word_end(s, i as int),
                    w@ == s.subrange(start, i as int),
                decreases n - i,
            {
                w.push(cs[i]);
                i = i + 1;
                assert(w@ =~= s.subrange(start, i as int));
            }
            proof {
                lemma_word_end_bounds(s, start);
                assert(words_from(s, start) == seq![w@] + words_from(s, i as int));
                assert(acc + words_from(s, start) =~= acc.push(w@) + words_from(s, i as int));
                acc = acc.push(w@);
            }
            ws.push(w);
        }
    }
    assert(acc =~= words(s));
    ws
}

/// Whether `w` and `t` hold the same characters.
pub fn same_chars(w: &Vec<char>, t: &Vec<char>) -> (b: bool)
    ensures
        b == (w@ == t@),
{
    if w.len() != t.len() {
        return false;
    }
    let mut i: usize = 0;
    while i < w.len()
        invariant
            w@.len() == t@.len(),
            i <= w@.len(),
            w@.subrange(0, i as int) == t@.subrange(0, i as int),
        decreases w@.len() - i,
    {
        if w[i] != t[i] {
            assert(w@[i as int] != t@[i as int]);
            return false;
        }
        assert(w@.subrange(0, i + 1) =~= w@.subrange(0, i as int).push(w@[i as int]));
        assert(t@.subrange(0, i + 1) =~= t@.subrange(0, i as int).push(t@[i as int]));
        i = i + 1;
    }
    assert(w@ =~= w@.subrange(0, i as int));
    assert(t@ =~= t@.subrange(0, i as int));
    true
}

} // verus!
