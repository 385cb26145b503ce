//! Words, numbers and patterns in the output of command-line tools.

use crate::text::{
    bounded_decimal, is_whitespace, pieces, read_decimal, starts_with, starts_with_in, to_chars,
    views, whitespace,
};
use vstd::prelude::*;
use vstd::string::{StrSliceExecFns, StringExecFns};

verus! {

/// How many characters stand before the first whitespace in `s`; the whole
/// length where `s` holds none.
pub open spec fn word_len(s: Seq<char>) -> nat
    decreases s.len(),
{
    if s.len() == 0 || is_whitespace(s[0]) {
        0
    } else {
        1 + word_len(s.drop_first())
    }
}

/// A word is no longer than the text it starts.
pub proof fn lemma_word_len_bound(s: Seq<char>)
    ensures
        word_len(s) <= s.len(),
    decreases s.len(),
{
    if s.len() > 0 && !is_whitespace(s[0]) {
        lemma_word_len_bound(s.drop_first());
    }
}

/// The words of `s`: the runs of characters between whitespace. No word is
/// empty.
pub open spec fn words(s: Seq<char>) -> Seq<Seq<char>>
    decreases s.len(),
{
    if s.len() == 0 {
        Seq::empty()
    } else if is_whitespace(s[0]) {
        words(s.drop_first())
    } else {
        proof {
            lemma_word_len_bound(s);
        }
        seq![s.take(word_len(s) as int)] + words(s.skip(word_len(s) as int))
    }
}

/// Where the first whitespace stands, `word_len` counts up to it.
pub proof fn lemma_word_len(t: Seq<char>, n: int)
    requires
        0 <= n <= t.len(),
        forall|j: int| 0 <= j < n ==> !is_whitespace(#[trigger] t[j]),
        n == t.len() || is_whitespace(t[n]),
    ensures
        word_len(t) == n,
    decreases n,
{
    if n > 0 {
        let u = t.drop_first();
        assert(!is_whitespace(t[0]));
        assert forall|j: int| 0 <= j < n - 1 implies !is_whitespace(#[trigger] u[j]) by {
            assert(u[j] == t[j + 1]);
        }
        lemma_word_len(u, n - 1);
    }
}

/// Finds the words in the piece `lo..hi` of `v` and returns their bounds in
/// order.
pub fn word_bounds(v: &Vec<char>, lo: usize, hi: usize) -> (out: Vec<(usize, usize)>)
    requires
        lo <= hi <= v.len(),
    ensures
        forall|i: int| 0 <= i < out.len() ==> lo <= (#[trigger] out[i]).0 < out[i].1 <= hi,
        pieces(v@, out@) == words(v@.subrange(lo as int, hi as int)),
{
    let ghost whole = words(v@.subrange(lo as int, hi as int));
    let mut out: Vec<(usize, usize)> = Vec::new();
    let mut i: usize = lo;
    assert(pieces(v@, out@) + whole =~= whole);
    while i < hi
        invariant
            lo <= i <= hi <= v.len(),
            forall|k: int| 0 <= k < out.len() ==> lo <= (#[trigger] out[k]).0 < out[k].1 <= hi,
            pieces(v@, out@) + words(v@.subrange(i as int, hi as int)) == whole,
        decreases hi - i,
    {
        let ghost t = v@.subrange(i as int, hi as int);
        if whitespace(v[i]) {
            proof {
                assert(t[0] == v@[i as int]);
                assert(t.drop_first() =~= v@.subrange(i + 1, hi as int));
            }
            i += 1;
        } else {
            let start = i;
            while i < hi && !whitespace(v[i])
                invariant
                    start <= i <= hi <= v.len(),
                    forall|j: int| start <= j < i ==> !is_whitespace(#[trigger] v@[j]),
                decreases hi - i,
            {
                i += 1;
            }
            let ghost before = pieces(v@, out@);
            proof {
                assert(t[0] == v@[start as int]);
                assert forall|j: int| 0 <= j < i - start implies !is_whitespace(
                    #[trigger] t[j],
                ) by {
                    assert(t[j] == v@[start + j]);
                }
                if i < hi {
                    assert(t[i - start] == v@[i as int]);
                }
                lemma_word_len(t, i - start);
                assert(t.take(i - start) =~= v@.subrange(start as int, i as int));
                assert(t.skip(i - start) =~= v@.subrange(i as int, hi as int));
            }
            out.push((start, i));
            proof {
                let word = v@.subrange(start as int, i as int);
                let rest = words(v@.subrange(i as int, hi as int));
                assert(pieces(v@, out@) =~= before + seq![word]);
                assert((before + seq![word]) + rest =~= before + (seq![word] + rest));
            }
        }
    }
    assert(v@.subrange(hi as int, hi as int) =~= Seq::<char>::empty());
    assert(pieces(v@, out@) + Seq::<Seq<char>>::empty() =~= pieces(v@, out@));
    out
}

/// Splits `text` into its words.
pub fn split_words(text: &str) -> (out: Vec<String>)
    ensures
        views(out@) == words(text@),
{
    let v = to_chars(text);
    let bounds = word_bounds(&v, 0, v.len());
    assert(v@.subrange(0, v@.len() as int) =~= v@);
    let mut out: Vec<String> = Vec::new();
    let mut i: usize = 0;
    while i < bounds.len()
        invariant
            i <= bounds.len(),
            v@ == text@,
            forall|k: int|
                0 <= k < bounds.len() ==> (#[trigger] bounds[k]).0 < bounds[k].1 <= v.len(),
            views(out@) == pieces(v@, bounds@).take(i as int),
        decreases bounds.len() - i,
    {
        let (a, b) = bounds[i];
        let ghost before = views(out@);
        out.push(String::from_str(text.substring_char(a, b)));
        assert(views(out@) =~= before.push(v@.subrange(a as int, b as int)));
        assert(before.push(v@.subrange(a as int, b as int)) =~= pieces(v@, bounds@).take(i + 1));
        i += 1;
    }
    assert(pieces(v@, bounds@).take(bounds@.len() as int) =~= pieces(v@, bounds@));
    out
}

/// The digits of a number in text: the text itself, or what follows one
/// leading plus sign.
pub open spec fn number_digits(s: Seq<char>) -> Seq<char> {
    if s.len() > 0 && s[0] == '+' {
        s.drop_first()
    } else {
        s
    }
}

/// The number that `s` writes: decimal digits, at least one, behind at most
/// one plus sign, and a value that a `u32` holds.
pub open spec fn number_of(s: Seq<char>) -> Option<u32> {
    if number_digits(s).len() > 0 {
        bounded_decimal(number_digits(s), u32::MAX)
    } else {
        None
    }
}

/// Reads the number that the piece `lo..hi` of `v` writes.
pub fn read_number(v: &Vec<char>, lo: usize, hi: usize) -> (r: Option<u32>)
    requires
        lo <= hi <= v.len(),
    ensures
        r == number_of(v@.subrange(lo as int, hi as int)),
{
    let ghost s = v@.subrange(lo as int, hi as int);
    if lo == hi {
        return None;
    }
    assert(s[0] == v@[lo as int]);
    let start: usize = if v[lo] == '+' {
        lo + 1
    } else {
        lo
    };
    assert(number_digits(s) =~= v@.subrange(start as int, hi as int));
    if start == hi {
        return None;
    }
    read_decimal(v, start, hi, u32::MAX)
}

/// Reads the number that `text` writes.
pub fn parse_number(text: &str) -> (r: Option<u32>)
    ensures
        r == number_of(text@),
{
    let v = to_chars(text);
    assert(v@.subrange(0, v@.len() as int) =~= v@);
    read_number(&v, 0, v.len())
}

/// `s` with every occurrence of `pat` taken out, found from the left and
/// without overlap. An empty `pat` takes nothing out.
pub open spec fn without(s: Seq<char>, pat: Seq<char>) -> Seq<char>
    decreases s.len(),
{
    if pat.len() == 0 || s.len() < pat.len() {
        s
    } else if starts_with(s, pat) {
        without(s.skip(pat.len() as int), pat)
    } else {
        seq![s[0]] + without(s.drop_first(), pat)
    }
}

/// Copies the piece `lo..hi` of `v` into `out` without the occurrences of
/// `pat`.
pub fn strip_pattern(v: &Vec<char>, lo: usize, hi: usize, pat: &str) -> (out: Vec<char>)
    requires
        lo <= hi <= v.len(),
    ensures
        out@ == without(v@.subrange(lo as int, hi as int), pat@),
{
    let p = to_chars(pat);
    let n = p.len();
    let ghost whole = without(v@.subrange(lo as int, hi as int), pat@);
    let mut out: Vec<char> = Vec::new();
    let mut i: usize = lo;
    assert(out@ + whole =~= whole);
    while i < hi
        invariant
            lo <= i <= hi <= v.len(),
            n == pat@.len(),
            out@ + without(v@.subrange(i as int, hi as int), pat@) == whole,
        decreases hi - i,
    {
        let ghost t = v@.subrange(i as int, hi as int);
        let ghost before = out@;
        if n == 0 || hi - i < n {
            out.push(v[i]);
            proof {
                assert(t =~= seq![v@[i as int]] + v@.subrange(i + 1, hi as int));
                lemma_without_short(v@.subrange(i + 1, hi as int), pat@);
                assert(out@ + v@.subrange(i + 1, hi as int) =~= before + t);
            }
            i += 1;
        } else if starts_with_in(v, i, hi, pat) {
            proof {
                assert(t.skip(n as int) =~= v@.subrange(i + n, hi as int));
            }
            i += n;
        } else {
            out.push(v[i]);
            proof {
                assert(t[0] == v@[i as int]);
                assert(t.drop_first() =~= v@.subrange(i + 1, hi as int));
                let rest = without(v@.subrange(i + 1, hi as int), pat@);
                assert(out@ + rest =~= before + (seq![t[0]] + rest));
            }
            i += 1;
        }
    }
    assert(v@.subrange(hi as int, hi as int) =~= Seq::<char>::empty());
    assert(out@ + Seq::<char>::empty() =~= out@);
    out
}

/// Text that is too short to hold the pattern, or a pattern that is empty,
/// leaves the text as it is.
pub proof fn lemma_without_short(s: Seq<char>, pat: Seq<char>)
    requires
        pat.len() == 0 || s.len() < pat.len(),
    ensures
        without(s, pat) == s,
{
}

} // verus!
