//! Character-level text primitives.
//!
//! Every function here works on the sequence of `char`s that a string views
//! as, so that contracts elsewhere in the crate can be stated over `Seq<char>`.
//! Executable helpers address a piece of text as a half-open index range
//! `lo..hi` into one shared `Vec<char>`, which avoids copying.

use vstd::prelude::*;
use vstd::string::StringExecFns;

verus! {

/// The characters with the Unicode `White_Space` property.
pub open spec fn is_whitespace(c: char) -> bool {
    let u = c as u32;
    ||| 0x09 <= u <= 0x0d
    ||| u == 0x20
    ||| u == 0x85
    ||| u == 0xa0
    ||| u == 0x1680
    ||| 0x2000 <= u <= 0x200a
    ||| u == 0x2028
    ||| u == 0x2029
    ||| u == 0x202f
    ||| u == 0x205f
    ||| u == 0x3000
}

/// `s` without its leading whitespace.
pub open spec fn trim_start(s: Seq<char>) -> Seq<char>
    decreases s.len(),
{
    if s.len() > 0 && is_whitespace(s[0]) {
        trim_start(s.drop_first())
    } else {
        s
    }
}

/// `s` without its trailing whitespace.
pub open spec fn trim_end(s: Seq<char>) -> Seq<char>
    decreases s.len(),
{
    if s.len() > 0 && is_whitespace(s.last()) {
        trim_end(s.drop_last())
    } else {
        s
    }
}

/// `s` without leading and trailing whitespace.
pub open spec fn trim(s: Seq<char>) -> Seq<char> {
    trim_end(trim_start(s))
}

/// `pat` stands in `s` at index `i`.
pub open spec fn occurs_at(s: Seq<char>, pat: Seq<char>, i: int) -> bool {
    &&& 0 <= i
    &&& i + pat.len() <= s.len()
    &&& s.subrange(i, i + pat.len()) == pat
}

/// `pat` stands somewhere in `s`.
pub open spec fn contains(s: Seq<char>, pat: Seq<char>) -> bool {
    exists|i: int| occurs_at(s, pat, i)
}

/// `s` begins with `pat`.
pub open spec fn starts_with(s: Seq<char>, pat: Seq<char>) -> bool {
    occurs_at(s, pat, 0)
}

/// `s` ends with `pat`.
pub open spec fn ends_with(s: Seq<char>, pat: Seq<char>) -> bool {
    occurs_at(s, pat, s.len() - pat.len())
}

/// An ASCII capital letter becomes its small letter; every other character
/// stays as it is.
pub open spec fn ascii_lower(c: char) -> char {
    if 'A' as u32 <= c as u32 <= 'Z' as u32 {
        ((c as u32 + 32) as u8) as char
    } else {
        c
    }
}

/// `s` with every ASCII capital letter made small.
pub open spec fn lowered(s: Seq<char>) -> Seq<char> {
    Seq::new(s.len(), |i: int| ascii_lower(s[i]))
}

/// `pat` stands somewhere in `s` when ASCII letters are compared without
/// regard to case. `pat` is meant to hold no capital letter.
pub open spec fn contains_ignore_case(s: Seq<char>, pat: Seq<char>) -> bool {
    contains(lowered(s), pat)
}

/// How many characters stand before the first `sep` in `s`; the whole length
/// where `s` holds no `sep`.
pub open spec fn prefix_len(s: Seq<char>, sep: char) -> nat
    decreases s.len(),
{
    if s.len() == 0 || s[0] == sep {
        0
    } else {
        1 + prefix_len(s.drop_first(), sep)
    }
}

/// The pieces of `s` between occurrences of `sep`. There is always at least
/// one piece, and a piece may be empty.
pub open spec fn split(s: Seq<char>, sep: char) -> Seq<Seq<char>>
    decreases s.len(),
{
    let n = prefix_len(s, sep);
    if n >= s.len() {
        seq![s]
    } else {
        seq![s.take(n as int)] + split(s.skip(n as int + 1), sep)
    }
}

/// The decimal digits of `n`, most significant first, without leading zeros.
pub open spec fn decimal(n: nat) -> Seq<char>
    decreases n,
{
    if n < 10 {
        seq![digit_char(n)]
    } else {
        decimal(n / 10).push(digit_char(n % 10))
    }
}

/// The character for a single decimal digit.
pub open spec fn digit_char(d: nat) -> char
    recommends
        d < 10,
{
    (('0' as u32 + d) as u32) as char
}

/// Whether `c` is one of `0` to `9`.
pub open spec fn is_digit(c: char) -> bool {
    '0' as u32 <= c as u32 <= '9' as u32
}

/// The value of a decimal digit.
pub open spec fn digit_value(c: char) -> nat
    recommends
        is_digit(c),
{
    (c as u32 - '0' as u32) as nat
}

/// The number that a run of decimal digits writes.
pub open spec fn decimal_value(s: Seq<char>) -> nat
    decreases s.len(),
{
    if s.len() == 0 {
        0
    } else {
        decimal_value(s.drop_last()) * 10 + digit_value(s.last())
    }
}

/// Every character of `s` is a decimal digit.
pub open spec fn all_digits(s: Seq<char>) -> bool {
    forall|i: int| 0 <= i < s.len() ==> is_digit(#[trigger] s[i])
}

/// `String::push` appends one character to the string. This states it of
/// the standard library's function, which is called as it is.
pub assume_specification[ String::push ](s: &mut String, c: char)
    ensures
        final(s)@ == old(s)@.push(c),
;

/// Writes the characters of the piece `lo..hi` of `v` into a string.
pub fn text_from(v: &Vec<char>, lo: usize, hi: usize) -> (text: String)
    requires
        lo <= hi <= v.len(),
    ensures
        text@ == v@.subrange(lo as int, hi as int),
{
    let mut text = String::new();
    let mut i: usize = lo;
    assert(text@ =~= v@.subrange(lo as int, lo as int));
    while i < hi
        invariant
            lo <= i <= hi <= v.len(),
            text@ == v@.subrange(lo as int, i as int),
        decreases hi - i,
    {
        text.push(v[i]);
        assert(text@ =~= v@.subrange(lo as int, i + 1));
        i += 1;
    }
    text
}

/// The views of a list of strings.
pub open spec fn views(list: Seq<String>) -> Seq<Seq<char>> {
    Seq::new(list.len(), |i: int| list[i]@)
}

/// The characters of a string, one vector element each.
pub fn to_chars(s: &str) -> (out: Vec<char>)
    ensures
        out@ == s@,
{
    let mut out: Vec<char> = Vec::new();
    for c in it: s.chars()
        invariant
            it.seq() == s@,
            out@ == s@.take(it.index() as int),
    {
        assert(s@.take(it.index() + 1) =~= s@.take(it.index() as int).push(c));
        out.push(c);
    }
    assert(s@.take(s@.len() as int) =~= s@);
    out
}

/// Tells whether `c` is whitespace.
pub fn whitespace(c: char) -> (b: bool)
    ensures
        b == is_whitespace(c),
{
    let u: u32 = c as u32;
    (0x09 <= u && u <= 0x0d) || u == 0x20 || u == 0x85 || u == 0xa0 || u == 0x1680 || (0x2000 <= u
        && u <= 0x200a) || u == 0x2028 || u == 0x2029 || u == 0x202f || u == 0x205f || u == 0x3000
}

/// Makes an ASCII capital letter small.
pub fn to_ascii_lower(c: char) -> (r: char)
    ensures
        r == ascii_lower(c),
{
    if 'A' <= c && c <= 'Z' {
        ((c as u8) + 32) as char
    } else {
        c
    }
}

/// Whitespace at the front does not change what trimming the front leaves.
pub proof fn lemma_trim_start_skip(s: Seq<char>, k: int)
    requires
        0 <= k <= s.len(),
        forall|i: int| 0 <= i < k ==> is_whitespace(#[trigger] s[i]),
    ensures
        trim_start(s) == trim_start(s.skip(k)),
    decreases k,
{
    if k == 0 {
        assert(s.skip(0) =~= s);
    } else {
        assert(is_whitespace(s[0]));
        let t = s.drop_first();
        assert forall|i: int| 0 <= i < k - 1 implies is_whitespace(#[trigger] t[i]) by {
            assert(t[i] == s[i + 1]);
        }
        lemma_trim_start_skip(t, k - 1);
        assert(t.skip(k - 1) =~= s.skip(k));
    }
}

/// Whitespace at the end does not change what trimming the end leaves.
pub proof fn lemma_trim_end_take(s: Seq<char>, k: int)
    requires
        0 <= k <= s.len(),
        forall|i: int| k <= i < s.len() ==> is_whitespace(#[trigger] s[i]),
    ensures
        trim_end(s) == trim_end(s.take(k)),
    decreases s.len() - k,
{
    if k == s.len() {
        assert(s.take(k) =~= s);
    } else {
        assert(is_whitespace(s[s.len() - 1]));
        let t = s.drop_last();
        lemma_trim_end_take(t, k);
        assert(t.take(k) =~= s.take(k));
    }
}

/// Trims the piece `lo..hi` of `v` and returns the bounds of what is left.
pub fn trim_bounds(v: &Vec<char>, lo: usize, hi: usize) -> (r: (usize, usize))
    requires
        lo <= hi <= v.len(),
    ensures
        lo <= r.0 <= r.1 <= hi,
        v@.subrange(r.0 as int, r.1 as int) == trim(v@.subrange(lo as int, hi as int)),
{
    let ghost s = v@.subrange(lo as int, hi as int);
    let mut a: usize = lo;
    while a < hi && whitespace(v[a])
        invariant
            lo <= a <= hi <= v.len(),
            s == v@.subrange(lo as int, hi as int),
            forall|i: int| 0 <= i < a - lo ==> is_whitespace(#[trigger] s[i]),
        decreases hi - a,
    {
        a += 1;
    }
    let ghost t = s.skip(a - lo);
    proof {
        lemma_trim_start_skip(s, a - lo);
        assert(t =~= v@.subrange(a as int, hi as int));
        if t.len() > 0 {
            assert(t[0] == v@[a as int]);
        }
        assert(trim_start(t) == t);
    }
    let mut b: usize = hi;
    while b > a && whitespace(v[b - 1])
        invariant
            a <= b <= hi <= v.len(),
            t == v@.subrange(a as int, hi as int),
            forall|i: int| b - a <= i < t.len() ==> is_whitespace(#[trigger] t[i]),
        decreases b,
    {
        b -= 1;
    }
    proof {
        lemma_trim_end_take(t, b - a);
        let u = t.take(b - a);
        assert(u =~= v@.subrange(a as int, b as int));
        if u.len() > 0 {
            assert(u.last() == v@[b - 1]);
        }
        assert(trim_end(u) == u);
    }
    (a, b)
}

/// Tells whether `pat` stands in the piece `lo..hi` of `v` at offset `at`,
/// with the text's ASCII letters made small first when `fold` is set.
fn matches_at(v: &Vec<char>, lo: usize, hi: usize, pat: &Vec<char>, at: usize, fold: bool) -> (b:
    bool)
    requires
        lo <= hi <= v.len(),
        at + pat.len() <= hi - lo,
    ensures
        b == occurs_at(
            if fold {
                lowered(v@.subrange(lo as int, hi as int))
            } else {
                v@.subrange(lo as int, hi as int)
            },
            pat@,
            at as int,
        ),
{
    let ghost s = if fold {
        lowered(v@.subrange(lo as int, hi as int))
    } else {
        v@.subrange(lo as int, hi as int)
    };
    let mut j: usize = 0;
    while j < pat.len()
        invariant
            lo <= hi <= v.len(),
            at + pat.len() <= hi - lo,
            j <= pat.len(),
            s == if fold {
                lowered(v@.subrange(lo as int, hi as int))
            } else {
                v@.subrange(lo as int, hi as int)
            },
            forall|k: int| 0 <= k < j ==> s[at + k] == #[trigger] pat@[k],
        decreases pat.len() - j,
    {
        let c = v[lo + at + j];
        let c = if fold {
            to_ascii_lower(c)
        } else {
            c
        };
        assert(c == s[at + j]);
        if c != pat[j] {
            proof {
                let w = s.subrange(at as int, at + pat@.len());
                assert(w[j as int] != pat@[j as int]);
            }
            return false;
        }
        j += 1;
    }
    assert(s.subrange(at as int, at + pat@.len()) =~= pat@);
    true
}

/// Searches the piece `lo..hi` of `v` for `pat`.
fn search(v: &Vec<char>, lo: usize, hi: usize, pat: &Vec<char>, fold: bool) -> (b: bool)
    requires
        lo <= hi <= v.len(),
    ensures
        b == contains(
            if fold {
                lowered(v@.subrange(lo as int, hi as int))
            } else {
                v@.subrange(lo as int, hi as int)
            },
            pat@,
        ),
{
    let ghost s = if fold {
        lowered(v@.subrange(lo as int, hi as int))
    } else {
        v@.subrange(lo as int, hi as int)
    };
    if pat.len() > hi - lo {
        return false;
    }
    let last: usize = hi - lo - pat.len();
    let mut i: usize = 0;
    loop
        invariant
            lo <= hi <= v.len(),
            last == hi - lo - pat.len(),
            i <= last,
            s == if fold {
                lowered(v@.subrange(lo as int, hi as int))
            } else {
                v@.subrange(lo as int, hi as int)
            },
            forall|k: int| 0 <= k < i ==> !occurs_at(s, pat@, k),
        decreases last - i,
    {
        if matches_at(v, lo, hi, pat, i, fold) {
            return true;
        }
        if i == last {
            return false;
        }
        i += 1;
    }
}

/// Tells whether the piece `lo..hi` of `v` holds `pat`.
pub fn contains_in(v: &Vec<char>, lo: usize, hi: usize, pat: &str) -> (b: bool)
    requires
        lo <= hi <= v.len(),
    ensures
        b == contains(v@.subrange(lo as int, hi as int), pat@),
{
    let p = to_chars(pat);
    search(v, lo, hi, &p, false)
}

/// Tells whether the piece `lo..hi` of `v` holds `pat` when ASCII letters are
/// compared without regard to case.
pub fn contains_ignore_case_in(v: &Vec<char>, lo: usize, hi: usize, pat: &str) -> (b: bool)
    requires
        lo <= hi <= v.len(),
    ensures
        b == contains_ignore_case(v@.subrange(lo as int, hi as int), pat@),
{
    let p = to_chars(pat);
    search(v, lo, hi, &p, true)
}

/// Tells whether the piece `lo..hi` of `v` begins with `pat`.
pub fn starts_with_in(v: &Vec<char>, lo: usize, hi: usize, pat: &str) -> (b: bool)
    requires
        lo <= hi <= v.len(),
    ensures
        b == starts_with(v@.subrange(lo as int, hi as int), pat@),
{
    let p = to_chars(pat);
    if p.len() > hi - lo {
        return false;
    }
    matches_at(v, lo, hi, &p, 0, false)
}

/// Tells whether the piece `lo..hi` of `v` ends with `pat`.
pub fn ends_with_in(v: &Vec<char>, lo: usize, hi: usize, pat: &str) -> (b: bool)
    requires
        lo <= hi <= v.len(),
    ensures
        b == ends_with(v@.subrange(lo as int, hi as int), pat@),
{
    let p = to_chars(pat);
    if p.len() > hi - lo {
        return false;
    }
    matches_at(v, lo, hi, &p, hi - lo - p.len(), false)
}

/// Tells whether the piece `lo..hi` of `v` is exactly `pat`.
pub fn equals_in(v: &Vec<char>, lo: usize, hi: usize, pat: &str) -> (b: bool)
    requires
        lo <= hi <= v.len(),
    ensures
        b == (v@.subrange(lo as int, hi as int) == pat@),
{
    let p = to_chars(pat);
    if p.len() != hi - lo {
        return false;
    }
    let b = matches_at(v, lo, hi, &p, 0, false);
    proof {
        let s = v@.subrange(lo as int, hi as int);
        assert(s.subrange(0, s.len() as int) =~= s);
    }
    b
}

/// The pieces of `v` that a list of index ranges picks out.
pub open spec fn pieces(v: Seq<char>, bounds: Seq<(usize, usize)>) -> Seq<Seq<char>> {
    Seq::new(bounds.len(), |i: int| v.subrange(bounds[i].0 as int, bounds[i].1 as int))
}

/// Where the first `sep` stands, `prefix_len` counts up to it.
pub proof fn lemma_prefix_len(t: Seq<char>, sep: char, n: int)
    requires
        0 <= n <= t.len(),
        forall|j: int| 0 <= j < n ==> t[j] != sep,
        n == t.len() || t[n] == sep,
    ensures
        prefix_len(t, sep) == n,
    decreases n,
{
    if n > 0 {
        let u = t.drop_first();
        assert forall|j: int| 0 <= j < n - 1 implies u[j] != sep by {
            assert(u[j] == t[j + 1]);
        }
        lemma_prefix_len(u, sep, n - 1);
    }
}

/// Splits the piece `lo..hi` of `v` at every `sep` and returns the bounds of
/// the pieces in order.
pub fn split_bounds(v: &Vec<char>, lo: usize, hi: usize, sep: char) -> (out: Vec<(usize, usize)>)
    requires
        lo <= hi <= v.len(),
    ensures
        out.len() >= 1,
        forall|i: int| 0 <= i < out.len() ==> lo <= (#[trigger] out[i]).0 <= out[i].1 <= hi,
        pieces(v@, out@) == split(v@.subrange(lo as int, hi as int), sep),
{
    let ghost whole = split(v@.subrange(lo as int, hi as int), sep);
    let mut out: Vec<(usize, usize)> = Vec::new();
    let mut start: usize = lo;
    let mut i: usize = lo;
    assert(pieces(v@, out@) + whole =~= whole);
    while i < hi
        invariant
            lo <= start <= i <= hi <= v.len(),
            whole == split(v@.subrange(lo as int, hi as int), sep),
            forall|k: int| 0 <= k < out.len() ==> lo <= (#[trigger] out[k]).0 <= out[k].1 <= hi,
            forall|j: int| start <= j < i ==> v@[j] != sep,
            pieces(v@, out@) + split(v@.subrange(start as int, hi as int), sep) == whole,
        decreases hi - i,
    {
        if v[i] == sep {
            let ghost t = v@.subrange(start as int, hi as int);
            let ghost before = pieces(v@, out@);
            proof {
                lemma_prefix_len(t, sep, i - start);
                assert(t.take(i - start) =~= v@.subrange(start as int, i as int));
                assert(t.skip(i - start + 1) =~= v@.subrange(i + 1, hi as int));
            }
            out.push((start, i));
            proof {
                let piece = v@.subrange(start as int, i as int);
                let rest = split(v@.subrange(i + 1, hi as int), sep);
                assert(pieces(v@, out@) =~= before + seq![piece]);
                assert((before + seq![piece]) + rest =~= before + (seq![piece] + rest));
            }
            start = i + 1;
        }
        i += 1;
    }
    let ghost t = v@.subrange(start as int, hi as int);
    let ghost before = pieces(v@, out@);
    proof {
        lemma_prefix_len(t, sep, hi - start);
    }
    out.push((start, hi));
    assert(pieces(v@, out@) =~= before + seq![t]);
    out
}

/// Appends one decimal digit to `out`.
pub fn push_digit(out: &mut String, d: u8)
    requires
        d < 10,
    ensures
        final(out)@ == old(out)@.push(digit_char(d as nat)),
{
    proof {
        reveal_strlit("0");
        reveal_strlit("1");
        reveal_strlit("2");
        reveal_strlit("3");
        reveal_strlit("4");
        reveal_strlit("5");
        reveal_strlit("6");
        reveal_strlit("7");
        reveal_strlit("8");
        reveal_strlit("9");
    }
    let digit: &str = if d == 0 {
        "0"
    } else if d == 1 {
        "1"
    } else if d == 2 {
        "2"
    } else if d == 3 {
        "3"
    } else if d == 4 {
        "4"
    } else if d == 5 {
        "5"
    } else if d == 6 {
        "6"
    } else if d == 7 {
        "7"
    } else if d == 8 {
        "8"
    } else {
        "9"
    };
    assert(digit@ =~= seq![digit_char(d as nat)]);
    out.append(digit);
    assert(out@ =~= old(out)@.push(digit_char(d as nat)));
}

/// Appends `n` in decimal to `out`.
pub fn append_decimal(out: &mut String, n: u32)
    ensures
        final(out)@ == old(out)@ + decimal(n as nat),
    decreases n,
{
    if n >= 10 {
        append_decimal(out, n / 10);
    }
    push_digit(out, (n % 10) as u8);
    assert(out@ =~= old(out)@ + decimal(n as nat));
}

/// Reads the run of decimal digits in the piece `lo..hi` of `v`. Gives the
/// number where every character is a digit and the number is at most `max`.
pub fn read_decimal(v: &Vec<char>, lo: usize, hi: usize, max: u32) -> (r: Option<u32>)
    requires
        lo <= hi <= v.len(),
    ensures
        r == bounded_decimal(v@.subrange(lo as int, hi as int), max),
{
    let ghost s = v@.subrange(lo as int, hi as int);
    let mut value: u32 = 0;
    let mut i: usize = lo;
    while i < hi
        invariant
            lo <= i <= hi <= v.len(),
            s == v@.subrange(lo as int, hi as int),
            all_digits(s.take(i - lo)),
            value == decimal_value(s.take(i - lo)),
            value <= max,
        decreases hi - i,
    {
        let c = v[i];
        let ghost before = s.take(i - lo);
        let ghost after = s.take(i - lo + 1);
        proof {
            assert(after.drop_last() =~= before);
            assert(after.last() == c);
        }
        let u: u32 = c as u32;
        if u < '0' as u32 || u > '9' as u32 {
            assert(!is_digit(s[i - lo]));
            return None;
        }
        let d: u32 = u - ('0' as u32);
        if max < d || value > (max - d) / 10 {
            proof {
                assert(decimal_value(after) > max);
                lemma_decimal_value_grows(s, i - lo + 1);
            }
            return None;
        }
        value = value * 10 + d;
        assert(all_digits(after)) by {
            assert forall|k: int| 0 <= k < after.len() implies is_digit(#[trigger] after[k]) by {
                if k < before.len() {
                    assert(after[k] == before[k]);
                }
            }
        }
        i += 1;
    }
    assert(s.take(hi - lo) =~= s);
    Some(value)
}

/// The number that `s` writes in decimal, where every character of `s` is a
/// digit and the number is at most `max`.
pub open spec fn bounded_decimal(s: Seq<char>, max: u32) -> Option<u32> {
    if all_digits(s) && decimal_value(s) <= max {
        Some(decimal_value(s) as u32)
    } else {
        None
    }
}

/// A run of digits writes a number no smaller than any of its prefixes does.
pub proof fn lemma_decimal_value_grows(s: Seq<char>, k: int)
    requires
        0 <= k <= s.len(),
    ensures
        decimal_value(s.take(k)) <= decimal_value(s),
    decreases s.len() - k,
{
    if k == s.len() {
        assert(s.take(k) =~= s);
    } else {
        lemma_decimal_value_grows(s.drop_last(), k);
        assert(s.drop_last().take(k) =~= s.take(k));
    }
}

/// The first piece of a split ends where the first `sep` stands, and the
/// other pieces are those of what follows that `sep`.
pub proof fn lemma_split_first(s: Seq<char>, sep: char)
    ensures
        prefix_len(s, sep) <= s.len(),
        forall|j: int| 0 <= j < prefix_len(s, sep) ==> s[j] != sep,
        prefix_len(s, sep) < s.len() ==> s[prefix_len(s, sep) as int] == sep,
        split(s, sep).len() >= 1,
        split(s, sep)[0] == s.take(prefix_len(s, sep) as int),
        prefix_len(s, sep) < s.len() ==> split(s, sep).drop_first() == split(
            s.skip(prefix_len(s, sep) as int + 1),
            sep,
        ),
        prefix_len(s, sep) >= s.len() ==> split(s, sep).len() == 1,
    decreases s.len(),
{
    if s.len() == 0 || s[0] == sep {
    } else {
        let t = s.drop_first();
        lemma_split_first(t, sep);
        assert forall|j: int| 0 <= j < prefix_len(s, sep) implies s[j] != sep by {
            if j > 0 {
                assert(s[j] == t[j - 1]);
            }
        }
        if prefix_len(s, sep) < s.len() {
            assert(s[prefix_len(s, sep) as int] == t[prefix_len(t, sep) as int]);
        }
    }
    let n = prefix_len(s, sep);
    if n >= s.len() {
        assert(s.take(n as int) =~= s);
    } else {
        let rest = split(s.skip(n as int + 1), sep);
        assert((seq![s.take(n as int)] + rest).drop_first() =~= rest);
    }
}

/// A run of digits without a needless leading zero is the decimal form of
/// the number it writes.
pub proof fn lemma_digits_canonical(s: Seq<char>)
    requires
        s.len() >= 1,
        all_digits(s),
        s.len() == 1 || s[0] != '0',
    ensures
        decimal(decimal_value(s)) == s,
    decreases s.len(),
{
    let t = s.drop_last();
    let c = s.last();
    assert(is_digit(s[s.len() - 1]));
    let u: u32 = c as u32;
    vstd::utf8::char_u32_cast(c, u);
    assert(('0' as u32 + digit_value(c)) as u32 == u);
    assert(digit_char(digit_value(c)) == c);
    if s.len() == 1 {
        assert(t.len() == 0);
        assert(decimal_value(t) == 0);
        assert(decimal(decimal_value(s)) =~= s);
    } else {
        assert(all_digits(t)) by {
            assert forall|i: int| 0 <= i < t.len() implies is_digit(#[trigger] t[i]) by {
                assert(t[i] == s[i]);
            }
        }
        assert(t[0] == s[0]);
        lemma_digits_canonical(t);
        lemma_decimal_value_grows(t, 1);
        assert(t.take(1).drop_last() =~= Seq::<char>::empty());
        assert(decimal_value(t.take(1)) == digit_value(t[0])) by {
            assert(t.take(1).last() == t[0]);
            assert(decimal_value(t.take(1).drop_last()) == 0);
        }
        assert(is_digit(t[0]));
        assert(decimal_value(t) >= 1);
        let v = decimal_value(s);
        assert(v == decimal_value(t) * 10 + digit_value(c));
        assert(v / 10 == decimal_value(t));
        assert(v % 10 == digit_value(c));
        assert(decimal(v) =~= t.push(c));
        assert(t.push(c) =~= s);
    }
}

/// Pieces put together again with `sep` between them.
pub open spec fn join(parts: Seq<Seq<char>>, sep: char) -> Seq<char>
    decreases parts.len(),
{
    if parts.len() == 0 {
        Seq::empty()
    } else if parts.len() == 1 {
        parts[0]
    } else {
        parts[0] + seq![sep] + join(parts.drop_first(), sep)
    }
}

/// Splitting loses nothing: the pieces joined again are the text.
pub proof fn lemma_join_split(s: Seq<char>, sep: char)
    ensures
        join(split(s, sep), sep) == s,
    decreases s.len(),
{
    lemma_split_first(s, sep);
    let n = prefix_len(s, sep) as int;
    if n < s.len() {
        let rest = s.skip(n + 1);
        lemma_join_split(rest, sep);
        lemma_split_first(rest, sep);
        assert(s =~= s.take(n) + seq![sep] + rest);
    }
}

/// Where `pat` first stands in `s`; `None` where it stands nowhere.
pub open spec fn find(s: Seq<char>, pat: Seq<char>) -> Option<nat>
    decreases s.len(),
{
    if starts_with(s, pat) {
        Some(0)
    } else if s.len() == 0 {
        None
    } else {
        match find(s.drop_first(), pat) {
            Some(i) => Some(i + 1),
            None => None,
        }
    }
}

/// An index moved right by `by`.
pub open spec fn moved(at: Option<nat>, by: nat) -> Option<nat> {
    match at {
        Some(i) => Some(i + by),
        None => None,
    }
}

/// Finds where `pat` first stands in the piece `lo..hi` of `v`, counted
/// from `lo`.
pub fn find_in(v: &Vec<char>, lo: usize, hi: usize, pat: &str) -> (r: Option<usize>)
    requires
        lo <= hi <= v.len(),
    ensures
        match r {
            Some(i) => find(v@.subrange(lo as int, hi as int), pat@) == Some(i as nat) && i
                + pat@.len() <= hi - lo,
            None => find(v@.subrange(lo as int, hi as int), pat@) is None,
        },
{
    let p = to_chars(pat);
    let ghost s = v@.subrange(lo as int, hi as int);
    let n = hi - lo;
    let mut i: usize = 0;
    assert(s.skip(0) =~= s);
    loop
        invariant
            lo <= hi <= v.len(),
            n == hi - lo,
            i <= n,
            p@ == pat@,
            s == v@.subrange(lo as int, hi as int),
            find(s, pat@) == moved(find(s.skip(i as int), pat@), i as nat),
        decreases n - i,
    {
        let ghost t = s.skip(i as int);
        if p.len() <= n - i {
            let hit = matches_at(v, lo, hi, &p, i, false);
            proof {
                assert(t.subrange(0, p@.len() as int) =~= s.subrange(i as int, i + p@.len()));
            }
            if hit {
                return Some(i);
            }
        }
        if i == n {
            return None;
        }
        proof {
            assert(t.drop_first() =~= s.skip(i + 1));
        }
        i += 1;
    }
}

/// The decimal form of a number is a run of digits without a needless
/// leading zero that writes the number.
pub proof fn lemma_decimal_form(n: nat)
    ensures
        decimal(n).len() >= 1,
        all_digits(decimal(n)),
        decimal_value(decimal(n)) == n,
        decimal(n).len() == 1 || decimal(n)[0] != '0',
        n < 10 ==> decimal(n).len() == 1,
        10 <= n < 100 ==> decimal(n).len() == 2,
        100 <= n < 1000 ==> decimal(n).len() == 3,
    decreases n,
{
    let c = digit_char(n % 10);
    assert(is_digit(c) && digit_value(c) == n % 10);
    if n < 10 {
        let s = decimal(n);
        assert(s.drop_last() =~= Seq::<char>::empty());
        assert(decimal_value(s.drop_last()) == 0);
        assert(s.last() == c);
    } else {
        lemma_decimal_form(n / 10);
        let t = decimal(n / 10);
        let s = decimal(n);
        assert(s == t.push(c));
        assert(s.drop_last() =~= t);
        assert(s.last() == c);
        assert(s[0] == t[0]);
        assert forall|i: int| 0 <= i < s.len() implies is_digit(#[trigger] s[i]) by {
            if i < t.len() {
                assert(s[i] == t[i]);
            }
        }
        if t.len() == 1 {
            assert(t.drop_last() =~= Seq::<char>::empty());
            assert(decimal_value(t.drop_last()) == 0);
            assert(digit_value(t[0]) == n / 10);
        }
    }
}

/// A piece without `sep` in front of a `sep` is the first piece of the
/// split, and the other pieces are those of what follows.
pub proof fn lemma_split_at(head: Seq<char>, rest: Seq<char>, sep: char)
    requires
        forall|j: int| 0 <= j < head.len() ==> head[j] != sep,
    ensures
        split(head + seq![sep] + rest, sep) == seq![head] + split(rest, sep),
{
    let s = head + seq![sep] + rest;
    lemma_prefix_len(s, sep, head.len() as int);
    assert(s.take(head.len() as int) =~= head);
    assert(s.skip(head.len() as int + 1) =~= rest);
}

/// A piece without `sep` is the only piece of its split.
pub proof fn lemma_split_whole(s: Seq<char>, sep: char)
    requires
        forall|j: int| 0 <= j < s.len() ==> s[j] != sep,
    ensures
        split(s, sep) == seq![s],
{
    lemma_prefix_len(s, sep, s.len() as int);
}

} // verus!
