//! Searching and splitting of texts: matches, prefixes, words, lines.

use vstd::prelude::*;

use crate::text::{count_span, lemma_span, skip, span, take, Class};

verus! {

/// Whether `pat` stands in `text` at position `i`.
pub open spec fn occurs_at(text: Seq<char>, pat: Seq<char>, i: int) -> bool {
    0 <= i && i + pat.len() <= text.len() && text.subrange(i, i + pat.len()) == pat
}

/// The first position at or after `from` where `pat` stands in `text`.
pub open spec fn first_match(text: Seq<char>, pat: Seq<char>, from: int) -> Option<int>
    decreases text.len() + 1 - from,
{
    if from < 0 || from + pat.len() > text.len() {
        None
    } else if occurs_at(text, pat, from) {
        Some(from)
    } else {
        first_match(text, pat, from + 1)
    }
}

/// Whether `pat` stands somewhere in `text`.
pub open spec fn contains_text(text: Seq<char>, pat: Seq<char>) -> bool {
    exists|i: int| occurs_at(text, pat, i)
}

/// What a first match is: an occurrence with none before it.
pub proof fn lemma_first_match(text: Seq<char>, pat: Seq<char>, from: int)
    requires
        0 <= from,
    ensures
        match first_match(text, pat, from) {
            Some(i) => from <= i && occurs_at(text, pat, i) && forall|j: int|
                from <= j < i ==> !occurs_at(text, pat, j),
            None => forall|j: int| from <= j ==> !occurs_at(text, pat, j),
        },
    decreases text.len() + 1 - from,
{
    if from + pat.len() <= text.len() && !occurs_at(text, pat, from) {
        lemma_first_match(text, pat, from + 1);
    }
}

/// Tests whether `pat` stands in `text` at position `i`.
pub fn matches_at(text: &[char], pat: &[char], i: usize) -> (r: bool)
    ensures
        r == occurs_at(text@, pat@, i as int),
{
    let len: usize = text.len();
    if i > len || pat.len() > len - i {
        return false;
    }
    let mut k: usize = 0;
    while k < pat.len()
        invariant
            k <= pat@.len(),
            len == text@.len(),
            i + pat@.len() <= len,
            forall|j: int| 0 <= j < k ==> text@[i + j] == #[trigger] pat@[j],
        decreases pat@.len() - k,
    {
        if text[i + k] != pat[k] {
            assert(text@.subrange(i as int, i + pat@.len())[k as int] != pat@[k as int]);
            return false;
        }
        k += 1;
    }
    assert(text@.subrange(i as int, i + pat@.len()) =~= pat@);
    true
}

/// Finds the first occurrence of `pat` in `text`.
pub fn find(text: &[char], pat: &[char]) -> (r: Option<usize>)
    ensures
        r is Some <==> first_match(text@, pat@, 0) is Some,
        r matches Some(i) ==> first_match(text@, pat@, 0) == Some(i as int) && i + pat@.len()
            <= text@.len(),
{
    let mut i: usize = 0;
    if pat.len() > text.len() {
        return None;
    }
    let last: usize = text.len() - pat.len();
    while i <= last
        invariant
            last == text@.len() - pat@.len(),
            i <= last + 1,
            first_match(text@, pat@, 0) == first_match(text@, pat@, i as int),
        decreases last + 1 - i,
    {
        if matches_at(text, pat, i) {
            return Some(i);
        }
        if i == last {
            assert(first_match(text@, pat@, i + 1) is None);
            return None;
        }
        i += 1;
    }
    None
}

/// Tests whether `pat` stands somewhere in `text`.
pub fn contains(text: &[char], pat: &[char]) -> (r: bool)
    ensures
        r == contains_text(text@, pat@),
{
    proof {
        lemma_first_match(text@, pat@, 0);
    }
    find(text, pat).is_some()
}

/// Tests whether `text` begins with `pat`.
pub fn starts_with(text: &[char], pat: &[char]) -> (r: bool)
    ensures
        r == pat@.is_prefix_of(text@),
{
    matches_at(text, pat, 0)
}

/// Tests whether `text` ends with `pat`.
pub fn ends_with(text: &[char], pat: &[char]) -> (r: bool)
    ensures
        r == pat@.is_suffix_of(text@),
{
    if pat.len() > text.len() {
        return false;
    }
    let at: usize = text.len() - pat.len();
    let r = matches_at(text, pat, at);
    assert(at + pat@.len() == text@.len());
    r
}

/// Tests whether two texts are the same.
pub fn same_text(a: &[char], b: &[char]) -> (r: bool)
    ensures
        r == (a@ == b@),
{
    let r = a.len() == b.len() && matches_at(a, b, 0);
    assert(a@.len() == b@.len() ==> a@.subrange(0, b@.len() as int) =~= a@);
    r
}

/// Tests whether two strings are the same.
pub fn same_str(a: &str, b: &str) -> (r: bool)
    ensures
        r == (a@ == b@),
{
    let a = crate::text::chars_of(a);
    let b = crate::text::chars_of(b);
    same_text(a.as_slice(), b.as_slice())
}

/// `s` after as many copies of `pat` as it begins with.
pub open spec fn strip_prefixes(s: Seq<char>, pat: Seq<char>) -> Seq<char>
    decreases s.len(),
{
    if pat.len() > 0 && pat.is_prefix_of(s) {
        strip_prefixes(s.skip(pat.len() as int), pat)
    } else {
        s
    }
}

/// Drops all the copies of `pat` that `s` begins with.
pub fn drop_prefixes<'a>(s: &'a [char], pat: &[char]) -> (r: &'a [char])
    requires
        pat@.len() > 0,
    ensures
        r@ == strip_prefixes(s@, pat@),
{
    let mut rest: &[char] = s;
    while starts_with(rest, pat)
        invariant
            pat@.len() > 0,
            strip_prefixes(rest@, pat@) == strip_prefixes(s@, pat@),
        decreases rest@.len(),
    {
        rest = skip(rest, pat.len());
    }
    rest
}

/// `s` before as many copies of `pat` as it ends with.
pub open spec fn strip_suffixes(s: Seq<char>, pat: Seq<char>) -> Seq<char>
    decreases s.len(),
{
    if pat.len() > 0 && pat.is_suffix_of(s) {
        strip_suffixes(s.take(s.len() - pat.len()), pat)
    } else {
        s
    }
}

/// Drops all the copies of `pat` that `s` ends with.
pub fn drop_suffixes<'a>(s: &'a [char], pat: &[char]) -> (r: &'a [char])
    requires
        pat@.len() > 0,
    ensures
        r@ == strip_suffixes(s@, pat@),
{
    let mut rest: &[char] = s;
    while ends_with(rest, pat)
        invariant
            pat@.len() > 0,
            strip_suffixes(rest@, pat@) == strip_suffixes(s@, pat@),
        decreases rest@.len(),
    {
        rest = take(rest, rest.len() - pat.len());
    }
    rest
}

/// What stands before and after the first `c` of `s`.
pub open spec fn split_at_first(s: Seq<char>, c: char) -> Option<(Seq<char>, Seq<char>)> {
    let n = span(s, Class::Except(c)) as int;
    if n < s.len() {
        Some((s.take(n), s.skip(n + 1)))
    } else {
        None
    }
}

/// Splits `s` at the first `c`.
pub fn split_once<'a>(s: &'a [char], c: char) -> (r: Option<(&'a [char], &'a [char])>)
    ensures
        match r {
            Some((a, b)) => split_at_first(s@, c) == Some((a@, b@)),
            None => split_at_first(s@, c) is None,
        },
{
    let n: usize = count_span(s, Class::Except(c));
    if n < s.len() {
        Some((take(s, n), skip(s, n + 1)))
    } else {
        None
    }
}

/// An ASCII capital made small; any other character unchanged.
pub open spec fn lower_char(c: char) -> char {
    if 'A' <= c <= 'Z' {
        (c as int + 32) as char
    } else {
        c
    }
}

/// `s` with its ASCII capitals made small.
pub open spec fn lowered(s: Seq<char>) -> Seq<char> {
    Seq::new(s.len(), |i: int| lower_char(s[i]))
}

/// Makes an ASCII capital small.
pub fn to_lower_char(c: char) -> (r: char)
    ensures
        r == lower_char(c),
{
    if 'A' <= c && c <= 'Z' {
        ((c as u8) + 32) as char
    } else {
        c
    }
}

/// Makes the ASCII capitals of `s` small.
pub fn to_lower(s: &[char]) -> (r: Vec<char>)
    ensures
        r@ == lowered(s@),
{
    let mut out: Vec<char> = Vec::new();
    let mut i: usize = 0;
    while i < s.len()
        invariant
            i <= s@.len(),
            out@.len() == i,
            forall|j: int| 0 <= j < i ==> #[trigger] out@[j] == lower_char(s@[j]),
        decreases s@.len() - i,
    {
        out.push(to_lower_char(s[i]));
        i += 1;
    }
    assert(out@ =~= lowered(s@));
    out
}

/// The pieces of `s` between runs of white space.
pub open spec fn words(s: Seq<char>) -> Seq<Seq<char>>
    decreases s.len(),
{
    if s.len() == 0 {
        seq![]
    } else if Class::Space.has(s[0]) {
        words(s.drop_first())
    } else {
        proof {
            lemma_span(s, Class::Word);
        }
        let n = span(s, Class::Word) as int;
        seq![s.take(n)] + words(s.skip(n))
    }
}

proof fn lemma_words_skip_space(s: Seq<char>, n: int)
    requires
        0 <= n <= s.len(),
        forall|i: int| 0 <= i < n ==> Class::Space.has(#[trigger] s[i]),
    ensures
        words(s) == words(s.skip(n)),
    decreases n,
{
    if n == 0 {
        assert(s.skip(0) =~= s);
    } else {
        let t = s.drop_first();
        assert forall|i: int| 0 <= i < n - 1 implies Class::Space.has(#[trigger] t[i]) by {
            assert(t[i] == s[i + 1]);
        }
        lemma_words_skip_space(t, n - 1);
        assert(t.skip(n - 1) =~= s.skip(n));
    }
}

/// The views of a list of slices.
pub open spec fn slice_views(pieces: Seq<&[char]>) -> Seq<Seq<char>> {
    Seq::new(pieces.len(), |i: int| pieces[i]@)
}

/// Splits `s` into its words.
pub fn split_words<'a>(s: &'a [char]) -> (out: Vec<&'a [char]>)
    ensures
        slice_views(out@) == words(s@),
{
    let mut out: Vec<&'a [char]> = Vec::new();
    let mut rest: &'a [char] = s;
    assert(slice_views(out@) + words(rest@) =~= words(s@));
    while rest.len() > 0
        invariant
            slice_views(out@) + words(rest@) == words(s@),
        decreases rest@.len(),
    {
        let blank: usize = count_span(rest, Class::Space);
        proof {
            lemma_span(rest@, Class::Space);
            lemma_words_skip_space(rest@, blank as int);
        }
        let from = skip(rest, blank);
        if from.len() > 0 {
            let n: usize = count_span(from, Class::Word);
            proof {
                lemma_span(from@, Class::Word);
            }
            let ghost before = out@;
            out.push(take(from, n));
            assert(slice_views(out@) =~= slice_views(before).push(from@.take(n as int)));
            rest = skip(from, n);
            assert(slice_views(out@) + words(rest@) =~= slice_views(before) + (seq![
                from@.take(n as int),
            ] + words(rest@)));
        } else {
            rest = from;
        }
    }
    assert(slice_views(out@) =~= words(s@));
    out
}

/// A line without the carriage return that may end it.
pub open spec fn strip_cr(s: Seq<char>) -> Seq<char> {
    if s.len() > 0 && s.last() == '\r' {
        s.drop_last()
    } else {
        s
    }
}

/// The lines of `s`: each ends at a line feed, which goes with a carriage return before it;
/// a last line may lack its line feed, and then keeps its carriage return.
pub open spec fn lines(s: Seq<char>) -> Seq<Seq<char>>
    decreases s.len(),
{
    if s.len() == 0 {
        seq![]
    } else {
        let n = span(s, Class::Except('\n')) as int;
        if n < s.len() {
            seq![strip_cr(s.take(n))] + lines(s.skip(n + 1))
        } else {
            seq![s]
        }
    }
}

/// Splits `s` into its lines.
pub fn split_lines<'a>(s: &'a [char]) -> (out: Vec<&'a [char]>)
    ensures
        slice_views(out@) == lines(s@),
{
    let mut out: Vec<&'a [char]> = Vec::new();
    let mut rest: &'a [char] = s;
    assert(slice_views(out@) + lines(rest@) =~= lines(s@));
    while rest.len() > 0
        invariant
            slice_views(out@) + lines(rest@) == lines(s@),
        decreases rest@.len(),
    {
        let n: usize = count_span(rest, Class::Except('\n'));
        let ghost before = out@;
        let ghost old_rest = rest@;
        if n < rest.len() {
            let line: &'a [char] = if n > 0 && rest[n - 1] == '\r' {
                take(rest, n - 1)
            } else {
                take(rest, n)
            };
            assert(line@ =~= strip_cr(rest@.take(n as int)));
            out.push(line);
            rest = skip(rest, n + 1);
            assert(slice_views(out@) =~= slice_views(before).push(line@));
            assert(slice_views(out@) + lines(rest@) =~= slice_views(before) + (seq![line@] + lines(
                rest@,
            )));
        } else {
            out.push(rest);
            assert(slice_views(out@) =~= slice_views(before).push(rest@));
            rest = skip(rest, n);
            assert(rest@ =~= seq![]);
            assert(slice_views(out@) + lines(rest@) =~= slice_views(before) + seq![old_rest]);
        }
    }
    assert(slice_views(out@) =~= lines(s@));
    out
}

} // verus!
