//! Laws of the text primitives: how they take texts apart that were put together, and what the
//! parts are made of.

use vstd::prelude::*;

use crate::scan::{
    first_match, lemma_first_match, lines, lowered, occurs_at, slice_views, split_at_first,
    strip_prefixes, strip_suffixes, words,
};
use crate::text::{
    all_digits, decimal, digits_value, is_control, is_digit, is_white_space, lemma_decimal_digits,
    lemma_span, lemma_span_back, lemma_span_is, parsed, span, span_back, trimmed, unsigned_digits,
    Class,
};

verus! {

/// White space is what Unicode says it is: 25 characters, by their numbers.
pub proof fn law_white_space(c: char)
    ensures
        is_white_space(c) <==> {
            let n = c as int;
            ||| n == 0x20
            ||| 0x09 <= n <= 0x0d
            ||| n == 0x85
            ||| n == 0xa0
            ||| n == 0x1680
            ||| 0x2000 <= n <= 0x200a
            ||| n == 0x2028
            ||| n == 0x2029
            ||| n == 0x202f
            ||| n == 0x205f
            ||| n == 0x3000
        },
{
}

/// The control characters are those below the space, and those from delete on up to the Latin
/// letters.
pub proof fn law_control(c: char)
    ensures
        is_control(c) <==> (c as int) < 0x20 || 0x7f <= (c as int) < 0xa0,
{
}

/// A text is its trimmed form with white space around it, and the trimmed form neither begins nor
/// ends with any.
pub proof fn law_trimmed(s: Seq<char>)
    ensures
        exists|from: int, to: int|
            {
                &&& 0 <= from <= to <= s.len()
                &&& trimmed(s) == #[trigger] s.subrange(from, to)
                &&& forall|i: int| 0 <= i < from ==> is_white_space(#[trigger] s[i])
                &&& forall|i: int| to <= i < s.len() ==> is_white_space(#[trigger] s[i])
            },
        trimmed(s).len() > 0 ==> !is_white_space(trimmed(s)[0]) && !is_white_space(
            trimmed(s).last(),
        ),
{
    let class = Class::Space;
    let from = span(s, class) as int;
    let t = s.skip(from);
    lemma_span(s, class);
    lemma_span_back(t, class);
    let k = span_back(t, class) as int;
    let to = s.len() - k;
    assert(trimmed(s) =~= s.subrange(from, to));
    assert forall|i: int| 0 <= i < from implies is_white_space(#[trigger] s[i]) by {
        assert(class.has(s[i]));
    }
    assert forall|i: int| to <= i < s.len() implies is_white_space(#[trigger] s[i]) by {
        assert(s[i] == t[i - from]);
        assert(class.has(t[i - from]));
    }
    if trimmed(s).len() > 0 {
        assert(trimmed(s)[0] == s[from]);
        assert(!class.has(s[from]));
        assert(trimmed(s).last() == t[t.len() - k - 1]);
        assert(!class.has(t[t.len() - k - 1]));
    }
}

/// The number that digits spell: one digit is worth its distance from `0`, and a digit more makes
/// what stood before it worth ten times as much.
pub proof fn law_digits_are_read(s: Seq<char>, c: char, max: nat)
    requires
        '0' <= c <= '9',
        forall|i: int| 0 <= i < s.len() ==> '0' <= #[trigger] s[i] <= '9',
    ensures
        s.len() == 0 ==> parsed(s.push(c), max) == if c as int - '0' as int <= max {
            Some((c as int - '0' as int) as nat)
        } else {
            None
        },
        parsed(s, max) matches Some(n) ==> parsed(s.push(c), max) == if 10 * n + (c as int
            - '0' as int) <= max {
            Some((10 * n + (c as int - '0' as int)) as nat)
        } else {
            None
        },
        s.len() > 0 && parsed(s, max) is None ==> parsed(s.push(c), max) is None,
{
    reveal_with_fuel(digits_value, 2);
    let t = s.push(c);
    assert(t.drop_last() =~= s);
    assert(t[0] != '+');
    assert(unsigned_digits(t) == t);
    assert(unsigned_digits(s) == s) by {
        if s.len() > 0 {
            assert('0' <= s[0]);
        }
    }
    assert forall|i: int| 0 <= i < t.len() implies is_digit(#[trigger] t[i]) by {
        if i < s.len() {
            assert(t[i] == s[i]);
        }
    }
    assert(all_digits(t));
    assert(all_digits(s));
}

/// A plus sign before the digits changes nothing; any other character but digits spells no number,
/// nor does a second sign, nor nothing at all.
pub proof fn law_only_digits_are_read(s: Seq<char>, i: int, max: nat)
    ensures
        s.len() > 0 && '0' <= s[0] <= '9' ==> parsed(seq!['+'] + s, max) == parsed(s, max),
        0 < i < s.len() && !('0' <= s[i] <= '9') ==> parsed(s, max) is None,
        s.len() > 0 && s[0] != '+' && !('0' <= s[0] <= '9') ==> parsed(s, max) is None,
        s.len() == 0 || s == seq!['+'] ==> parsed(s, max) is None,
{
    assert((seq!['+'] + s).drop_first() =~= s);
    if 0 < i < s.len() && !('0' <= s[i] <= '9') {
        let d = unsigned_digits(s);
        if s[0] == '+' {
            assert(d[i - 1] == s[i]);
        } else {
            assert(d[i] == s[i]);
        }
        assert(!all_digits(d));
    }
    if s.len() > 0 && s[0] != '+' && !('0' <= s[0] <= '9') {
        assert(!is_digit(unsigned_digits(s)[0]));
    }
}

/// A number is written without leading zeros, and every digit more is worth a tenth.
pub proof fn law_decimal(n: nat, d: nat)
    requires
        d < 10,
    ensures
        decimal(d) == seq![('0' as int + d) as char],
        n > 0 ==> decimal(10 * n + d) == decimal(n) + decimal(d),
        n > 0 ==> decimal(n)[0] != '0',
    decreases n,
{
    assert((10 * n + d) / 10 == n);
    assert((10 * n + d) % 10 == d);
    if n > 0 {
        assert(decimal(10 * n + d) =~= decimal(n) + decimal(d));
        if n >= 10 {
            law_decimal(n / 10, 0);
            lemma_decimal_digits(n / 10);
            assert(decimal(n)[0] == decimal(n / 10)[0]);
        }
    }
}

/// The 26 capitals of ASCII become the small letters 32 further on; no other character changes.
pub proof fn law_lowered(s: Seq<char>, i: int)
    requires
        0 <= i < s.len(),
    ensures
        lowered(s).len() == s.len(),
        65 <= s[i] as int <= 90 ==> lowered(s)[i] as int == s[i] as int + 32,
        !(65 <= s[i] as int <= 90) ==> lowered(s)[i] == s[i],
{
}

/// A text splits at the first occurrence of a character, and only where it occurs.
pub proof fn law_split_at_first(a: Seq<char>, c: char, b: Seq<char>)
    requires
        !a.contains(c),
    ensures
        split_at_first(a + seq![c] + b, c) == Some((a, b)),
        split_at_first(a, c) is None,
{
    let s = a + seq![c] + b;
    let class = Class::Except(c);
    assert forall|i: int| 0 <= i < a.len() implies class.has(#[trigger] s[i]) by {
        assert(s[i] == a[i]);
        if a[i] == c {
            assert(a.contains(c));
        }
    }
    assert(s[a.len() as int] == c);
    lemma_span_is(s, class, a.len() as int);
    assert(s.take(a.len() as int) =~= a);
    assert(s.skip(a.len() as int + 1) =~= b);
    assert forall|i: int| 0 <= i < a.len() implies class.has(#[trigger] a[i]) by {
        if a[i] == c {
            assert(a.contains(c));
        }
    }
    lemma_span_is(a, class, a.len() as int);
}

/// Each copy at the front is dropped, and where there is none nothing is.
pub proof fn law_strip_prefixes(s: Seq<char>, pat: Seq<char>)
    requires
        pat.len() > 0,
    ensures
        strip_prefixes(pat + s, pat) == strip_prefixes(s, pat),
        !pat.is_prefix_of(s) ==> strip_prefixes(s, pat) == s,
{
    let t = pat + s;
    assert(t.subrange(0, pat.len() as int) =~= pat);
    assert(t.skip(pat.len() as int) =~= s);
}

/// Each copy at the end is dropped, and where there is none nothing is.
pub proof fn law_strip_suffixes(s: Seq<char>, pat: Seq<char>)
    requires
        pat.len() > 0,
    ensures
        strip_suffixes(s + pat, pat) == strip_suffixes(s, pat),
        !pat.is_suffix_of(s) ==> strip_suffixes(s, pat) == s,
{
    let t = s + pat;
    assert(t.subrange(t.len() - pat.len(), t.len() as int) =~= pat);
    assert(t.take(t.len() - pat.len()) =~= s);
}

/// A text without white space is one word; white space parts words and is no part of any.
pub proof fn law_words(a: Seq<char>, space: char, b: Seq<char>)
    requires
        is_white_space(space),
    ensures
        words(a + seq![space] + b) == words(a) + words(b),
        words(seq![]) == Seq::<Seq<char>>::empty(),
        a.len() > 0 && (forall|i: int| 0 <= i < a.len() ==> !is_white_space(#[trigger] a[i]))
            ==> words(a) == seq![a],
    decreases a.len(),
{
    let s = a + seq![space] + b;
    if a.len() == 0 {
        assert(s[0] == space);
        assert(s.drop_first() =~= b);
        assert(words(a) + words(b) =~= words(b));
    } else if is_white_space(a[0]) {
        assert(s[0] == a[0]);
        assert(s.drop_first() =~= a.drop_first() + seq![space] + b);
        law_words(a.drop_first(), space, b);
    } else {
        let class = Class::Word;
        lemma_span(a, class);
        let n = span(a, class) as int;
        assert forall|i: int| 0 <= i < n implies class.has(#[trigger] s[i]) by {
            assert(s[i] == a[i]);
            assert(class.has(a[i]));
        }
        if n < a.len() {
            assert(s[n] == a[n]);
            assert(!class.has(a[n]));
        } else {
            assert(s[n] == space);
        }
        assert(s[0] == a[0]);
        assert(!class.has(s[n]));
        lemma_span_is(s, class, n);
        if n == 0 {
            assert(class.has(a[0]));
        }
        assert(s.take(n) =~= a.take(n));
        assert(s.skip(n) =~= a.skip(n) + seq![space] + b);
        law_words(a.skip(n), space, b);
        assert(words(s) =~= words(a) + words(b));
        if forall|i: int| 0 <= i < a.len() ==> !is_white_space(#[trigger] a[i]) {
            if n < a.len() {
                assert(!is_white_space(a[n]));
            }
            assert(a.take(n) =~= a);
            assert(a.skip(n) =~= seq![]);
            assert(words(a) =~= seq![a]);
        }
    }
}

/// A line feed ends a line, and a carriage return right before it goes with it; what follows the
/// last line feed is a line of its own, unless it is empty.
pub proof fn law_lines(a: Seq<char>, b: Seq<char>)
    requires
        !a.contains('\n'),
    ensures
        a.len() == 0 || a.last() != '\r' ==> lines(a + seq!['\n'] + b) == seq![a] + lines(b),
        lines(a + seq!['\r', '\n'] + b) == seq![a] + lines(b),
        a.len() > 0 ==> lines(a) == seq![a],
        lines(seq![]) == Seq::<Seq<char>>::empty(),
{
    lemma_line(a, b);
    let c = a.push('\r');
    assert(!c.contains('\n')) by {
        if c.contains('\n') {
            let i = choose|i: int| 0 <= i < c.len() && c[i] == '\n';
            assert(a[i] == '\n');
        }
    }
    lemma_line(c, b);
    assert(c + seq!['\n'] + b =~= a + seq!['\r', '\n'] + b);
    assert(c.drop_last() =~= a);
    if a.len() > 0 {
        assert forall|i: int| 0 <= i < a.len() implies Class::Except('\n').has(
            #[trigger] a[i],
        ) by {
            if a[i] == '\n' {
                assert(a.contains('\n'));
            }
        }
        lemma_span_is(a, Class::Except('\n'), a.len() as int);
    }
}

proof fn lemma_line(a: Seq<char>, b: Seq<char>)
    requires
        !a.contains('\n'),
    ensures
        lines(a + seq!['\n'] + b) == seq![crate::scan::strip_cr(a)] + lines(b),
{
    let s = a + seq!['\n'] + b;
    let class = Class::Except('\n');
    assert forall|i: int| 0 <= i < a.len() implies class.has(#[trigger] s[i]) by {
        assert(s[i] == a[i]);
        if a[i] == '\n' {
            assert(a.contains('\n'));
        }
    }
    assert(s[a.len() as int] == '\n');
    lemma_span_is(s, class, a.len() as int);
    assert(s.take(a.len() as int) =~= a);
    assert(s.skip(a.len() as int + 1) =~= b);
}

/// A text stands at a position where all its characters stand from there on, each the very same;
/// the first match is the first such position.
pub proof fn law_first_match(text: Seq<char>, pat: Seq<char>, at: int)
    ensures
        occurs_at(text, pat, at) <==> {
            &&& 0 <= at <= text.len() - pat.len()
            &&& forall|k: int| 0 <= k < pat.len() ==> #[trigger] pat[k] == text[at + k]
        },
        first_match(text, pat, 0) == Some(at) <==> {
            &&& occurs_at(text, pat, at)
            &&& forall|j: int| 0 <= j < at ==> !#[trigger] occurs_at(text, pat, j)
        },
{
    lemma_first_match(text, pat, 0);
    if 0 <= at <= text.len() - pat.len() {
        let here = text.subrange(at, at + pat.len());
        assert forall|k: int| 0 <= k < pat.len() implies here[k] == text[at + k] by {}
        if forall|k: int| 0 <= k < pat.len() ==> #[trigger] pat[k] == text[at + k] {
            assert(here =~= pat);
        }
        if here == pat {
            assert forall|k: int| 0 <= k < pat.len() implies #[trigger] pat[k] == text[at + k] by {
                assert(here[k] == text[at + k]);
            }
        }
    }
    if occurs_at(text, pat, at) && forall|j: int|
        0 <= j < at ==> !#[trigger] occurs_at(text, pat, j) {
        let first = first_match(text, pat, 0);
        if let Some(i) = first {
            assert(occurs_at(text, pat, i));
        }
    }
}

/// What the classes of characters hold.
pub proof fn law_classes(c: char, x: char)
    ensures
        Class::Space.has(c) <==> is_white_space(c),
        Class::Word.has(c) <==> !is_white_space(c),
        Class::Digit.has(c) <==> 48 <= c as int <= 57,
        Class::Except(x).has(c) <==> c != x,
        Class::Only(x).has(c) <==> c == x,
        Class::NotSlash.has(c) <==> c as int != 47 && c as int != 92,
{
}

/// Pieces are read one by one, in order.
pub proof fn law_pieces_are_read(pieces: Seq<&[char]>, i: int)
    requires
        0 <= i < pieces.len(),
    ensures
        slice_views(pieces).len() == pieces.len(),
        slice_views(pieces)[i] == pieces[i]@,
{
}

} // verus!
