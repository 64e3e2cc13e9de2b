//! Text primitives over characters: classes, spans, searching, splitting, decimal numbers.
//!
//! A text is modelled as the sequence of its characters.

use vstd::prelude::*;

verus! {

/// Classes of characters that a span can be made of.
#[derive(Clone, Copy)]
pub enum Class {
    /// Unicode white space.
    Space,
    /// Anything but Unicode white space.
    Word,
    /// The ASCII digits.
    Digit,
    /// Anything but the given character.
    Except(char),
    /// This character alone.
    Only(char),
    /// Anything but `/` and `\\`.
    NotSlash,
}

/// The characters with the Unicode `White_Space` property.
pub open spec fn is_white_space(c: char) -> bool {
    ||| '\u{9}' <= c <= '\u{d}'
    ||| c == '\u{20}'
    ||| c == '\u{85}'
    ||| c == '\u{a0}'
    ||| c == '\u{1680}'
    ||| '\u{2000}' <= c <= '\u{200a}'
    ||| c == '\u{2028}'
    ||| c == '\u{2029}'
    ||| c == '\u{202f}'
    ||| c == '\u{205f}'
    ||| c == '\u{3000}'
}

/// The characters of the Unicode category `Cc`.
pub open spec fn is_control(c: char) -> bool {
    c <= '\u{1f}' || '\u{7f}' <= c <= '\u{9f}'
}

/// The ASCII digits.
pub open spec fn is_digit(c: char) -> bool {
    '0' <= c <= '9'
}

impl Class {
    /// Whether `c` belongs to the class.
    pub open spec fn has(self, c: char) -> bool {
        match self {
            Class::Space => is_white_space(c),
            Class::Word => !is_white_space(c),
            Class::Digit => is_digit(c),
            Class::Except(x) => c != x,
            Class::Only(x) => c == x,
            Class::NotSlash => c != '/' && c != '\\',
        }
    }

    /// Tests whether `c` belongs to the class.
    pub fn test(self, c: char) -> (r: bool)
        ensures
            r == self.has(c),
    {
        match self {
            Class::Space => white_space(c),
            Class::Word => !white_space(c),
            Class::Digit => '0' <= c && c <= '9',
            Class::Except(x) => c != x,
            Class::Only(x) => c == x,
            Class::NotSlash => c != '/' && c != '\\',
        }
    }
}

/// Tests for Unicode white space.
pub fn white_space(c: char) -> (r: bool)
    ensures
        r == is_white_space(c),
{
    ('\u{9}' <= c && c <= '\u{d}') || c == '\u{20}' || c == '\u{85}' || c == '\u{a0}' || c
        == '\u{1680}' || ('\u{2000}' <= c && c <= '\u{200a}') || c == '\u{2028}' || c == '\u{2029}'
        || c == '\u{202f}' || c == '\u{205f}' || c == '\u{3000}'
}

/// Tests for a control character.
pub fn control(c: char) -> (r: bool)
    ensures
        r == is_control(c),
{
    c <= '\u{1f}' || ('\u{7f}' <= c && c <= '\u{9f}')
}

/// The length of the longest prefix of `s` whose characters are all in `class`.
pub open spec fn span(s: Seq<char>, class: Class) -> nat
    decreases s.len(),
{
    if s.len() > 0 && class.has(s[0]) {
        1 + span(s.drop_first(), class)
    } else {
        0
    }
}

/// The length of the longest suffix of `s` whose characters are all in `class`.
pub open spec fn span_back(s: Seq<char>, class: Class) -> nat
    decreases s.len(),
{
    if s.len() > 0 && class.has(s.last()) {
        1 + span_back(s.drop_last(), class)
    } else {
        0
    }
}

/// What a span from the end is: a suffix inside the class that cannot be longer.
pub proof fn lemma_span_back(s: Seq<char>, class: Class)
    ensures
        span_back(s, class) <= s.len(),
        forall|i: int|
            s.len() - span_back(s, class) <= i < s.len() ==> class.has(#[trigger] s[i]),
        span_back(s, class) < s.len() ==> !class.has(s[s.len() - span_back(s, class) - 1]),
    decreases s.len(),
{
    if s.len() > 0 && class.has(s.last()) {
        let t = s.drop_last();
        lemma_span_back(t, class);
        assert forall|i: int| s.len() - span_back(s, class) <= i < s.len() implies class.has(
            #[trigger] s[i],
        ) by {
            if i < t.len() {
                assert(s[i] == t[i]);
            }
        }
    }
}

/// What a span is: a prefix inside the class that cannot be longer.
pub proof fn lemma_span(s: Seq<char>, class: Class)
    ensures
        span(s, class) <= s.len(),
        forall|i: int| 0 <= i < span(s, class) ==> class.has(#[trigger] s[i]),
        span(s, class) < s.len() ==> !class.has(s[span(s, class) as int]),
    decreases s.len(),
{
    if s.len() > 0 && class.has(s[0]) {
        let t = s.drop_first();
        lemma_span(t, class);
        assert forall|i: int| 0 <= i < span(s, class) implies class.has(#[trigger] s[i]) by {
            if i > 0 {
                assert(s[i] == t[i - 1]);
            }
        }
        if span(s, class) < s.len() {
            assert(s[span(s, class) as int] == t[span(t, class) as int]);
        }
    }
}

/// A prefix inside the class that cannot be longer is the span.
pub proof fn lemma_span_is(s: Seq<char>, class: Class, n: int)
    requires
        0 <= n <= s.len(),
        forall|i: int| 0 <= i < n ==> class.has(#[trigger] s[i]),
        n < s.len() ==> !class.has(s[n]),
    ensures
        span(s, class) == n,
{
    lemma_span(s, class);
    if span(s, class) < n {
        assert(class.has(s[span(s, class) as int]));
    }
    if n < span(s, class) {
        assert(class.has(s[n]));
    }
}

/// A suffix inside the class that cannot be longer is the span from the back.
pub proof fn lemma_span_back_is(s: Seq<char>, class: Class, n: int)
    requires
        0 <= n <= s.len(),
        forall|i: int| n <= i < s.len() ==> class.has(#[trigger] s[i]),
        n > 0 ==> !class.has(s[n - 1]),
    ensures
        span_back(s, class) == s.len() - n,
    decreases s.len(),
{
    if n < s.len() {
        assert(class.has(s[s.len() - 1]));
        lemma_span_back_is(s.drop_last(), class, n);
    }
}

/// Counts the leading characters of `s` that are in `class`.
pub fn count_span(s: &[char], class: Class) -> (n: usize)
    ensures
        n == span(s@, class),
        n <= s@.len(),
{
    let mut n: usize = 0;
    while n < s.len() && class.test(s[n])
        invariant
            n <= s@.len(),
            forall|i: int| 0 <= i < n ==> class.has(#[trigger] s@[i]),
        decreases s@.len() - n,
    {
        n += 1;
    }
    proof {
        lemma_span_is(s@, class, n as int);
    }
    n
}

/// Counts the trailing characters of `s` that are in `class`.
pub fn count_span_back(s: &[char], class: Class) -> (k: usize)
    ensures
        k == span_back(s@, class),
        k <= s@.len(),
        k < s@.len() ==> !class.has(s@[s@.len() - k - 1]),
        forall|i: int| s@.len() - k <= i < s@.len() ==> class.has(#[trigger] s@[i]),
{
    let mut n: usize = s.len();
    while n > 0 && class.test(s[n - 1])
        invariant
            n <= s@.len(),
            forall|i: int| n <= i < s@.len() ==> class.has(#[trigger] s@[i]),
        decreases n,
    {
        n -= 1;
    }
    proof {
        lemma_span_back_is(s@, class, n as int);
    }
    s.len() - n
}

/// Everything after the first `n` characters.
pub fn skip(s: &[char], n: usize) -> (r: &[char])
    requires
        n <= s@.len(),
    ensures
        r@ == s@.skip(n as int),
{
    let r = vstd::slice::slice_subrange(s, n, s.len());
    assert(r@ =~= s@.skip(n as int));
    r
}

/// The first `n` characters.
pub fn take(s: &[char], n: usize) -> (r: &[char])
    requires
        n <= s@.len(),
    ensures
        r@ == s@.take(n as int),
{
    let r = vstd::slice::slice_subrange(s, 0, n);
    assert(r@ =~= s@.take(n as int));
    r
}

/// `s` without the white space around it.
pub open spec fn trimmed(s: Seq<char>) -> Seq<char> {
    let t = s.skip(span(s, Class::Space) as int);
    t.take(t.len() - span_back(t, Class::Space))
}

/// Drops the white space around `s`.
pub fn trim(s: &[char]) -> (r: &[char])
    ensures
        r@ == trimmed(s@),
{
    let start: usize = count_span(s, Class::Space);
    let t = skip(s, start);
    let end: usize = count_span_back(t, Class::Space);
    take(t, t.len() - end)
}

/// The characters of `text`, in order.
pub fn chars_of(text: &str) -> (out: Vec<char>)
    ensures
        out@ == text@,
{
    let mut out: Vec<char> = Vec::new();
    for c in it: text.chars()
        invariant
            out@ == it.seq().take(it.index() as int),
            it.seq() == text@,
    {
        out.push(c);
    }
    out
}

/// `String::push` appends one character and leaves what was there as it was.
pub assume_specification[ String::push ](s: &mut String, c: char)
    ensures
        final(s)@ == old(s)@.push(c),
;

/// Appends `chars` to `out`.
pub fn push_chars(out: &mut String, chars: &[char])
    ensures
        final(out)@ == old(out)@ + chars@,
{
    let mut i: usize = 0;
    assert(old(out)@ + chars@.take(0) =~= old(out)@);
    while i < chars.len()
        invariant
            i <= chars@.len(),
            out@ == old(out)@ + chars@.take(i as int),
        decreases chars@.len() - i,
    {
        out.push(chars[i]);
        i += 1;
        assert(old(out)@ + chars@.take(i as int) =~= (old(out)@ + chars@.take(i - 1)).push(
            chars@[i - 1],
        ));
    }
    assert(chars@.take(i as int) =~= chars@);
}

/// The string made of `chars`.
pub fn string_of(chars: &[char]) -> (out: String)
    ensures
        out@ == chars@,
{
    let mut out = String::new();
    push_chars(&mut out, chars);
    assert(out@ =~= chars@);
    out
}

/// `a` followed by `b`.
pub fn concat2(a: &str, b: &str) -> (out: String)
    ensures
        out@ == a@ + b@,
{
    let mut out = a.to_owned();
    out.append(b);
    out
}

/// `a`, `b` and `c`, one after the other.
pub fn concat3(a: &str, b: &str, c: &str) -> (out: String)
    ensures
        out@ == a@ + b@ + c@,
{
    let mut out = a.to_owned();
    out.append(b);
    out.append(c);
    out
}

/// The decimal digit of value `d`.
pub open spec fn digit_char(d: nat) -> char {
    ('0' as nat + d) as char
}

/// The value of a decimal digit.
pub open spec fn digit_value(c: char) -> nat {
    (c as int - '0' as int) as nat
}

/// `n` written in decimal, without leading zeros.
pub open spec fn decimal(n: nat) -> Seq<char>
    decreases n,
{
    if n < 10 {
        seq![digit_char(n)]
    } else {
        decimal(n / 10).push(digit_char(n % 10))
    }
}

/// Appends `n` in decimal.
pub fn push_decimal(out: &mut String, n: u64)
    ensures
        final(out)@ == old(out)@ + decimal(n as nat),
    decreases n,
{
    if n >= 10 {
        push_decimal(out, n / 10);
    }
    let d: u8 = (n % 10) as u8;
    out.push((48u8 + d) as char);
}

/// `prefix` followed by `n` in decimal.
pub fn with_number(prefix: &str, n: u64) -> (out: String)
    ensures
        out@ == prefix@ + decimal(n as nat),
{
    let mut out = prefix.to_owned();
    push_decimal(&mut out, n);
    out
}

/// Whether every character is a decimal digit.
pub open spec fn all_digits(s: Seq<char>) -> bool {
    forall|i: int| 0 <= i < s.len() ==> is_digit(#[trigger] s[i])
}

/// The number that a sequence of digits denotes.
pub open spec fn digits_value(s: Seq<char>) -> nat
    decreases s.len(),
{
    if s.len() == 0 {
        0
    } else {
        digits_value(s.drop_last()) * 10 + digit_value(s.last())
    }
}

/// The digits of a number as `str::parse` accepts them: after an optional `+`.
pub open spec fn unsigned_digits(s: Seq<char>) -> Seq<char> {
    if s.len() > 0 && s[0] == '+' {
        s.drop_first()
    } else {
        s
    }
}

/// The unsigned number that `s` spells, if it spells one of at most `max`.
pub open spec fn parsed(s: Seq<char>, max: nat) -> Option<nat> {
    let d = unsigned_digits(s);
    if d.len() > 0 && all_digits(d) && digits_value(d) <= max {
        Some(digits_value(d))
    } else {
        None
    }
}

proof fn lemma_digits_value_grows(s: Seq<char>, n: int)
    requires
        0 <= n <= s.len(),
    ensures
        digits_value(s.take(n)) <= digits_value(s),
    decreases s.len() - n,
{
    if n == s.len() {
        assert(s.take(n) =~= s);
    } else {
        lemma_digits_value_grows(s, n + 1);
        assert(s.take(n + 1).drop_last() =~= s.take(n));
    }
}

/// Reads an unsigned number of at most `max`.
pub fn parse_unsigned(s: &[char], max: u64) -> (r: Option<u64>)
    ensures
        r is Some <==> parsed(s@, max as nat) is Some,
        r matches Some(n) ==> parsed(s@, max as nat) == Some(n as nat),
{
    let d: &[char] = if s.len() > 0 && s[0] == '+' {
        skip(s, 1)
    } else {
        s
    };
    assert(d@ =~= unsigned_digits(s@));
    if d.len() == 0 {
        return None;
    }
    let mut value: u64 = 0;
    let mut i: usize = 0;
    while i < d.len()
        invariant
            i <= d@.len(),
            d@ == unsigned_digits(s@),
            forall|j: int| 0 <= j < i ==> is_digit(#[trigger] d@[j]),
            value == digits_value(d@.take(i as int)),
            value <= max,
        decreases d@.len() - i,
    {
        let c: char = d[i];
        if !(c >= '0' && c <= '9') {
            assert(!is_digit(d@[i as int]));
            return None;
        }
        let v: u128 = value as u128 * 10 + (c as u32 - 48) as u128;
        proof {
            assert(d@.take(i + 1).drop_last() =~= d@.take(i as int));
            lemma_digits_value_grows(d@, i + 1);
        }
        if v > max as u128 {
            return None;
        }
        value = v as u64;
        i += 1;
    }
    assert(d@.take(i as int) =~= d@);
    Some(value)
}

/// Reads a `u32`.
pub fn parse_u32(s: &[char]) -> (r: Option<u32>)
    ensures
        r is Some <==> parsed(s@, u32::MAX as nat) is Some,
        r matches Some(n) ==> parsed(s@, u32::MAX as nat) == Some(n as nat),
{
    match parse_unsigned(s, u32::MAX as u64) {
        Some(n) => Some(n as u32),
        None => None,
    }
}

/// Reads a `u64`.
pub fn parse_u64(s: &[char]) -> (r: Option<u64>)
    ensures
        r is Some <==> parsed(s@, u64::MAX as nat) is Some,
        r matches Some(n) ==> parsed(s@, u64::MAX as nat) == Some(n as nat),
{
    parse_unsigned(s, u64::MAX)
}

/// What is written in decimal is digits, and denotes the number.
pub proof fn lemma_decimal_digits(n: nat)
    ensures
        decimal(n).len() > 0,
        all_digits(decimal(n)),
        digits_value(decimal(n)) == n,
    decreases n,
{
    reveal_with_fuel(digits_value, 2);
    if n >= 10 {
        lemma_decimal_digits(n / 10);
        assert(decimal(n).drop_last() =~= decimal(n / 10));
    }
}

/// A number written in decimal reads back as itself, as long as it is in range.
pub proof fn law_decimal_reads_back(n: nat, max: nat)
    requires
        n <= max,
    ensures
        parsed(decimal(n), max) == Some(n),
{
    lemma_decimal_digits(n);
    assert(is_digit(decimal(n)[0]));
}

} // verus!
