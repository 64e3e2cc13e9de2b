//! The names that the recorder gives its files: recordings, conversions and clips.

use vstd::prelude::*;

use crate::convert::mp4_name_of;
use crate::names::{
    components, convertible_name, extension_of, file_name_of, has_extension, media_name,
    recording_name, safe_name, stem, stem_len, stem_or_self,
};
use crate::text::{
    all_digits, concat3, decimal, digit_char, is_digit, lemma_decimal_digits, lemma_span_back_is,
    lemma_span_is, push_decimal, Class,
};

verus! {

/// Whether a text is a date and time of the form `<year>-MM-DD_HH-MM-SS`; a year of more than
/// four digits, or before the year 0, has a sign.
pub open spec fn is_stamp(s: Seq<char>) -> bool {
    let n = s.len() - 15;
    &&& n >= 4
    &&& forall|i: int| 0 < i < n ==> is_digit(#[trigger] s[i])
    &&& is_digit(s[0]) || s[0] == '+' || s[0] == '-'
    &&& s[n] == '-' && is_digit(s[n + 1]) && is_digit(s[n + 2])
    &&& s[n + 3] == '-' && is_digit(s[n + 4]) && is_digit(s[n + 5])
    &&& s[n + 6] == '_' && is_digit(s[n + 7]) && is_digit(s[n + 8])
    &&& s[n + 9] == '-' && is_digit(s[n + 10]) && is_digit(s[n + 11])
    &&& s[n + 12] == '-' && is_digit(s[n + 13]) && is_digit(s[n + 14])
}

/// `chrono::Local::now` and `DateTime::format`: the time on the user's clock, written after the
/// given pattern. Only the form of the text is claimed; which time it is depends on the machine.
#[verifier::external_body]
fn local_time(pattern: &str) -> (r: String)
    requires
        pattern@ == "%Y-%m-%d_%H-%M-%S"@,
    ensures
        is_stamp(r@),
{
    chrono::Local::now().format(pattern).to_string()
}

/// The name of the recording that began at the given time.
pub open spec fn recording_at(stamp: Seq<char>) -> Seq<char> {
    "discord-"@ + stamp + ".mkv"@
}

/// Names the recording that begins at the given time.
pub fn name_recording(stamp: &str) -> (r: String)
    ensures
        r@ == recording_at(stamp@),
{
    concat3("discord-", stamp, ".mkv")
}

/// Names the recording that begins now.
pub fn new_recording_name() -> (r: String)
    ensures
        exists|stamp: Seq<char>| #[trigger] recording_at(stamp) == r@ && is_stamp(stamp),
{
    let stamp = local_time("%Y-%m-%d_%H-%M-%S");
    let r = name_recording(stamp.as_str());
    assert(recording_at(stamp@) == r@);
    r
}

/// `n` in `k` decimal digits, with leading zeros.
pub open spec fn padded(n: nat, k: nat) -> Seq<char>
    decreases k,
{
    if k == 0 {
        seq![]
    } else {
        padded(n / 10, (k - 1) as nat).push(digit_char(n % 10))
    }
}

/// `n` in `k` decimal digits, with leading zeros, but without zeros at the end.
pub open spec fn fraction(n: nat, k: nat) -> Seq<char>
    decreases k,
{
    if k == 0 {
        seq![]
    } else if n % 10 == 0 {
        fraction(n / 10, (k - 1) as nat)
    } else {
        padded(n, k)
    }
}

/// A time in nanoseconds, written in seconds; with a fraction where there is one.
pub open spec fn seconds(ns: nat) -> Seq<char> {
    if ns % 1_000_000_000 == 0 {
        decimal(ns / 1_000_000_000)
    } else {
        decimal(ns / 1_000_000_000) + seq!['.'] + fraction(ns % 1_000_000_000, 9)
    }
}

fn push_padded(out: &mut String, n: u64, k: u8)
    ensures
        final(out)@ == old(out)@ + padded(n as nat, k as nat),
    decreases k,
{
    if k > 0 {
        push_padded(out, n / 10, k - 1);
        let d: u8 = (n % 10) as u8;
        out.push((48u8 + d) as char);
        assert(out@ =~= old(out)@ + padded(n as nat, k as nat));
    } else {
        assert(out@ =~= old(out)@ + padded(n as nat, k as nat));
    }
}

fn push_fraction(out: &mut String, n: u64, k: u8)
    ensures
        final(out)@ == old(out)@ + fraction(n as nat, k as nat),
    decreases k,
{
    if k == 0 {
        assert(out@ =~= old(out)@ + fraction(n as nat, k as nat));
    } else if n % 10 == 0 {
        push_fraction(out, n / 10, k - 1);
    } else {
        push_padded(out, n, k);
    }
}

/// Appends a time in nanoseconds, written in seconds.
pub fn push_seconds(out: &mut String, ns: u64)
    ensures
        final(out)@ == old(out)@ + seconds(ns as nat),
{
    push_decimal(out, ns / 1_000_000_000);
    let part: u64 = ns % 1_000_000_000;
    if part != 0 {
        out.push('.');
        push_fraction(out, part, 9);
    }
    assert(out@ =~= old(out)@ + seconds(ns as nat));
}

/// What the name of a clip begins with: the stem of its file, and the height of the picture where
/// one was asked for.
pub open spec fn clip_head(stem: Seq<char>, height: Option<u32>) -> Seq<char> {
    match height {
        Some(h) => stem + "_clip"@ + "_"@ + (decimal(h as nat) + "p"@),
        None => stem + "_"@ + "clip"@,
    }
}

/// The name of the clip of a file between two times in nanoseconds:
/// `<stem>_clip_<start>-<end>s.mp4`, with the times in seconds; where a height was asked for,
/// `<stem>_clip_<height>p_<start>-<end>s.mp4`.
pub open spec fn clip_of(
    input_name: Seq<char>,
    start_ns: nat,
    stop_ns: nat,
    height: Option<u32>,
) -> Seq<char> {
    clip_head(stem_or_self(input_name), height) + "_"@ + seconds(start_ns) + "-"@ + seconds(stop_ns)
        + "s.mp4"@
}

/// Names the clip of a file between two times: readable, and different for every window and
/// height.
pub fn name_clip(
    input_name: &str,
    start_ns: u64,
    stop_ns: u64,
    height: Option<u32>,
) -> (r: String)
    ensures
        r@ == clip_of(input_name@, start_ns as nat, stop_ns as nat, height),
{
    let mut r = stem(input_name).to_owned();
    match height {
        Some(h) => {
            r.append("_clip");
            r.append("_");
            let ghost before = r@;
            push_decimal(&mut r, h as u64);
            r.append("p");
            assert(r@ =~= before + (decimal(h as nat) + "p"@));
        },
        None => {
            r.append("_");
            r.append("clip");
        },
    }
    r.append("_");
    push_seconds(&mut r, start_ns);
    r.append("-");
    push_seconds(&mut r, stop_ns);
    r.append("s.mp4");
    r
}

/// A plain name with a dot in it, after its first character, has for its extension what follows
/// the last dot.
proof fn lemma_plain_name(name: Seq<char>)
    requires
        safe_name(name),
        name != seq!['.'],
        name != seq!['.', '.'],
    ensures
        file_name_of(name, Class::Except('/')) == Some(name),
{
    let class = Class::Except('/');
    assert forall|i: int| 0 <= i < name.len() implies class.has(#[trigger] name[i]) by {}
    lemma_span_is(name, class, name.len() as int);
    assert(name.take(name.len() as int) =~= name);
    reveal_with_fuel(components, 2);
    assert(components(name, class) =~= seq![name]);
}

proof fn lemma_extension(base: Seq<char>, ext: Seq<char>)
    requires
        safe_name(base),
        safe_name(ext),
        forall|i: int| 0 <= i < ext.len() ==> #[trigger] ext[i] != '.',
    ensures
        safe_name(base + seq!['.'] + ext),
        extension_of(base + seq!['.'] + ext, Class::Except('/')) == Some(ext),
{
    let name = base + seq!['.'] + ext;
    assert forall|i: int| 0 <= i < name.len() implies name[i] != '/' && name[i] != '\\'
        && !crate::text::is_control(#[trigger] name[i]) by {
        if i < base.len() {
            assert(name[i] == base[i]);
        } else if i > base.len() {
            assert(name[i] == ext[i - base.len() - 1]);
        }
    }
    assert(name.last() == ext.last());
    assert(ext[ext.len() - 1] != '.');
    lemma_plain_name(name);
    let n = base.len() + 1;
    assert forall|i: int| n <= i < name.len() implies Class::Except('.').has(
        #[trigger] name[i],
    ) by {
        assert(name[i] == ext[i - n]);
    }
    assert(name[n - 1] == '.');
    lemma_span_back_is(name, Class::Except('.'), n as int);
    assert(stem_len(name) == base.len());
    assert(name.skip(n as int) =~= ext);
}

/// The stem of a plain name is a plain name.
pub(crate) proof fn lemma_stem_is_safe(name: Seq<char>)
    requires
        safe_name(name),
    ensures
        safe_name(stem_or_self(name)),
{
    if name != seq!['.'] && name != seq!['.', '.'] {
        lemma_plain_name(name);
        crate::text::lemma_span_back(name, Class::Except('.'));
        assert(stem_len(name) > 0);
    } else {
        let class = Class::Except('/');
        assert forall|i: int| 0 <= i < name.len() implies class.has(#[trigger] name[i]) by {}
        lemma_span_is(name, class, name.len() as int);
        assert(name.take(name.len() as int) =~= name);
        reveal_with_fuel(components, 2);
        if name == seq!['.'] {
            assert(components(name, class) =~= seq![]);
        } else {
            assert(name[0] == '.' && name.len() == 2);
            assert(components(name, class) =~= seq![name]);
        }
    }
}

proof fn lemma_mp4(base: Seq<char>)
    requires
        safe_name(base),
    ensures
        media_name(base + ".mp4"@),
{
    reveal_strlit(".mp4");
    reveal_strlit("mp4");
    reveal_strlit("mkv");
    lemma_extension(base, "mp4"@);
    assert(base + ".mp4"@ =~= base + seq!['.'] + "mp4"@);
}

proof fn lemma_safe_join(a: Seq<char>, b: Seq<char>)
    requires
        safe_name(a),
        safe_name(b),
    ensures
        safe_name(a + b),
{
    let name = a + b;
    assert forall|i: int| 0 <= i < name.len() implies name[i] != '/' && name[i] != '\\'
        && !crate::text::is_control(#[trigger] name[i]) by {
        if i < a.len() {
            assert(name[i] == a[i]);
        } else {
            assert(name[i] == b[i - a.len()]);
        }
    }
}

pub(crate) proof fn lemma_decimal_is_safe(n: nat)
    ensures
        safe_name(decimal(n)),
{
    lemma_decimal_digits(n);
    let name = decimal(n);
    assert forall|i: int| 0 <= i < name.len() implies name[i] != '/' && name[i] != '\\'
        && !crate::text::is_control(#[trigger] name[i]) by {
        assert(is_digit(name[i]));
    }
}

/// Every name that the recorder gives a recording is accepted wherever a file is asked for, can
/// be converted, and is recognised as a recording of its own.
pub proof fn law_recording_names_are_accepted(stamp: Seq<char>)
    requires
        is_stamp(stamp),
    ensures
        media_name(recording_at(stamp)),
        convertible_name(recording_at(stamp)),
        recording_name(recording_at(stamp)),
{
    reveal_strlit("discord-");
    reveal_strlit(".mkv");
    reveal_strlit("mkv");
    let n = stamp.len() - 15;
    let base = "discord-"@ + stamp;
    assert forall|i: int| 0 <= i < base.len() implies base[i] != '/' && base[i] != '\\'
        && !crate::text::is_control(#[trigger] base[i]) by {
        if i >= 8 {
            let k = i - 8;
            assert(base[i] == stamp[k]);
            if 0 < k < n {
                assert(is_digit(stamp[k]));
            }
        }
    }
    lemma_extension(base, "mkv"@);
    assert(recording_at(stamp) =~= base + seq!['.'] + "mkv"@);
    assert("discord-"@.is_prefix_of(recording_at(stamp)));
}

/// Recordings that began at different times have different names: each session has a file of its
/// own.
pub proof fn law_recording_names_differ(a: Seq<char>, b: Seq<char>)
    requires
        recording_at(a) == recording_at(b),
    ensures
        a == b,
{
    let n = "discord-"@.len() as int;
    let m = ".mkv"@.len() as int;
    let name = recording_at(a);
    assert(name.subrange(n, name.len() - m) =~= a);
    assert(name.subrange(n, name.len() - m) =~= b);
}

/// What is converted from an accepted file is an accepted file, but not that file, which stays;
/// and never a recording: a purge of recordings spares it.
pub proof fn law_conversion_names_are_accepted(input_name: Seq<char>, height: Option<u32>)
    requires
        convertible_name(input_name),
    ensures
        media_name(mp4_name_of(input_name, height)),
        !recording_name(mp4_name_of(input_name, height)),
        mp4_name_of(input_name, height) != input_name,
{
    let own = stem_or_self(input_name);
    lemma_stem_is_safe(input_name);
    match height {
        Some(h) => {
            reveal_strlit("_");
            reveal_strlit("p.mp4");
            reveal_strlit(".mp4");
            lemma_decimal_is_safe(h as nat);
            assert(safe_name("_"@));
            let p = seq!['p'];
            assert(safe_name(p));
            lemma_safe_join(own, "_"@);
            lemma_safe_join(own + "_"@, decimal(h as nat));
            lemma_safe_join(own + "_"@ + decimal(h as nat), p);
            let base = own + "_"@ + decimal(h as nat) + p;
            lemma_mp4(base);
            assert(mp4_name_of(input_name, height) =~= base + ".mp4"@);
            lemma_mp4_is_no_mkv(base);
        },
        None => {
            lemma_mp4(own);
            lemma_mp4_is_no_mkv(own);
        },
    }
}

proof fn lemma_mp4_is_no_mkv(base: Seq<char>)
    requires
        safe_name(base),
    ensures
        !has_extension(base + ".mp4"@, "mkv"@),
{
    reveal_strlit(".mp4");
    reveal_strlit("mp4");
    reveal_strlit("mkv");
    lemma_extension(base, "mp4"@);
    assert(base + ".mp4"@ =~= base + seq!['.'] + "mp4"@);
    assert(crate::scan::lowered("mp4"@)[1] == 'p');
    assert(crate::scan::lowered("mkv"@)[1] == 'k');
}

/// An accepted file is its stem, a dot and three letters.
proof fn lemma_media_len(name: Seq<char>)
    requires
        media_name(name),
    ensures
        name.len() == stem_or_self(name).len() + 4,
{
    reveal_strlit("mp4");
    reveal_strlit("mkv");
    assert(crate::scan::lowered("mp4"@).len() == 3);
    assert(crate::scan::lowered("mkv"@).len() == 3);
    let ext = extension_of(name, Class::Except('/'))->0;
    assert(crate::scan::lowered(ext).len() == ext.len());
    if name == seq!['.'] || name == seq!['.', '.'] {
        let class = Class::Except('/');
        assert forall|i: int| 0 <= i < name.len() implies class.has(#[trigger] name[i]) by {}
        lemma_span_is(name, class, name.len() as int);
        assert(name.take(name.len() as int) =~= name);
        reveal_with_fuel(components, 2);
        if name == seq!['.'] {
            assert(components(name, class) =~= seq![]);
        } else {
            assert(name[0] == '.' && name.len() == 2);
            assert(components(name, class) =~= seq![name]);
        }
    } else {
        lemma_plain_name(name);
        crate::text::lemma_span_back(name, Class::Except('.'));
    }
}

/// What is clipped from an accepted file is an accepted file, but not that file, and never a
/// recording.
pub proof fn law_clip_names_are_accepted(
    input_name: Seq<char>,
    start_ns: nat,
    stop_ns: nat,
    height: Option<u32>,
)
    requires
        media_name(input_name),
    ensures
        media_name(clip_of(input_name, start_ns, stop_ns, height)),
        !recording_name(clip_of(input_name, start_ns, stop_ns, height)),
        clip_of(input_name, start_ns, stop_ns, height) != input_name,
{
    reveal_strlit("_clip");
    reveal_strlit("clip");
    reveal_strlit("_");
    reveal_strlit("p");
    reveal_strlit("-");
    reveal_strlit("s.mp4");
    reveal_strlit(".mp4");
    let own = stem_or_self(input_name);
    lemma_media_len(input_name);
    lemma_stem_is_safe(input_name);
    assert(safe_name("_clip"@));
    assert(safe_name("clip"@));
    assert(safe_name("_"@));
    assert(safe_name("p"@));
    assert(safe_name("-"@));
    let s = seq!['s'];
    assert(safe_name(s));
    let head = clip_head(own, height);
    match height {
        Some(h) => {
            lemma_decimal_is_safe(h as nat);
            lemma_safe_join(own, "_clip"@);
            lemma_safe_join(own + "_clip"@, "_"@);
            lemma_safe_join(decimal(h as nat), "p"@);
            lemma_safe_join(own + "_clip"@ + "_"@, decimal(h as nat) + "p"@);
        },
        None => {
            lemma_safe_join(own, "_"@);
            lemma_safe_join(own + "_"@, "clip"@);
        },
    }
    assert(head.len() >= own.len() + 5);
    lemma_seconds(start_ns);
    lemma_seconds(stop_ns);
    let a = head + "_"@;
    lemma_safe_join(head, "_"@);
    let b = a + seconds(start_ns);
    lemma_safe_join(a, seconds(start_ns));
    let c = b + "-"@;
    lemma_safe_join(b, "-"@);
    let d = c + seconds(stop_ns);
    lemma_safe_join(c, seconds(stop_ns));
    lemma_safe_join(d, s);
    let base = d + s;
    lemma_mp4(base);
    lemma_mp4_is_no_mkv(base);
    assert(clip_of(input_name, start_ns, stop_ns, height) =~= base + ".mp4"@);
}

/// Whether a text is made of digits and dots.
spec fn numeric(s: Seq<char>) -> bool {
    forall|i: int| 0 <= i < s.len() ==> is_digit(#[trigger] s[i]) || s[i] == '.'
}

proof fn lemma_padded(n: nat, k: nat)
    ensures
        padded(n, k).len() == k,
        all_digits(padded(n, k)),
    decreases k,
{
    if k > 0 {
        lemma_padded(n / 10, (k - 1) as nat);
    }
}

proof fn lemma_fraction(n: nat, k: nat)
    ensures
        fraction(n, k).len() <= k,
        all_digits(fraction(n, k)),
    decreases k,
{
    if k > 0 {
        if n % 10 == 0 {
            lemma_fraction(n / 10, (k - 1) as nat);
        } else {
            lemma_padded(n, k);
        }
    }
}

/// A time in seconds is safe in a file name, and made of digits and dots.
proof fn lemma_seconds(ns: nat)
    ensures
        seconds(ns).len() > 0,
        numeric(seconds(ns)),
        safe_name(seconds(ns)),
{
    let s = seconds(ns);
    let whole = decimal(ns / 1_000_000_000);
    let part = fraction(ns % 1_000_000_000, 9);
    lemma_decimal_digits(ns / 1_000_000_000);
    lemma_fraction(ns % 1_000_000_000, 9);
    assert forall|i: int| 0 <= i < s.len() implies is_digit(#[trigger] s[i]) || s[i] == '.' by {
        if i < whole.len() {
            assert(s[i] == whole[i]);
        } else if i > whole.len() {
            assert(s[i] == part[i - whole.len() - 1]);
        }
    }
    assert forall|i: int| 0 <= i < s.len() implies s[i] != '/' && s[i] != '\\'
        && !crate::text::is_control(#[trigger] s[i]) by {
        assert(is_digit(s[i]) || s[i] == '.');
    }
}

/// Ten to the power of `k`.
spec fn ten_to(k: nat) -> nat
    decreases k,
{
    if k == 0 {
        1
    } else {
        10 * ten_to((k - 1) as nat)
    }
}

proof fn lemma_padded_differ(n: nat, m: nat, k: nat)
    requires
        n < ten_to(k),
        m < ten_to(k),
        padded(n, k) == padded(m, k),
    ensures
        n == m,
    decreases k,
{
    if k > 0 {
        let a = padded(n / 10, (k - 1) as nat);
        let b = padded(m / 10, (k - 1) as nat);
        assert(padded(n, k).drop_last() =~= a);
        assert(padded(m, k).drop_last() =~= b);
        assert(padded(n, k).last() == digit_char(n % 10));
        assert(padded(m, k).last() == digit_char(m % 10));
        lemma_padded_differ(n / 10, m / 10, (k - 1) as nat);
    }
}

proof fn lemma_fraction_differ(n: nat, m: nat, k: nat)
    requires
        n < ten_to(k),
        m < ten_to(k),
        fraction(n, k) == fraction(m, k),
    ensures
        n == m,
    decreases k,
{
    if k > 0 {
        lemma_padded(n, k);
        lemma_padded(m, k);
        lemma_fraction(n / 10, (k - 1) as nat);
        lemma_fraction(m / 10, (k - 1) as nat);
        if n % 10 == 0 && m % 10 == 0 {
            lemma_fraction_differ(n / 10, m / 10, (k - 1) as nat);
        } else if n % 10 != 0 && m % 10 != 0 {
            lemma_padded_differ(n, m, k);
        }
    }
}

/// Two texts that are the same up to and after the last `c` of each are the same in both parts.
proof fn lemma_last_part(p: Seq<char>, x: Seq<char>, q: Seq<char>, y: Seq<char>, c: char)
    requires
        p + seq![c] + x == q + seq![c] + y,
        !x.contains(c),
        !y.contains(c),
    ensures
        p == q,
        x == y,
{
    let s = p + seq![c] + x;
    let t = q + seq![c] + y;
    assert(s == t);
    assert(s.len() == p.len() + 1 + x.len());
    assert(t.len() == q.len() + 1 + y.len());
    assert(s[p.len() as int] == c);
    assert(t[q.len() as int] == c);
    if p.len() < q.len() {
        let i = q.len() - p.len() - 1;
        assert(s[q.len() as int] == x[i]);
        assert(x.contains(c));
    } else if q.len() < p.len() {
        let i = p.len() - q.len() - 1;
        assert(t[p.len() as int] == y[i]);
        assert(y.contains(c));
    }
    assert(s.take(p.len() as int) =~= p);
    assert(t.take(q.len() as int) =~= q);
    assert(s.skip(p.len() as int + 1) =~= x);
    assert(t.skip(q.len() as int + 1) =~= y);
}

/// Different times are written differently.
pub proof fn law_seconds_differ(a: nat, b: nat)
    requires
        seconds(a) == seconds(b),
    ensures
        a == b,
{
    let n: nat = 1_000_000_000;
    lemma_decimal_digits(a / n);
    lemma_decimal_digits(b / n);
    lemma_fraction(a % n, 9);
    lemma_fraction(b % n, 9);
    reveal_with_fuel(ten_to, 10);
    assert(ten_to(9) == n);
    let s = seconds(a);
    assert forall|t: Seq<char>| all_digits(t) implies !(#[trigger] t.contains('.')) by {
        if t.contains('.') {
            let i = choose|i: int| 0 <= i < t.len() && t[i] == '.';
            assert(is_digit(t[i]));
        }
    }
    if a % n != 0 && b % n != 0 {
        lemma_last_part(
            decimal(a / n),
            fraction(a % n, 9),
            decimal(b / n),
            fraction(b % n, 9),
            '.',
        );
        lemma_fraction_differ(a % n, b % n, 9);
    } else if a % n != 0 {
        assert(s[decimal(a / n).len() as int] == '.');
        assert(decimal(b / n).contains('.'));
    } else if b % n != 0 {
        assert(s[decimal(b / n).len() as int] == '.');
        assert(decimal(a / n).contains('.'));
    }
}

/// Clips have different names wherever their files have different stems, their windows differ
/// by as much as a nanosecond, or their heights differ: none is written over an earlier one.
pub proof fn law_clip_names_differ(
    input_a: Seq<char>,
    start_a: nat,
    stop_a: nat,
    height_a: Option<u32>,
    input_b: Seq<char>,
    start_b: nat,
    stop_b: nat,
    height_b: Option<u32>,
)
    requires
        clip_of(input_a, start_a, stop_a, height_a) == clip_of(
            input_b,
            start_b,
            stop_b,
            height_b,
        ),
    ensures
        stem_or_self(input_a) == stem_or_self(input_b),
        start_a == start_b,
        stop_a == stop_b,
        height_a == height_b,
{
    reveal_strlit("_clip");
    reveal_strlit("clip");
    reveal_strlit("_");
    reveal_strlit("p");
    reveal_strlit("-");
    reveal_strlit("s.mp4");
    assert("_"@ =~= seq!['_']);
    assert("-"@ =~= seq!['-']);
    let name = clip_of(input_a, start_a, stop_a, height_a);
    let head_a = clip_head(stem_or_self(input_a), height_a);
    let head_b = clip_head(stem_or_self(input_b), height_b);
    lemma_seconds(start_a);
    lemma_seconds(stop_a);
    lemma_seconds(start_b);
    lemma_seconds(stop_b);
    assert forall|t: Seq<char>, c: char| numeric(t) && (c == '-' || c == '_') implies !(
    #[trigger] t.contains(c)) by {
        if t.contains(c) {
            let i = choose|i: int| 0 <= i < t.len() && t[i] == c;
            assert(is_digit(t[i]) || t[i] == '.');
        }
    }
    let left_a = head_a + "_"@ + seconds(start_a);
    let left_b = head_b + "_"@ + seconds(start_b);
    let times_a = left_a + seq!['-'] + seconds(stop_a);
    let times_b = left_b + seq!['-'] + seconds(stop_b);
    assert(name.take(name.len() - 5) =~= times_a);
    assert(name.take(name.len() - 5) =~= times_b);
    lemma_last_part(left_a, seconds(stop_a), left_b, seconds(stop_b), '-');
    law_seconds_differ(stop_a, stop_b);
    lemma_last_part(head_a, seconds(start_a), head_b, seconds(start_b), '_');
    law_seconds_differ(start_a, start_b);
    let tail_a = clip_tail(height_a);
    let tail_b = clip_tail(height_b);
    lemma_clip_tail(height_a);
    lemma_clip_tail(height_b);
    let front_a = match height_a {
        Some(_) => stem_or_self(input_a) + "_clip"@,
        None => stem_or_self(input_a),
    };
    let front_b = match height_b {
        Some(_) => stem_or_self(input_b) + "_clip"@,
        None => stem_or_self(input_b),
    };
    assert(head_a =~= front_a + seq!['_'] + tail_a);
    assert(head_b =~= front_b + seq!['_'] + tail_b);
    lemma_last_part(front_a, tail_a, front_b, tail_b, '_');
    match (height_a, height_b) {
        (Some(h), Some(k)) => {
            assert(tail_a.drop_last() =~= decimal(h as nat));
            assert(tail_b.drop_last() =~= decimal(k as nat));
            lemma_decimal_digits(h as nat);
            lemma_decimal_digits(k as nat);
            assert(front_a.take(front_a.len() - 5) =~= stem_or_self(input_a));
            assert(front_b.take(front_b.len() - 5) =~= stem_or_self(input_b));
        },
        (Some(h), None) => {
            lemma_decimal_digits(h as nat);
            assert(is_digit(decimal(h as nat)[0]));
            assert(tail_a[0] == decimal(h as nat)[0]);
        },
        (None, Some(k)) => {
            lemma_decimal_digits(k as nat);
            assert(is_digit(decimal(k as nat)[0]));
            assert(tail_b[0] == decimal(k as nat)[0]);
        },
        (None, None) => {},
    }
}

/// What follows the last underscore of the beginning of a clip's name.
spec fn clip_tail(height: Option<u32>) -> Seq<char> {
    match height {
        Some(h) => decimal(h as nat) + "p"@,
        None => "clip"@,
    }
}

proof fn lemma_clip_tail(height: Option<u32>)
    ensures
        !clip_tail(height).contains('_'),
{
    reveal_strlit("clip");
    reveal_strlit("p");
    let t = clip_tail(height);
    if t.contains('_') {
        let i = choose|i: int| 0 <= i < t.len() && t[i] == '_';
        if let Some(h) = height {
            lemma_decimal_digits(h as nat);
            if i < decimal(h as nat).len() {
                assert(is_digit(decimal(h as nat)[i]));
            }
        }
    }
}

} // verus!
