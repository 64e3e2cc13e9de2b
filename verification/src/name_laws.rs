//! Laws of file names: what stem and extension are, which names are accepted, and how the names
//! that the recorder gives are spelled out.

use vstd::prelude::*;

use crate::convert::mp4_name_of;
use crate::names::{
    convertible_name, extension_of, file_name_of, has_extension, media_name, recording_name,
    safe_name, stem_len, stem_or_self,
};
use crate::naming::{clip_of, fraction, padded, recording_at, seconds};
use crate::path_laws::{law_components_join, law_single_component};
use crate::scan::{lower_char, lowered};
use crate::text::{
    all_digits, decimal, digit_char, digits_value, is_digit, lemma_span_back, lemma_span_back_is,
    span_back, Class,
};

verus! {

/// Whether two characters are the same but for the case of an ASCII letter.
pub open spec fn same_letter(a: char, b: char) -> bool {
    ||| a == b
    ||| 65 <= a as int <= 90 && b as int == a as int + 32
    ||| 65 <= b as int <= 90 && a as int == b as int + 32
}

/// Whether two texts are the same but for the case of their ASCII letters.
pub open spec fn alike(a: Seq<char>, b: Seq<char>) -> bool {
    &&& a.len() == b.len()
    &&& forall|i: int| 0 <= i < a.len() ==> same_letter(#[trigger] a[i], b[i])
}

/// Whether a text holds no slash.
pub open spec fn no_slash(s: Seq<char>) -> bool {
    forall|i: int| 0 <= i < s.len() ==> #[trigger] s[i] != '/'
}

/// Whether a text holds no dot.
pub open spec fn no_dot(s: Seq<char>) -> bool {
    forall|i: int| 0 <= i < s.len() ==> #[trigger] s[i] != '.'
}

proof fn lemma_same_letter(a: char, b: char)
    ensures
        lower_char(a) == lower_char(b) <==> same_letter(a, b),
{
}

/// Two texts are alike where they are the same in small letters.
pub(crate) proof fn lemma_alike(a: Seq<char>, b: Seq<char>)
    ensures
        lowered(a) == lowered(b) <==> alike(a, b),
{
    let x = lowered(a);
    let y = lowered(b);
    if alike(a, b) {
        assert forall|i: int| 0 <= i < a.len() implies x[i] == y[i] by {
            lemma_same_letter(a[i], b[i]);
            assert(same_letter(a[i], b[i]));
        }
        assert(x =~= y);
    }
    if x == y {
        assert(x.len() == y.len());
        assert forall|i: int| 0 <= i < a.len() implies same_letter(#[trigger] a[i], b[i]) by {
            lemma_same_letter(a[i], b[i]);
            assert(x[i] == lower_char(a[i]));
            assert(y[i] == lower_char(b[i]));
        }
    }
}

proof fn lemma_file_name(dir: Seq<char>, name: Seq<char>)
    requires
        no_slash(name),
        name.len() > 0,
        name != seq!['.'],
        name != seq!['.', '.'],
    ensures
        file_name_of(name, Class::Except('/')) == Some(name),
        file_name_of(dir + seq!['/'] + name, Class::Except('/')) == Some(name),
{
    let class = Class::Except('/');
    assert forall|i: int| 0 <= i < name.len() implies class.has(#[trigger] name[i]) by {}
    law_single_component(name, class);
    law_components_join(dir, '/', name, class);
    assert((crate::names::components(dir, class) + seq![name]).last() == name);
}

/// The stem of a name is what stands before its last dot, its extension what follows, whatever
/// directory comes first; the case of an extension does not matter.
pub proof fn law_stem_and_extension(
    dir: Seq<char>,
    base: Seq<char>,
    ext: Seq<char>,
    wanted: Seq<char>,
)
    requires
        no_slash(base),
        no_slash(ext),
        no_dot(ext),
        base.len() > 0,
        base != seq!['.'] || ext.len() > 0,
    ensures
        ({
            let name = base + seq!['.'] + ext;
            &&& stem_or_self(name) == base
            &&& stem_or_self(dir + seq!['/'] + name) == base
            &&& extension_of(name, Class::Except('/')) == Some(ext)
            &&& has_extension(name, wanted) <==> alike(ext, wanted)
            &&& has_extension(dir + seq!['/'] + name, wanted) <==> alike(ext, wanted)
        }),
{
    let name = base + seq!['.'] + ext;
    assert(no_slash(name)) by {
        assert forall|i: int| 0 <= i < name.len() implies #[trigger] name[i] != '/' by {
            if i < base.len() {
                assert(name[i] == base[i]);
            } else if i > base.len() {
                assert(name[i] == ext[i - base.len() - 1]);
            }
        }
    }
    assert(name.len() >= 2);
    if name == seq!['.', '.'] {
        assert(name[0] == '.');
        assert(name[0] == base[0]);
        assert(base =~= seq!['.']);
    }
    lemma_file_name(dir, name);
    let at = base.len() + 1;
    assert forall|i: int| at <= i < name.len() implies Class::Except('.').has(
        #[trigger] name[i],
    ) by {
        assert(name[i] == ext[i - at]);
    }
    assert(name[at - 1] == '.');
    lemma_span_back_is(name, Class::Except('.'), at as int);
    assert(stem_len(name) == base.len());
    assert(name.take(base.len() as int) =~= base);
    assert(name.skip(at as int) =~= ext);
    lemma_alike(ext, wanted);
}

/// A name without a dot, or with none but a leading one, has no extension, and is its own stem.
pub proof fn law_no_extension(dir: Seq<char>, name: Seq<char>, wanted: Seq<char>)
    requires
        no_slash(name),
        name.len() > 0,
        no_dot(name.skip(1)),
        name != seq!['.'],
    ensures
        stem_or_self(name) == name,
        stem_or_self(dir + seq!['/'] + name) == name,
        !has_extension(name, wanted),
        !has_extension(dir + seq!['/'] + name, wanted),
{
    if name == seq!['.', '.'] {
        assert(name.skip(1)[0] == name[1]);
    }
    lemma_file_name(dir, name);
    let class = Class::Except('.');
    assert forall|i: int| 1 <= i < name.len() implies class.has(#[trigger] name[i]) by {
        assert(name.skip(1)[i - 1] == name[i]);
    }
    lemma_span_back(name, class);
    let k = span_back(name, class) as int;
    if k + 1 < name.len() {
        assert(class.has(name[name.len() - k - 1]));
    }
    assert(stem_len(name) == name.len());
    assert(name.take(name.len() as int) =~= name);
}

/// A name is plain where it is not empty and holds neither kind of slash nor a control character.
pub proof fn law_plain_name(name: Seq<char>)
    ensures
        safe_name(name) <==> name.len() > 0 && forall|i: int|
            0 <= i < name.len() ==> {
                let n = (#[trigger] name[i]) as int;
                n != 47 && n != 92 && n >= 32 && !(127 <= n <= 159)
            },
{
    if safe_name(name) {
        assert forall|i: int| 0 <= i < name.len() implies {
            let n = (#[trigger] name[i]) as int;
            n != 47 && n != 92 && n >= 32 && !(127 <= n <= 159)
        } by {}
    }
}

/// A file may be opened where its name is plain and ends in `mkv` or `mp4`, converted where it
/// ends in `mkv`; a recording begins with `discord-` and ends in `mkv`. Capitals do not matter in
/// the extension, and do at the beginning.
pub proof fn law_accepted_names(base: Seq<char>, ext: Seq<char>)
    requires
        no_slash(base),
        no_slash(ext),
        no_dot(ext),
        base.len() > 0,
        base != seq!['.'] || ext.len() > 0,
    ensures
        ({
            let name = base + seq!['.'] + ext;
            &&& media_name(name) <==> safe_name(name) && (alike(ext, "mkv"@) || alike(
                ext,
                "mp4"@,
            ))
            &&& convertible_name(name) <==> safe_name(name) && alike(ext, "mkv"@)
            &&& recording_name(name) <==> "discord-"@.is_prefix_of(name) && alike(ext, "mkv"@)
        }),
{
    law_stem_and_extension(seq![], base, ext, "mkv"@);
    law_stem_and_extension(seq![], base, ext, "mp4"@);
}

/// A name without an extension is accepted nowhere.
pub proof fn law_refused_names(name: Seq<char>)
    requires
        no_slash(name),
        name.len() > 0,
        no_dot(name.skip(1)),
        name != seq!['.'],
    ensures
        !media_name(name),
        !convertible_name(name),
        !recording_name(name),
{
    law_no_extension(seq![], name, "mkv"@);
    law_no_extension(seq![], name, "mp4"@);
}

/// A recording is called after the time when it began: `discord-<time>.mkv`.
pub proof fn law_recording_is_called(stamp: Seq<char>)
    ensures
        recording_at(stamp) == "discord-"@ + stamp + ".mkv"@,
{
}

/// A conversion is called as its input, with `.mp4` in place of the extension, and with the height
/// before it where one was asked for: `<stem>.mp4`, `<stem>_<height>p.mp4`.
pub proof fn law_conversion_is_called(base: Seq<char>, ext: Seq<char>, height: u32)
    requires
        no_slash(base),
        no_slash(ext),
        no_dot(ext),
        base.len() > 0,
        base != seq!['.'] || ext.len() > 0,
    ensures
        mp4_name_of(base + seq!['.'] + ext, None) == base + ".mp4"@,
        mp4_name_of(base + seq!['.'] + ext, Some(height)) == base + "_"@ + decimal(height as nat)
            + "p.mp4"@,
{
    law_stem_and_extension(seq![], base, ext, ext);
}

/// A clip is called as its input and the window that it shows, and after the height where one was
/// asked for: `<stem>_clip_<start>-<end>s.mp4`, `<stem>_clip_<height>p_<start>-<end>s.mp4`.
pub proof fn law_clip_is_called(
    base: Seq<char>,
    ext: Seq<char>,
    start_ns: nat,
    stop_ns: nat,
    height: u32,
)
    requires
        no_slash(base),
        no_slash(ext),
        no_dot(ext),
        base.len() > 0,
        base != seq!['.'] || ext.len() > 0,
    ensures
        clip_of(base + seq!['.'] + ext, start_ns, stop_ns, None) == base + "_clip_"@ + seconds(
            start_ns,
        ) + "-"@ + seconds(stop_ns) + "s.mp4"@,
        clip_of(base + seq!['.'] + ext, start_ns, stop_ns, Some(height)) == base + "_clip_"@
            + decimal(height as nat) + "p_"@ + seconds(start_ns) + "-"@ + seconds(stop_ns)
            + "s.mp4"@,
{
    reveal_strlit("_");
    reveal_strlit("clip");
    reveal_strlit("_clip");
    reveal_strlit("_clip_");
    reveal_strlit("p");
    reveal_strlit("p_");
    law_stem_and_extension(seq![], base, ext, ext);
    let a = seconds(start_ns);
    let b = seconds(stop_ns);
    let d = decimal(height as nat);
    assert("_"@ + "clip"@ + "_"@ =~= "_clip_"@);
    assert("_clip"@ + "_"@ =~= "_clip_"@);
    assert("p"@ + "_"@ =~= "p_"@);
    assert(base + "_"@ + "clip"@ + "_"@ =~= base + "_clip_"@);
    assert(base + "_clip"@ + "_"@ + (d + "p"@) + "_"@ =~= base + "_clip_"@ + d + "p_"@);
}

/// Ten times itself, `k` times.
pub open spec fn power_of_ten(k: nat) -> nat
    decreases k,
{
    if k == 0 {
        1
    } else {
        10 * power_of_ten((k - 1) as nat)
    }
}

proof fn lemma_padded_value(n: nat, k: nat)
    requires
        n < power_of_ten(k),
    ensures
        padded(n, k).len() == k,
        all_digits(padded(n, k)),
        digits_value(padded(n, k)) == n,
    decreases k,
{
    if k > 0 {
        lemma_padded_value(n / 10, (k - 1) as nat);
        assert(padded(n, k).drop_last() =~= padded(n / 10, (k - 1) as nat));
    }
}

proof fn lemma_fraction_value(n: nat, k: nat)
    requires
        0 < n < power_of_ten(k),
    ensures
        0 < fraction(n, k).len() <= k,
        all_digits(fraction(n, k)),
        fraction(n, k).last() != '0',
        digits_value(fraction(n, k)) * power_of_ten((k - fraction(n, k).len()) as nat) == n,
    decreases k,
{
    if n % 10 == 0 {
        lemma_fraction_value(n / 10, (k - 1) as nat);
        let f = fraction(n / 10, (k - 1) as nat);
        let v = digits_value(f);
        let p = power_of_ten((k - 1 - f.len()) as nat);
        assert(power_of_ten((k - f.len()) as nat) == 10 * p);
        assert(v * (10 * p) == 10 * (v * p)) by (nonlinear_arith);
    } else {
        lemma_padded_value(n, k);
        assert(fraction(n, k).last() == digit_char(n % 10));
        assert(digits_value(fraction(n, k)) * 1 == n);
    }
}

/// A time is written in seconds, to the nanosecond: whole seconds without a point; else the whole
/// seconds, a point, and digits that do not end in a zero and make up the rest, each worth a tenth
/// of the one before it.
pub proof fn law_seconds(whole: nat, rest: nat)
    requires
        rest < 1_000_000_000,
    ensures
        rest == 0 ==> seconds(whole * 1_000_000_000 + rest) == decimal(whole),
        rest > 0 ==> exists|f: Seq<char>|
            {
                &&& #[trigger] (decimal(whole) + seq!['.'] + f) == seconds(
                    whole * 1_000_000_000 + rest,
                )
                &&& 0 < f.len() <= 9
                &&& forall|i: int| 0 <= i < f.len() ==> '0' <= #[trigger] f[i] <= '9'
                &&& f.last() != '0'
                &&& digits_value(f) * power_of_ten((9 - f.len()) as nat) == rest
            },
{
    let ns = whole * 1_000_000_000 + rest;
    assert(ns / 1_000_000_000 == whole);
    assert(ns % 1_000_000_000 == rest);
    if rest > 0 {
        reveal_with_fuel(power_of_ten, 10);
        lemma_fraction_value(rest, 9);
        let f = fraction(rest, 9);
        assert(decimal(whole) + seq!['.'] + f == seconds(ns));
        assert forall|i: int| 0 <= i < f.len() implies '0' <= #[trigger] f[i] <= '9' by {
            assert(is_digit(f[i]));
        }
    }
}

/// Whatever a name is, it is accepted by its extension, and by being plain or by its beginning.
pub proof fn law_names_by_extension(name: Seq<char>)
    ensures
        media_name(name) <==> safe_name(name) && (has_extension(name, "mkv"@) || has_extension(
            name,
            "mp4"@,
        )),
        convertible_name(name) <==> safe_name(name) && has_extension(name, "mkv"@),
        recording_name(name) <==> "discord-"@.is_prefix_of(name) && has_extension(name, "mkv"@),
{
}

} // verus!
