//! File names: components of a path, stem and extension, and the names the recorder accepts.
//!
//! A path is taken apart at `/`, or at `/` and `\` where the Windows reading is asked for.

use vstd::prelude::*;

use crate::scan::{lowered, same_text, starts_with, to_lower};
use crate::text::{
    chars_of, control, count_span, count_span_back, is_control, skip, span, span_back, take,
    Class,
};

verus! {

/// The components of a path, in order, without the empty ones and those that are `.`.
/// `class` holds every character that does not separate.
pub open spec fn components(s: Seq<char>, class: Class) -> Seq<Seq<char>>
    decreases s.len(),
{
    if s.len() == 0 {
        seq![]
    } else {
        let n = span(s, class) as int;
        let rest = if n < s.len() {
            s.skip(n + 1)
        } else {
            seq![]
        };
        if n == 0 || s.take(n) == seq!['.'] {
            components(rest, class)
        } else {
            seq![s.take(n)] + components(rest, class)
        }
    }
}

/// The texts that a list of ranges cuts out of `s`.
pub open spec fn cut(s: Seq<char>, ranges: Seq<(usize, usize)>) -> Seq<Seq<char>> {
    Seq::new(ranges.len(), |i: int| s.subrange(ranges[i].0 as int, ranges[i].1 as int))
}

/// Whether every range lies inside a text of length `len`.
pub open spec fn ranges_within(ranges: Seq<(usize, usize)>, len: nat) -> bool {
    forall|i: int| 0 <= i < ranges.len() ==> (#[trigger] ranges[i]).0 <= ranges[i].1 <= len
}

/// Finds the components of a path, as ranges of positions.
pub fn split_components(s: &[char], class: Class) -> (out: Vec<(usize, usize)>)
    ensures
        ranges_within(out@, s@.len()),
        cut(s@, out@) == components(s@, class),
{
    let mut out: Vec<(usize, usize)> = Vec::new();
    let mut at: usize = 0;
    let len: usize = s.len();
    assert(s@.skip(0) =~= s@);
    assert(cut(s@, out@) + components(s@.skip(0), class) =~= components(s@, class));
    while at < len
        invariant
            at <= len,
            len == s@.len(),
            ranges_within(out@, s@.len()),
            cut(s@, out@) + components(s@.skip(at as int), class) == components(s@, class),
        decreases len - at,
    {
        let rest = skip(s, at);
        let n: usize = count_span(rest, class);
        let ghost before = out@;
        let end: usize = at + n;
        let piece = take(rest, n);
        assert(piece@ =~= s@.subrange(at as int, end as int));
        let skipped = n == 0 || (n == 1 && rest[0] == '.');
        assert((n == 1 && rest@[0] == '.') == (rest@.take(n as int) =~= seq!['.']));
        if !skipped {
            out.push((at, end));
            assert(cut(s@, out@) =~= cut(s@, before).push(piece@));
        }
        let next: usize = if end < len {
            end + 1
        } else {
            end
        };
        assert(s@.skip(next as int) =~= (if n < rest@.len() {
            rest@.skip(n + 1)
        } else {
            seq![]
        }));
        assert(!skipped ==> cut(s@, out@) + components(s@.skip(next as int), class) =~= cut(
            s@,
            before,
        ) + (seq![piece@] + components(s@.skip(next as int), class)));
        at = next;
    }
    assert(s@.skip(at as int) =~= seq![]);
    assert(cut(s@, out@) =~= components(s@, class));
    out
}

/// The last component of a path, unless there is none or it is `..`.
pub open spec fn file_name_of(s: Seq<char>, class: Class) -> Option<Seq<char>> {
    let parts = components(s, class);
    if parts.len() == 0 || parts.last() == seq!['.', '.'] {
        None
    } else {
        Some(parts.last())
    }
}

/// The length of the stem of a file name: up to its last dot, or the whole name where it has no
/// dot or only a leading one.
pub open spec fn stem_len(file: Seq<char>) -> int {
    let after = span_back(file, Class::Except('.')) as int;
    if after + 1 < file.len() {
        file.len() - after - 1
    } else {
        file.len() as int
    }
}

/// The stem of a path: its file name without the extension.
pub open spec fn file_stem_of(s: Seq<char>, class: Class) -> Option<Seq<char>> {
    match file_name_of(s, class) {
        Some(file) => Some(file.take(stem_len(file))),
        None => None,
    }
}

/// The extension of a path: what follows the last dot of its file name, where something
/// stands before that dot.
pub open spec fn extension_of(s: Seq<char>, class: Class) -> Option<Seq<char>> {
    match file_name_of(s, class) {
        Some(file) => if stem_len(file) < file.len() {
            Some(file.skip(stem_len(file) + 1))
        } else {
            None
        },
        None => None,
    }
}

/// Finds the file name of a path, as a range of positions.
pub fn find_file_name(s: &[char], class: Class) -> (r: Option<(usize, usize)>)
    ensures
        match r {
            Some((from, to)) => from <= to <= s@.len() && file_name_of(s@, class) == Some(
                s@.subrange(from as int, to as int),
            ),
            None => file_name_of(s@, class) is None,
        },
{
    let parts = split_components(s, class);
    let count: usize = parts.len();
    if count == 0 {
        return None;
    }
    let (from, to): (usize, usize) = parts[count - 1];
    let ghost last = components(s@, class).last();
    assert(last == cut(s@, parts@)[count - 1]);
    assert(last == s@.subrange(from as int, to as int));
    if to - from == 2 && s[from] == '.' && s[from + 1] == '.' {
        assert(last =~= seq!['.', '.']);
        None
    } else {
        assert(last == seq!['.', '.'] ==> last[0] == '.' && last[1] == '.' && last.len() == 2);
        Some((from, to))
    }
}

/// Finds the length of the stem of a file name.
pub fn find_stem_len(file: &[char]) -> (n: usize)
    ensures
        n == stem_len(file@),
        n <= file@.len(),
        n < file@.len() ==> file@[n as int] == '.',
{
    let after: usize = count_span_back(file, Class::Except('.'));
    if after < file.len() && after + 1 < file.len() {
        file.len() - after - 1
    } else {
        file.len()
    }
}

/// The stem of a name, or the whole name where it has none.
pub open spec fn stem_or_self(name: Seq<char>) -> Seq<char> {
    match file_stem_of(name, Class::Except('/')) {
        Some(stem) => stem,
        None => name,
    }
}

/// The stem (name without extension) of a file name; a text without a file name is its own stem.
pub fn stem(name: &str) -> (r: &str)
    ensures
        r@ == stem_or_self(name@),
{
    let chars = chars_of(name);
    let s = chars.as_slice();
    match find_file_name(s, Class::Except('/')) {
        Some((from, to)) => {
            let file = vstd::slice::slice_subrange(s, from, to);
            let n: usize = find_stem_len(file);
            let r = name.substring_char(from, from + n);
            assert(r@ =~= file@.take(n as int));
            r
        },
        None => name,
    }
}

/// Whether the extension of `name` is `ext`, whatever the case of its ASCII letters.
pub open spec fn has_extension(name: Seq<char>, ext: Seq<char>) -> bool {
    match extension_of(name, Class::Except('/')) {
        Some(e) => lowered(e) == lowered(ext),
        None => false,
    }
}

/// Tests whether the extension of `name` is `ext`, whatever the case of its ASCII letters.
pub fn extension_is(name: &str, ext: &str) -> (r: bool)
    ensures
        r == has_extension(name@, ext@),
{
    let chars = chars_of(name);
    let s = chars.as_slice();
    match find_file_name(s, Class::Except('/')) {
        Some((from, to)) => {
            let file = vstd::slice::slice_subrange(s, from, to);
            let n: usize = find_stem_len(file);
            if n < file.len() {
                let found = to_lower(skip(file, n + 1));
                let wanted = to_lower(chars_of(ext).as_slice());
                same_text(found.as_slice(), wanted.as_slice())
            } else {
                false
            }
        },
        None => false,
    }
}

/// Whether `name` is a plain file name: not empty, no path separator, no control character.
pub open spec fn safe_name(name: Seq<char>) -> bool {
    &&& name.len() > 0
    &&& forall|i: int|
        0 <= i < name.len() ==> name[i] != '/' && name[i] != '\\' && !is_control(#[trigger] name[i])
}

/// Tests that a name designates a plain file of the output directory: no path separator and no
/// control character. Control characters are refused because the name becomes a
/// `location=<name>` argument of `gst-launch-1.0`, which reads its arguments again and would
/// take a tab or a line feed for pipeline syntax. A space is escaped there and stays safe.
pub fn is_safe_file_name(name: &str) -> (r: bool)
    ensures
        r == safe_name(name@),
{
    let chars = chars_of(name);
    let mut i: usize = 0;
    while i < chars.len()
        invariant
            i <= chars@.len(),
            chars@ == name@,
            forall|j: int|
                0 <= j < i ==> name@[j] != '/' && name@[j] != '\\' && !is_control(
                    #[trigger] name@[j],
                ),
        decreases chars@.len() - i,
    {
        let c: char = chars[i];
        if c == '/' || c == '\\' || control(c) {
            assert(!(name@[i as int] != '/' && name@[i as int] != '\\' && !is_control(
                name@[i as int],
            )));
            return false;
        }
        i += 1;
    }
    chars.len() > 0
}

/// Whether `name` is a plain file name with a media extension.
pub open spec fn media_name(name: Seq<char>) -> bool {
    safe_name(name) && (has_extension(name, "mkv"@) || has_extension(name, "mp4"@))
}

/// Tests that a name designates a plain `mkv` or `mp4` file of the output directory.
pub fn valid_media_name(name: &str) -> (r: bool)
    ensures
        r == media_name(name@),
{
    is_safe_file_name(name) && (extension_is(name, "mkv") || extension_is(name, "mp4"))
}

/// Whether `name` is a plain file name that can be converted: a Matroska recording.
pub open spec fn convertible_name(name: Seq<char>) -> bool {
    safe_name(name) && has_extension(name, "mkv"@)
}

/// Tests that a name designates a plain `mkv` file of the output directory.
pub fn valid_convert_name(name: &str) -> (r: bool)
    ensures
        r == convertible_name(name@),
{
    is_safe_file_name(name) && extension_is(name, "mkv")
}

/// Whether `name` has the form of the recordings that the recorder itself makes.
pub open spec fn recording_name(name: Seq<char>) -> bool {
    "discord-"@.is_prefix_of(name) && has_extension(name, "mkv"@)
}

/// Tests for a recording that the recorder itself made: `discord-*.mkv`. Exports and clips
/// (`mp4`) and foreign files are not among them.
pub fn is_recording_name(name: &str) -> (r: bool)
    ensures
        r == recording_name(name@),
{
    starts_with(chars_of(name).as_slice(), chars_of("discord-").as_slice()) && extension_is(
        name,
        "mkv",
    )
}

/// Whether two paths are the same once read component by component.
pub open spec fn path_equal(a: Seq<char>, b: Seq<char>) -> bool {
    &&& rooted(a) == rooted(b)
    &&& dotted(a) == dotted(b)
    &&& components(a, Class::Except('/')) == components(b, Class::Except('/'))
}

/// Whether a path starts at the root.
pub open spec fn rooted(s: Seq<char>) -> bool {
    s.len() > 0 && s[0] == '/'
}

/// Whether a path starts with the component `.`.
pub open spec fn dotted(s: Seq<char>) -> bool {
    s.len() > 0 && s[0] == '.' && (s.len() == 1 || s[1] == '/')
}

/// Compares two paths component by component.
pub fn same_path(a: &[char], b: &[char]) -> (r: bool)
    ensures
        r == path_equal(a@, b@),
{
    let rooted_a = a.len() > 0 && a[0] == '/';
    let rooted_b = b.len() > 0 && b[0] == '/';
    let dotted_a = a.len() > 0 && a[0] == '.' && (a.len() == 1 || a[1] == '/');
    let dotted_b = b.len() > 0 && b[0] == '.' && (b.len() == 1 || b[1] == '/');
    if rooted_a != rooted_b || dotted_a != dotted_b {
        return false;
    }
    let parts_a = split_components(a, Class::Except('/'));
    let parts_b = split_components(b, Class::Except('/'));
    if parts_a.len() != parts_b.len() {
        assert(cut(a@, parts_a@).len() != cut(b@, parts_b@).len());
        return false;
    }
    let mut i: usize = 0;
    while i < parts_a.len()
        invariant
            i <= parts_a@.len(),
            parts_a@.len() == parts_b@.len(),
            ranges_within(parts_a@, a@.len()),
            ranges_within(parts_b@, b@.len()),
            cut(a@, parts_a@) == components(a@, Class::Except('/')),
            cut(b@, parts_b@) == components(b@, Class::Except('/')),
            forall|j: int|
                0 <= j < i ==> #[trigger] cut(a@, parts_a@)[j] == cut(b@, parts_b@)[j],
        decreases parts_a@.len() - i,
    {
        let pa = vstd::slice::slice_subrange(a, parts_a[i].0, parts_a[i].1);
        let pb = vstd::slice::slice_subrange(b, parts_b[i].0, parts_b[i].1);
        assert(cut(a@, parts_a@)[i as int] == pa@);
        assert(cut(b@, parts_b@)[i as int] == pb@);
        if !same_text(pa, pb) {
            return false;
        }
        i += 1;
    }
    assert(cut(a@, parts_a@) =~= cut(b@, parts_b@));
    true
}

} // verus!
