//! Paths as a platform reads them: what stands before the components, the file name, the directory
//! and whether a path is absolute.
//!
//! On Windows a path may begin with a drive (`C:`) or a share (`\\server\share`), which is no part
//! of its components.

use vstd::prelude::*;

use crate::names::{file_name_of, find_file_name, rooted};
use crate::platform::Platform;
use crate::text::{
    chars_of, count_span, count_span_back, skip, span, span_back, string_of, take, Class,
};

verus! {

/// The characters that do not separate the components of a path on a platform.
pub open spec fn plain_chars(platform: Platform) -> Class {
    if platform == Platform::Windows {
        Class::NotSlash
    } else {
        Class::Except('/')
    }
}

/// Gives the characters that do not separate the components of a path on a platform.
pub fn path_class(platform: Platform) -> (r: Class)
    ensures
        r == plain_chars(platform),
{
    match platform {
        Platform::Windows => Class::NotSlash,
        _ => Class::Except('/'),
    }
}

/// The characters that separate components on Windows.
pub open spec fn is_separator(c: char) -> bool {
    !Class::NotSlash.has(c)
}

/// Whether a path begins with a drive, such as `C:`.
pub open spec fn has_drive(path: Seq<char>) -> bool {
    path.len() >= 2 && ('A' <= path[0] <= 'Z' || 'a' <= path[0] <= 'z') && path[1] == ':'
}

/// Tests whether a path begins with a drive.
pub fn begins_with_drive(path: &[char]) -> (r: bool)
    ensures
        r == has_drive(path@),
{
    path.len() >= 2 && (('A' <= path[0] && path[0] <= 'Z') || ('a' <= path[0] && path[0] <= 'z'))
        && path[1] == ':'
}

/// The length of the share that a path begins with: two separators, a server, a separator and a
/// name; 0 where there is none.
pub open spec fn share_len(path: Seq<char>) -> int {
    let after = path.skip(2);
    let server = span(after, Class::NotSlash) as int;
    let share = span(after.skip(server + 1), Class::NotSlash) as int;
    if path.len() > 2 && is_separator(path[0]) && is_separator(path[1]) && 0 < server
        < after.len() && share > 0 {
        2 + server + 1 + share
    } else {
        0
    }
}

/// The length of what stands before the components of a path: a drive or a share, on Windows.
pub open spec fn prefix_len(path: Seq<char>, platform: Platform) -> int {
    if platform != Platform::Windows {
        0
    } else if has_drive(path) {
        2
    } else {
        share_len(path)
    }
}

fn find_share_len(path: &[char]) -> (n: usize)
    ensures
        n == share_len(path@),
        n <= path@.len(),
{
    if path.len() <= 2 || Class::NotSlash.test(path[0]) || Class::NotSlash.test(path[1]) {
        return 0;
    }
    let after = skip(path, 2);
    let server: usize = count_span(after, Class::NotSlash);
    if server == 0 || server >= after.len() {
        return 0;
    }
    let share: usize = count_span(skip(after, server + 1), Class::NotSlash);
    if share > 0 {
        2 + server + 1 + share
    } else {
        0
    }
}

fn find_prefix_len(path: &[char], platform: Platform) -> (n: usize)
    ensures
        n == prefix_len(path@, platform),
        n <= path@.len(),
{
    match platform {
        Platform::Windows => if begins_with_drive(path) {
            2
        } else {
            find_share_len(path)
        },
        _ => 0,
    }
}

/// A path without its drive or share.
pub open spec fn body_of(path: Seq<char>, platform: Platform) -> Seq<char> {
    path.skip(prefix_len(path, platform))
}

/// The file name of a path.
pub open spec fn file_name_on(path: Seq<char>, platform: Platform) -> Option<Seq<char>> {
    file_name_of(body_of(path, platform), plain_chars(platform))
}

/// Finds the file name of a path, as a range of positions.
pub fn find_file_name_on(path: &[char], platform: Platform) -> (r: Option<(usize, usize)>)
    ensures
        match r {
            Some((from, to)) => from <= to <= path@.len() && file_name_on(path@, platform) == Some(
                path@.subrange(from as int, to as int),
            ),
            None => file_name_on(path@, platform) is None,
        },
{
    let len: usize = path.len();
    let at: usize = find_prefix_len(path, platform);
    let body = skip(path, at);
    match find_file_name(body, path_class(platform)) {
        Some((from, to)) => {
            assert(at + to <= len);
            assert(path@.subrange(at + from, at + to) =~= body@.subrange(from as int, to as int));
            Some((at + from, at + to))
        },
        None => None,
    }
}

/// The file name of a path, or the whole path where it has none.
pub open spec fn name_or_self(path: Seq<char>, platform: Platform) -> Seq<char> {
    match file_name_on(path, platform) {
        Some(file) => file,
        None => path,
    }
}

/// The file name of a path, for a short display; a path without one is shown whole.
pub fn base_name(path: &str, platform: Platform) -> (r: String)
    ensures
        r@ == name_or_self(path@, platform),
{
    let chars = chars_of(path);
    match find_file_name_on(chars.as_slice(), platform) {
        Some((from, to)) => string_of(vstd::slice::slice_subrange(chars.as_slice(), from, to)),
        None => path.to_owned(),
    }
}

/// Whether a path is absolute: it begins at the root. On Windows that is a drive with a separator
/// right after it, or a share.
pub open spec fn absolute(path: Seq<char>, platform: Platform) -> bool {
    if platform == Platform::Windows {
        (has_drive(path) && path.len() > 2 && is_separator(path[2])) || share_len(path) > 0
    } else {
        rooted(path)
    }
}

/// Tests whether a path is absolute.
pub fn is_absolute(platform: Platform, path: &str) -> (r: bool)
    ensures
        r == absolute(path@, platform),
{
    let chars = chars_of(path);
    let s = chars.as_slice();
    match platform {
        Platform::Windows => (begins_with_drive(s) && s.len() > 2 && !Class::NotSlash.test(s[2]))
            || find_share_len(s) > 0,
        _ => s.len() > 0 && s[0] == '/',
    }
}

/// How much of a path is never dropped from its end: the root, or a `.` at its very beginning.
pub open spec fn fixed_len(s: Seq<char>, class: Class) -> int {
    if s.len() > 0 && (!class.has(s[0]) || (s[0] == '.' && (s.len() == 1 || !class.has(s[1])))) {
        1
    } else {
        0
    }
}

/// A path without the separators and the components `.` at its end.
pub open spec fn tidied(s: Seq<char>, class: Class) -> Seq<char>
    decreases s.len(),
{
    if s.len() > fixed_len(s, class) && (!class.has(s.last()) || (s.last() == '.' && (s.len() - 1
        == fixed_len(s, class) || !class.has(s[s.len() - 2])))) {
        tidied(s.drop_last(), class)
    } else {
        s
    }
}

/// A path without its last component; none where it has no component to lose.
pub open spec fn parent_of(s: Seq<char>, class: Class) -> Option<Seq<char>> {
    let t = tidied(s, class);
    if t.len() > fixed_len(t, class) {
        Some(tidied(t.take(t.len() - span_back(t, class)), class))
    } else if t.len() > 0 && class.has(t[0]) {
        Some(seq![])
    } else {
        None
    }
}

/// The directory that a path stands in, with its drive or share.
pub open spec fn parent_on(path: Seq<char>, platform: Platform) -> Option<Seq<char>> {
    match parent_of(body_of(path, platform), plain_chars(platform)) {
        Some(dir) => Some(path.take(prefix_len(path, platform)) + dir),
        None => None,
    }
}

fn find_fixed_len(s: &[char], class: Class) -> (n: usize)
    ensures
        n == fixed_len(s@, class),
{
    if s.len() > 0 && (!class.test(s[0]) || (s[0] == '.' && (s.len() == 1 || !class.test(s[1])))) {
        1
    } else {
        0
    }
}

fn tidy<'a>(s: &'a [char], class: Class) -> (r: &'a [char])
    ensures
        r@ == tidied(s@, class),
        r@.len() <= s@.len(),
        r@ == s@.take(r@.len() as int),
{
    let mut rest: &'a [char] = s;
    assert(s@ =~= s@.take(s@.len() as int));
    loop
        invariant
            tidied(rest@, class) == tidied(s@, class),
            rest@.len() <= s@.len(),
            rest@ == s@.take(rest@.len() as int),
        ensures
            rest@ == tidied(s@, class),
        decreases rest@.len(),
    {
        let n: usize = rest.len();
        let fixed: usize = find_fixed_len(rest, class);
        if n <= fixed {
            break;
        }
        let last: char = rest[n - 1];
        let dropped = !class.test(last) || (last == '.' && (n - 1 == fixed || !class.test(
            rest[n - 2],
        )));
        if !dropped {
            break;
        }
        rest = take(rest, n - 1);
        assert(rest@ =~= s@.take(n - 1));
    }
    rest
}

/// Finds the directory that a path stands in.
pub fn parent(path: &str, platform: Platform) -> (r: Option<String>)
    ensures
        match r {
            Some(dir) => parent_on(path@, platform) == Some(dir@),
            None => parent_on(path@, platform) is None,
        },
{
    let chars = chars_of(path);
    let class = path_class(platform);
    let at: usize = find_prefix_len(chars.as_slice(), platform);
    let t = tidy(skip(chars.as_slice(), at), class);
    let mut out = string_of(take(chars.as_slice(), at));
    if t.len() > find_fixed_len(t, class) {
        let n: usize = count_span_back(t, class);
        crate::text::push_chars(&mut out, tidy(take(t, t.len() - n), class));
        Some(out)
    } else if t.len() > 0 && class.test(t[0]) {
        assert(out@ =~= out@ + Seq::<char>::empty());
        Some(out)
    } else {
        None
    }
}

} // verus!
