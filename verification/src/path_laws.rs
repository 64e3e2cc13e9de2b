//! Laws of paths: a path that is put together from a directory and a name comes apart into the
//! same, on every platform.

use vstd::prelude::*;

use crate::clip::live_dir;
use crate::names::{components, file_name_of, path_equal};
use crate::paths::{
    absolute, body_of, file_name_on, has_drive, name_or_self, parent_of, parent_on,
    plain_chars, prefix_len, share_len, tidied,
};
use crate::platform::Platform;
use crate::text::{lemma_span, lemma_span_back_is, lemma_span_is, span, Class};

verus! {

/// Whether a character parts the components of a path on a platform: a slash, and on Windows a
/// backslash too.
pub open spec fn parts(c: char, platform: Platform) -> bool {
    c == '/' || (platform == Platform::Windows && c == '\\')
}

/// Whether a text is the name of a file or directory in a path: not empty, without a character
/// that parts, and neither `.` nor `..`.
pub open spec fn is_component(name: Seq<char>, platform: Platform) -> bool {
    &&& name.len() > 0
    &&& forall|i: int| 0 <= i < name.len() ==> !parts(#[trigger] name[i], platform)
    &&& name != seq!['.']
    &&& name != seq!['.', '.']
}

/// Whether a path begins with a drive on Windows: a letter and a colon.
pub open spec fn on_drive(path: Seq<char>) -> bool {
    &&& path.len() >= 2
    &&& (65 <= path[0] as int <= 90 || 97 <= path[0] as int <= 122)
    &&& path[1] == ':'
}

/// Whether a path begins as a share does on Windows: with two characters that part.
pub open spec fn like_share(path: Seq<char>) -> bool {
    &&& path.len() >= 2
    &&& parts(path[0], Platform::Windows)
    &&& parts(path[1], Platform::Windows)
}

/// The components of a path in two parts are those of the parts, one after the other.
pub proof fn law_components_join(a: Seq<char>, sep: char, b: Seq<char>, class: Class)
    requires
        !class.has(sep),
    ensures
        components(a + seq![sep] + b, class) == components(a, class) + components(b, class),
    decreases a.len(),
{
    let s = a + seq![sep] + b;
    if a.len() == 0 {
        assert(s[0] == sep);
        lemma_span_is(s, class, 0);
        assert(s.skip(1) =~= b);
        assert(components(a, class) + components(b, class) =~= components(b, class));
    } else {
        lemma_span(a, class);
        let n = span(a, class) as int;
        assert forall|i: int| 0 <= i < n implies class.has(#[trigger] s[i]) by {
            assert(s[i] == a[i]);
            assert(class.has(a[i]));
        }
        if n < a.len() {
            assert(s[n] == a[n]);
        } else {
            assert(s[n] == sep);
        }
        lemma_span_is(s, class, n);
        assert(s.take(n) =~= a.take(n));
        let rest = if n < a.len() {
            a.skip(n + 1)
        } else {
            seq![]
        };
        if n < a.len() {
            assert(s.skip(n + 1) =~= rest + seq![sep] + b);
            law_components_join(rest, sep, b, class);
        } else {
            assert(s.skip(n + 1) =~= b);
            assert(components(rest, class) + components(b, class) =~= components(b, class));
        }
        assert(components(s, class) =~= components(a, class) + components(b, class));
    }
}

/// A text that nothing parts is one component, or none where it is empty or `.`.
pub proof fn law_single_component(s: Seq<char>, class: Class)
    requires
        forall|i: int| 0 <= i < s.len() ==> class.has(#[trigger] s[i]),
    ensures
        s.len() == 0 || s == seq!['.'] ==> components(s, class) == Seq::<Seq<char>>::empty(),
        s.len() > 0 && s != seq!['.'] ==> components(s, class) == seq![s],
{
    reveal_with_fuel(components, 2);
    lemma_span_is(s, class, s.len() as int);
    assert(s.take(s.len() as int) =~= s);
    if s.len() > 0 && s != seq!['.'] {
        assert(components(s, class) =~= seq![s]);
    }
}

proof fn lemma_last_component(dir: Seq<char>, sep: char, name: Seq<char>, platform: Platform)
    requires
        parts(sep, platform),
        is_component(name, platform),
    ensures
        file_name_of(dir + seq![sep] + name, plain_chars(platform)) == Some(name),
        file_name_of(name, plain_chars(platform)) == Some(name),
{
    let class = plain_chars(platform);
    assert forall|i: int| 0 <= i < name.len() implies class.has(#[trigger] name[i]) by {
        assert(!parts(name[i], platform));
    }
    law_components_join(dir, sep, name, class);
    law_single_component(name, class);
    assert((components(dir, class) + seq![name]).last() == name);
}

/// What stands before the components where there is no share: the two characters of a drive, on
/// Windows, or nothing.
proof fn lemma_prefix(dir: Seq<char>, sep: char, name: Seq<char>, platform: Platform)
    requires
        parts(sep, platform),
        is_component(name, platform),
        platform == Platform::Windows ==> !like_share(dir),
    ensures
        prefix_len(dir + seq![sep] + name, platform) == if platform == Platform::Windows
            && on_drive(dir) {
            2int
        } else {
            0
        },
{
    let path = dir + seq![sep] + name;
    if platform == Platform::Windows {
        if dir.len() >= 2 {
            assert(path[0] == dir[0]);
            assert(path[1] == dir[1]);
        } else if dir.len() == 1 {
            assert(path[1] == sep);
            let after = path.skip(2);
            assert(after =~= name);
            assert forall|i: int| 0 <= i < name.len() implies Class::NotSlash.has(
                #[trigger] name[i],
            ) by {
                assert(!parts(name[i], platform));
            }
            lemma_span_is(name, Class::NotSlash, name.len() as int);
        } else {
            assert(path[0] == sep);
            assert(path[1] == name[0]);
            assert(!parts(name[0], platform));
        }
    }
}

/// The file name of a path is the name that its directory is followed by. (Shares have a law of
/// their own.)
pub proof fn law_file_name(dir: Seq<char>, sep: char, name: Seq<char>, platform: Platform)
    requires
        parts(sep, platform),
        is_component(name, platform),
        platform == Platform::Windows ==> !like_share(dir),
    ensures
        file_name_on(dir + seq![sep] + name, platform) == Some(name),
        name_or_self(dir + seq![sep] + name, platform) == name,
{
    let path = dir + seq![sep] + name;
    lemma_prefix(dir, sep, name, platform);
    let p = prefix_len(path, platform);
    assert(body_of(path, platform) =~= dir.skip(p) + seq![sep] + name);
    lemma_last_component(dir.skip(p), sep, name, platform);
}

/// A bare name is its own file name.
pub proof fn law_bare_name(name: Seq<char>, platform: Platform)
    requires
        is_component(name, platform),
        platform == Platform::Windows ==> !on_drive(name),
    ensures
        file_name_on(name, platform) == Some(name),
        name_or_self(name, platform) == name,
{
    assert(!parts(name[0], platform));
    assert(prefix_len(name, platform) == 0);
    assert(body_of(name, platform) =~= name);
    lemma_last_component(seq![], '/', name, platform);
}

/// A path that ends in `..` has no file name, and is shown whole.
pub proof fn law_parent_has_no_name(dir: Seq<char>, platform: Platform)
    requires
        platform != Platform::Windows,
    ensures
        file_name_on(dir + seq!['/', '.', '.'], platform) is None,
        name_or_self(dir + seq!['/', '.', '.'], platform) == dir + seq!['/', '.', '.'],
{
    let up = seq!['.', '.'];
    let path = dir + seq!['/', '.', '.'];
    let class = plain_chars(platform);
    assert(path =~= dir + seq!['/'] + up);
    assert(body_of(path, platform) =~= path);
    law_components_join(dir, '/', up, class);
    assert(up[0] == '.' && up.len() == 2);
    law_single_component(up, class);
    assert((components(dir, class) + seq![up]).last() == up);
}

/// The length of a share: its two first characters, the server, what parts it from its name, and
/// the name.
proof fn lemma_share(
    first: char,
    second: char,
    server: Seq<char>,
    sep: char,
    share: Seq<char>,
    rest: Seq<char>,
)
    requires
        parts(first, Platform::Windows),
        parts(second, Platform::Windows),
        parts(sep, Platform::Windows),
        server.len() > 0,
        share.len() > 0,
        forall|i: int| 0 <= i < server.len() ==> !parts(#[trigger] server[i], Platform::Windows),
        forall|i: int| 0 <= i < share.len() ==> !parts(#[trigger] share[i], Platform::Windows),
        rest.len() > 0 ==> parts(rest[0], Platform::Windows),
    ensures
        ({
            let path = seq![first, second] + server + seq![sep] + share + rest;
            &&& share_len(path) == 3 + server.len() + share.len()
            &&& !has_drive(path)
        }),
{
    let class = Class::NotSlash;
    let path = seq![first, second] + server + seq![sep] + share + rest;
    let after = path.skip(2);
    assert(after =~= server + seq![sep] + share + rest);
    assert forall|i: int| 0 <= i < server.len() implies class.has(#[trigger] after[i]) by {
        assert(after[i] == server[i]);
    }
    assert(after[server.len() as int] == sep);
    lemma_span_is(after, class, server.len() as int);
    let tail = after.skip(server.len() as int + 1);
    assert(tail =~= share + rest);
    assert forall|i: int| 0 <= i < share.len() implies class.has(#[trigger] tail[i]) by {
        assert(tail[i] == share[i]);
    }
    if rest.len() > 0 {
        assert(tail[share.len() as int] == rest[0]);
    }
    lemma_span_is(tail, class, share.len() as int);
    assert(path[0] == first);
    assert(path[1] == second);
}

/// A share is no part of the components of a path, and a path on a share is absolute.
pub proof fn law_share(
    first: char,
    second: char,
    server: Seq<char>,
    sep: char,
    share: Seq<char>,
    rest: Seq<char>,
    name: Seq<char>,
)
    requires
        parts(first, Platform::Windows),
        parts(second, Platform::Windows),
        parts(sep, Platform::Windows),
        server.len() > 0,
        share.len() > 0,
        forall|i: int| 0 <= i < server.len() ==> !parts(#[trigger] server[i], Platform::Windows),
        forall|i: int| 0 <= i < share.len() ==> !parts(#[trigger] share[i], Platform::Windows),
        rest.len() > 0 ==> parts(rest[0], Platform::Windows),
        is_component(name, Platform::Windows),
    ensures
        ({
            let root = seq![first, second] + server + seq![sep] + share;
            &&& file_name_on(root, Platform::Windows) is None
            &&& file_name_on(root + rest + seq![sep] + name, Platform::Windows) == Some(name)
            &&& absolute(root + rest, Platform::Windows)
        }),
{
    let none = Seq::<char>::empty();
    let root = seq![first, second] + server + seq![sep] + share;
    lemma_share(first, second, server, sep, share, none);
    assert(root + none =~= root);
    assert(body_of(root, Platform::Windows) =~= none);
    lemma_share(first, second, server, sep, share, rest);
    let tail = rest + seq![sep] + name;
    lemma_share(first, second, server, sep, share, tail);
    let path = root + rest + seq![sep] + name;
    assert(path =~= root + tail);
    assert(body_of(path, Platform::Windows) =~= tail);
    lemma_last_component(rest, sep, name, Platform::Windows);
}

/// On Windows a path is absolute with a drive and a character that parts right after it, or on a
/// share; one that begins with neither is not. Elsewhere it is where it begins with a slash.
pub proof fn law_absolute(path: Seq<char>, platform: Platform)
    ensures
        platform != Platform::Windows ==> (absolute(path, platform) <==> path.len() > 0 && path[0]
            == '/'),
        on_drive(path) ==> (absolute(path, Platform::Windows) <==> path.len() > 2 && parts(
            path[2],
            Platform::Windows,
        )),
        !on_drive(path) && !like_share(path) ==> !absolute(path, Platform::Windows),
        like_share(path) && path.len() > 2 && parts(path[2], Platform::Windows) ==> !absolute(
            path,
            Platform::Windows,
        ),
        like_share(path) && (forall|i: int|
            2 <= i < path.len() ==> !parts(#[trigger] path[i], Platform::Windows)) ==> !absolute(
            path,
            Platform::Windows,
        ),
{
    let after = path.skip(2);
    if like_share(path) && path.len() > 2 {
        if parts(path[2], Platform::Windows) {
            assert(after[0] == path[2]);
            lemma_span_is(after, Class::NotSlash, 0);
        }
        if forall|i: int| 2 <= i < path.len() ==> !parts(#[trigger] path[i], Platform::Windows) {
            assert forall|i: int| 0 <= i < after.len() implies Class::NotSlash.has(
                #[trigger] after[i],
            ) by {
                assert(!parts(path[i + 2], Platform::Windows));
            }
            lemma_span_is(after, Class::NotSlash, after.len() as int);
        }
    }
}

proof fn lemma_parent(dir: Seq<char>, sep: char, name: Seq<char>, platform: Platform)
    requires
        parts(sep, platform),
        is_component(name, platform),
        dir.len() > 0,
        !parts(dir.last(), platform),
        dir.last() != '.',
    ensures
        parent_of(dir + seq![sep] + name, plain_chars(platform)) == Some(dir),
{
    let class = plain_chars(platform);
    let s = dir + seq![sep] + name;
    assert(!parts(name[name.len() - 1], platform));
    assert(s.last() == name[name.len() - 1]);
    if s.last() == '.' {
        if name.len() == 1 {
            assert(name =~= seq!['.']);
        } else {
            assert(s[s.len() - 2] == name[name.len() - 2]);
            assert(!parts(name[name.len() - 2], platform));
        }
    }
    assert(tidied(s, class) == s);
    let at = dir.len() + 1;
    assert forall|i: int| at <= i < s.len() implies class.has(#[trigger] s[i]) by {
        assert(s[i] == name[i - at]);
        assert(!parts(name[i - at], platform));
    }
    assert(s[at - 1] == sep);
    lemma_span_back_is(s, class, at as int);
    let front = s.take(at as int);
    assert(front =~= dir + seq![sep]);
    assert(front.last() == sep);
    assert(front.drop_last() =~= dir);
    assert(tidied(dir, class) == dir);
    assert(tidied(front, class) == tidied(dir, class));
}

/// The directory of a path is what its last name follows, the drive with it. (A directory that is
/// given in a roundabout way, with `.` or parting characters at its end, is given plainly.)
pub proof fn law_parent(dir: Seq<char>, sep: char, name: Seq<char>, platform: Platform)
    requires
        parts(sep, platform),
        is_component(name, platform),
        dir.len() > if platform == Platform::Windows && on_drive(dir) {
            2int
        } else {
            0
        },
        !parts(dir.last(), platform),
        dir.last() != '.',
        platform == Platform::Windows ==> !like_share(dir),
    ensures
        parent_on(dir + seq![sep] + name, platform) == Some(dir),
{
    let path = dir + seq![sep] + name;
    lemma_prefix(dir, sep, name, platform);
    let p = prefix_len(path, platform);
    assert(body_of(path, platform) =~= dir.skip(p) + seq![sep] + name);
    lemma_parent(dir.skip(p), sep, name, platform);
    assert(path.take(p) + dir.skip(p) =~= dir);
}

/// What stands at the root has the root for its directory, and a bare name has an empty one.
pub proof fn law_parent_at_the_root(name: Seq<char>, platform: Platform)
    requires
        platform != Platform::Windows,
        is_component(name, platform),
    ensures
        parent_on(seq!['/'] + name, platform) == Some(seq!['/']),
        parent_on(name, platform) == Some(Seq::<char>::empty()),
        parent_on(seq!['/'], platform) is None,
        parent_on(Seq::<char>::empty(), platform) is None,
{
    reveal_with_fuel(tidied, 2);
    let class = plain_chars(platform);
    let root = seq!['/'];
    let s = root + name;
    assert(body_of(s, platform) =~= s);
    assert(body_of(name, platform) =~= name);
    assert(body_of(root, platform) =~= root);
    assert(body_of(Seq::<char>::empty(), platform) =~= Seq::<char>::empty());
    assert(!parts(name[name.len() - 1], platform));
    assert(!parts(name[0], platform));
    assert(s.last() == name[name.len() - 1]);
    if s.last() == '.' {
        if name.len() == 1 {
            assert(name =~= seq!['.']);
        } else {
            assert(s[s.len() - 2] == name[name.len() - 2]);
            assert(!parts(name[name.len() - 2], platform));
        }
    }
    assert(tidied(s, class) == s);
    assert(tidied(name, class) == name);
    assert forall|i: int| 1 <= i < s.len() implies class.has(#[trigger] s[i]) by {
        assert(s[i] == name[i - 1]);
        assert(!parts(name[i - 1], platform));
    }
    lemma_span_back_is(s, class, 1);
    assert(s.take(1) =~= root);
    assert forall|i: int| 0 <= i < name.len() implies class.has(#[trigger] name[i]) by {
        assert(!parts(name[i], platform));
    }
    lemma_span_back_is(name, class, 0);
    assert(name.take(0) =~= Seq::<char>::empty());
    assert(s.take(0) + root =~= root);
    assert(name.take(0) + Seq::<char>::empty() =~= Seq::<char>::empty());
}

/// Two paths are the same where both begin at the root or neither, both with a `.` or neither, and
/// where they have the same components; how many slashes part those, or end the path, and a `.`
/// in between, make no difference.
pub proof fn law_same_path(a: Seq<char>, b: Seq<char>)
    requires
        a.len() > 0,
    ensures
        path_equal(a, a),
        path_equal(a + seq!['/'] + b, a + seq!['/', '/'] + b),
        path_equal(a + seq!['/'] + b, a + seq!['/', '.', '/'] + b),
        path_equal(a + seq!['/'], a),
        path_equal(a, b) <==> {
            let dot_a = a[0] == '.' && (a.len() == 1 || a[1] == '/');
            let dot_b = b.len() > 0 && b[0] == '.' && (b.len() == 1 || b[1] == '/');
            &&& a[0] == '/' <==> b.len() > 0 && b[0] == '/'
            &&& dot_a <==> dot_b
            &&& components(a, Class::Except('/')) == components(b, Class::Except('/'))
        },
{
    let class = Class::Except('/');
    let none = Seq::<char>::empty();
    let p = a + seq!['/'] + b;
    let q = a + seq!['/', '/'] + b;
    let r = a + seq!['/', '.', '/'] + b;
    let dot = seq!['.'];
    law_components_join(a, '/', b, class);
    law_components_join(a, '/', seq!['/'] + b, class);
    law_components_join(none, '/', b, class);
    law_components_join(a, '/', dot + seq!['/'] + b, class);
    law_components_join(dot, '/', b, class);
    law_components_join(a, '/', none, class);
    law_single_component(dot, class);
    assert(q =~= a + seq!['/'] + (seq!['/'] + b));
    assert(none + seq!['/'] + b =~= seq!['/'] + b);
    assert(r =~= a + seq!['/'] + (dot + seq!['/'] + b));
    assert(a + seq!['/'] + none =~= a + seq!['/']);
    assert(components(none, class) + components(b, class) =~= components(b, class));
    assert(components(a, class) + components(none, class) =~= components(a, class));
    assert(p[0] == a[0] && q[0] == a[0] && r[0] == a[0]);
    assert(a.len() > 1 ==> p[1] == a[1] && q[1] == a[1] && r[1] == a[1]);
    assert(a.len() == 1 ==> p[1] == '/' && q[1] == '/' && r[1] == '/');
}

/// A live clip is cut in the directory of the file that is being recorded, wherever that is; only a
/// file without a directory leaves the output directory.
pub proof fn law_live_clip_stays_beside_its_file(
    dir: Seq<char>,
    sep: char,
    name: Seq<char>,
    platform: Platform,
    output_dir: Seq<char>,
)
    requires
        parts(sep, platform),
        is_component(name, platform),
        dir.len() > 2,
        !parts(dir.last(), platform),
        dir.last() != '.',
        platform == Platform::Windows ==> !like_share(dir),
    ensures
        live_dir(platform, dir + seq![sep] + name, output_dir) == dir,
        live_dir(Platform::Linux, seq!['/'], output_dir) == output_dir,
{
    law_parent(dir, sep, name, platform);
    assert(body_of(seq!['/'], Platform::Linux) =~= seq!['/']);
    reveal_with_fuel(tidied, 2);
}

/// Slashes at the end of a path, and a `.` after them, change nothing of its file name.
pub proof fn law_ends_of_names(path: Seq<char>, platform: Platform)
    requires
        platform != Platform::Windows,
    ensures
        file_name_on(path + seq!['/'], platform) == file_name_on(path, platform),
        file_name_on(path + seq!['/', '.'], platform) == file_name_on(path, platform),
{
    let class = plain_chars(platform);
    let none = Seq::<char>::empty();
    let dot = seq!['.'];
    let a = path + seq!['/'];
    let b = path + seq!['/', '.'];
    assert(body_of(path, platform) =~= path);
    assert(body_of(a, platform) =~= a);
    assert(body_of(b, platform) =~= b);
    law_components_join(path, '/', none, class);
    assert(path + seq!['/'] + none =~= a);
    assert(components(path, class) + components(none, class) =~= components(path, class));
    law_components_join(path, '/', dot, class);
    assert(path + seq!['/'] + dot =~= b);
    law_single_component(dot, class);
    assert(components(path, class) + components(dot, class) =~= components(path, class));
}

/// Nor do they change its directory; nor do more slashes than one before its name.
pub proof fn law_ends_of_directories(path: Seq<char>, name: Seq<char>, platform: Platform)
    requires
        platform != Platform::Windows,
        path.len() > 0,
        is_component(name, platform),
    ensures
        parent_on(path + seq!['/'], platform) == parent_on(path, platform),
        parent_on(path + seq!['/', '.'], platform) == parent_on(path, platform),
        parent_on(path + seq!['/', '/'] + name, platform) == parent_on(
            path + seq!['/'] + name,
            platform,
        ),
{
    let class = plain_chars(platform);
    let a = path + seq!['/'];
    let b = path + seq!['/', '.'];
    let twice = a + seq!['/'];
    assert(body_of(path, platform) =~= path);
    assert(body_of(a, platform) =~= a);
    assert(body_of(b, platform) =~= b);
    assert(a.take(0) =~= path.take(0));
    assert(b.take(0) =~= path.take(0));
    lemma_last_is_dropped(path, '/', platform);
    lemma_last_is_dropped(a, '.', platform);
    assert(a.push('.') =~= b);
    assert(path.push('/') =~= a);
    lemma_front(path, name, platform);
    lemma_front(a, name, platform);
    assert(a + seq!['/'] + name =~= path + seq!['/', '/'] + name);
    lemma_last_is_dropped(a, '/', platform);
    assert(a.push('/') =~= twice);
}

proof fn lemma_last_is_dropped(s: Seq<char>, c: char, platform: Platform)
    requires
        platform != Platform::Windows,
        s.len() > 0,
        c == '/' || (c == '.' && s.len() > 1 && s.last() == '/'),
    ensures
        tidied(s.push(c), plain_chars(platform)) == tidied(s, plain_chars(platform)),
{
    assert(s.push(c).drop_last() =~= s);
    assert(s.push(c)[s.len() - 1] == s.last());
}

/// A path that begins with a `.` keeps it: it is a directory of its own.
pub proof fn law_parent_of_the_dotted(name: Seq<char>, platform: Platform)
    requires
        platform != Platform::Windows,
        is_component(name, platform),
    ensures
        parent_on(seq!['.', '/'] + name, platform) == Some(seq!['.']),
        parent_on(seq!['.'], platform) == Some(Seq::<char>::empty()),
{
    reveal_with_fuel(tidied, 2);
    let dot = seq!['.'];
    lemma_front(dot, name, platform);
    assert(dot + seq!['/'] + name =~= seq!['.', '/'] + name);
    lemma_last_is_dropped(dot, '/', platform);
    assert(dot.push('/') =~= dot + seq!['/']);
    assert(body_of(dot, platform) =~= dot);
    assert(dot.take(0) + Seq::<char>::empty() =~= Seq::<char>::empty());
}

/// A server alone is no share: without the name of one, a path is not absolute.
pub proof fn law_server_alone_is_no_share(
    first: char,
    second: char,
    server: Seq<char>,
    sep: char,
    rest: Seq<char>,
)
    requires
        parts(first, Platform::Windows),
        parts(second, Platform::Windows),
        parts(sep, Platform::Windows),
        server.len() > 0,
        forall|i: int| 0 <= i < server.len() ==> !parts(#[trigger] server[i], Platform::Windows),
        rest.len() > 0 ==> parts(rest[0], Platform::Windows),
    ensures
        !absolute(seq![first, second] + server + seq![sep] + rest, Platform::Windows),
{
    let class = Class::NotSlash;
    let path = seq![first, second] + server + seq![sep] + rest;
    let after = path.skip(2);
    assert(after =~= server + seq![sep] + rest);
    assert forall|i: int| 0 <= i < server.len() implies class.has(#[trigger] after[i]) by {
        assert(after[i] == server[i]);
    }
    assert(after[server.len() as int] == sep);
    lemma_span_is(after, class, server.len() as int);
    let tail = after.skip(server.len() as int + 1);
    assert(tail =~= rest);
    lemma_span_is(tail, class, 0);
    assert(path[0] == first);
}

proof fn lemma_front(dir: Seq<char>, name: Seq<char>, platform: Platform)
    requires
        platform != Platform::Windows,
        dir.len() > 0,
        is_component(name, platform),
    ensures
        parent_on(dir + seq!['/'] + name, platform) == Some(
            tidied(dir + seq!['/'], plain_chars(platform)),
        ),
{
    let class = plain_chars(platform);
    let s = dir + seq!['/'] + name;
    assert(body_of(s, platform) =~= s);
    assert(!parts(name[name.len() - 1], platform));
    assert(s.last() == name[name.len() - 1]);
    if s.last() == '.' {
        if name.len() == 1 {
            assert(name =~= seq!['.']);
        } else {
            assert(s[s.len() - 2] == name[name.len() - 2]);
            assert(!parts(name[name.len() - 2], platform));
        }
    }
    assert(tidied(s, class) == s);
    let at = dir.len() + 1;
    assert forall|i: int| at <= i < s.len() implies class.has(#[trigger] s[i]) by {
        assert(s[i] == name[i - at]);
        assert(!parts(name[i - at], platform));
    }
    assert(s[at - 1] == '/');
    lemma_span_back_is(s, class, at as int);
    assert(s.take(at as int) =~= dir + seq!['/']);
    assert(s.take(0) + tidied(dir + seq!['/'], class) =~= tidied(dir + seq!['/'], class));
}

} // verus!
