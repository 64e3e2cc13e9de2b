//! The main window of Discord among the X11 windows.
//!
//! Discord runs as an X11 client: its window can be captured directly, without a portal. Its main
//! window is the largest of class `discord`; the others are helpers of a few pixels.
//!
//! A window is listed as `<id> "title": ("instance" "class")  <W>x<H>+<X>+<Y>  +<X>+<Y>`. The title
//! may hold anything; what follows the bracket holds no bracket, so the last one is the window's.

use vstd::prelude::*;
use vstd::utf8::{decode_utf8, valid_utf8};

use crate::lossy::{lossy_text, read_text};
use crate::name_laws::{alike, lemma_alike};
use crate::scan::{
    lines, lowered, same_text, slice_views, split_at_first, split_lines, split_once, split_words,
    to_lower, words,
};
use crate::text::{
    all_digits, chars_of, count_span_back, decimal, is_digit, is_white_space,
    law_decimal_reads_back, lemma_decimal_digits, lemma_span_back_is, parse_u32, parse_u64, parsed,
    skip, span_back, take, Class,
};
use crate::text_laws::{law_split_at_first, law_words};

verus! {

/// The least surface, in square pixels, of a window that is no helper.
pub const MIN_AREA: u64 = 200_000;

/// A window of Discord.
#[derive(Debug, Clone, Copy, PartialEq, Eq, Structural)]
pub struct DiscordWindow {
    pub xid: u64,
    /// The size when the window was found, to which the picture is pinned.
    pub width: u32,
    pub height: u32,
}

impl DiscordWindow {
    /// The surface in square pixels.
    pub open spec fn surface(self) -> nat {
        self.width as nat * self.height as nat
    }

    /// The surface in square pixels.
    pub fn area(&self) -> (r: u64)
        ensures
            r == self.surface(),
    {
        proof {
            assert(0 <= self.width * self.height <= u32::MAX * u32::MAX) by (nonlinear_arith)
                requires
                    0 <= self.width <= u32::MAX,
                    0 <= self.height <= u32::MAX,
            ;
        }
        (self.width as u64) * (self.height as u64)
    }
}

/// The width and height that a word of the form `<W>x<H>+…` gives.
pub open spec fn geometry_of(word: Seq<char>) -> Option<(nat, nat)> {
    match split_at_first(word, 'x') {
        Some((w, rest)) => match split_at_first(rest, '+') {
            Some((h, _)) => match (parsed(w, u32::MAX as nat), parsed(h, u32::MAX as nat)) {
                (Some(width), Some(height)) => Some((width, height)),
                _ => None,
            },
            None => None,
        },
        None => None,
    }
}

/// A text that ends with a name in quotes: what stands before it, and the name.
pub open spec fn quoted_at_end(s: Seq<char>) -> Option<(Seq<char>, Seq<char>)> {
    let t = s.drop_last();
    let n = span_back(t, Class::Except('"')) as int;
    if s.len() > 0 && s.last() == '"' && n < t.len() {
        Some((t.take(t.len() - n - 1), t.skip(t.len() - n)))
    } else {
        None
    }
}

/// What the last bracket of a line says, where it has the form `("instance" "class")`: the class,
/// and what follows the bracket.
pub open spec fn class_and_rest(line: Seq<char>) -> Option<(Seq<char>, Seq<char>)> {
    let n = span_back(line, Class::Except(')')) as int;
    if n >= line.len() {
        None
    } else {
        match quoted_at_end(line.take(line.len() - n - 1)) {
            Some((before, class)) => if before.len() > 0 && before.last() == ' ' {
                match quoted_at_end(before.drop_last()) {
                    Some((opening, _)) => if opening.len() > 0 && opening.last() == '(' {
                        Some((class, line.skip(line.len() - n)))
                    } else {
                        None
                    },
                    None => None,
                }
            } else {
                None
            },
            None => None,
        }
    }
}

/// What the first word that gives a width and height gives, from position `from` on.
pub open spec fn first_geometry(words: Seq<Seq<char>>, from: int) -> Option<(nat, nat)>
    decreases words.len() - from,
{
    if from < 0 || from >= words.len() {
        None
    } else if geometry_of(words[from]) is Some {
        geometry_of(words[from])
    } else {
        first_geometry(words, from + 1)
    }
}

/// The number that the first word spells.
pub open spec fn leading_number(words: Seq<Seq<char>>) -> Option<nat> {
    if words.len() > 0 {
        parsed(words[0], u64::MAX as nat)
    } else {
        None
    }
}

/// The window of class `discord` that a line describes: its number at the start of the line, its
/// size after the bracket with its class.
pub open spec fn window_of(line: Seq<char>) -> Option<DiscordWindow> {
    match class_and_rest(line) {
        Some((class, rest)) => {
            let id = leading_number(words(line));
            let size = first_geometry(words(rest), 0);
            if lowered(class) == "discord"@ && id is Some && size is Some {
                Some(
                    DiscordWindow {
                        xid: id->0 as u64,
                        width: (size->0).0 as u32,
                        height: (size->0).1 as u32,
                    },
                )
            } else {
                None
            }
        },
        None => None,
    }
}

proof fn lemma_quoted_at_end(before: Seq<char>, name: Seq<char>)
    requires
        !name.contains('"'),
    ensures
        quoted_at_end(before + seq!['"'] + name + seq!['"']) == Some((before, name)),
{
    let s = before + seq!['"'] + name + seq!['"'];
    let t = s.drop_last();
    assert(t =~= before + seq!['"'] + name);
    let at = before.len() + 1;
    assert forall|i: int| at <= i < t.len() implies Class::Except('"').has(#[trigger] t[i]) by {
        assert(t[i] == name[i - at]);
    }
    assert(t[at - 1] == '"');
    lemma_span_back_is(t, Class::Except('"'), at as int);
    assert(t.take(at - 1) =~= before);
    assert(t.skip(at as int) =~= name);
}

/// Whatever the title is, class and size are read from the window's own bracket and from what
/// follows it.
pub proof fn law_title_does_not_count(
    title: Seq<char>,
    instance: Seq<char>,
    class: Seq<char>,
    rest: Seq<char>,
)
    requires
        !instance.contains('"'),
        !class.contains('"'),
        !rest.contains(')'),
    ensures
        class_and_rest(
            title + seq!['(', '"'] + instance + seq!['"', ' ', '"'] + class + seq!['"', ')'] + rest,
        ) == Some((class, rest)),
{
    let line = title + seq!['(', '"'] + instance + seq!['"', ' ', '"'] + class + seq!['"', ')']
        + rest;
    let at = line.len() - rest.len();
    assert forall|i: int| at <= i < line.len() implies Class::Except(')').has(
        #[trigger] line[i],
    ) by {
        assert(line[i] == rest[i - at]);
    }
    assert(line[at - 1] == ')');
    lemma_span_back_is(line, Class::Except(')'), at as int);
    assert(line.skip(at as int) =~= rest);
    let opening = title + seq!['('];
    let before = opening + seq!['"'] + instance + seq!['"'] + seq![' '];
    assert(line.take(at - 1) =~= before + seq!['"'] + class + seq!['"']);
    lemma_quoted_at_end(before, class);
    assert(before.drop_last() =~= opening + seq!['"'] + instance + seq!['"']);
    lemma_quoted_at_end(opening, instance);
}

/// The windows that lines describe, in order.
pub open spec fn windows_of(lines: Seq<Seq<char>>) -> Seq<DiscordWindow>
    decreases lines.len(),
{
    if lines.len() == 0 {
        seq![]
    } else {
        match window_of(lines.last()) {
            Some(window) => windows_of(lines.drop_last()).push(window),
            None => windows_of(lines.drop_last()),
        }
    }
}

/// Whether `window` is the first of the largest windows.
pub open spec fn is_largest(windows: Seq<DiscordWindow>, window: DiscordWindow) -> bool {
    exists|i: int|
        {
            &&& 0 <= i < windows.len()
            &&& #[trigger] windows[i] == window
            &&& forall|j: int|
                0 <= j < windows.len() ==> (#[trigger] windows[j]).surface() <= window.surface()
            &&& forall|j: int| 0 <= j < i ==> (#[trigger] windows[j]).surface() < window.surface()
        }
}

/// Whether `found` is the main window: the first of the largest, unless none is large enough.
pub open spec fn is_main_window(
    windows: Seq<DiscordWindow>,
    found: Option<DiscordWindow>,
) -> bool {
    match found {
        Some(window) => is_largest(windows, window) && window.surface() >= MIN_AREA,
        None => forall|i: int|
            0 <= i < windows.len() ==> (#[trigger] windows[i]).surface() < MIN_AREA,
    }
}

/// There is one main window at most: what is found is determined by the windows.
pub proof fn law_main_window_is_unique(
    windows: Seq<DiscordWindow>,
    a: Option<DiscordWindow>,
    b: Option<DiscordWindow>,
)
    requires
        is_main_window(windows, a),
        is_main_window(windows, b),
    ensures
        a == b,
{
    if let (Some(x), Some(y)) = (a, b) {
        let i = choose|i: int|
            {
                &&& 0 <= i < windows.len()
                &&& #[trigger] windows[i] == x
                &&& forall|j: int|
                    0 <= j < windows.len() ==> (#[trigger] windows[j]).surface() <= x.surface()
                &&& forall|j: int| 0 <= j < i ==> (#[trigger] windows[j]).surface() < x.surface()
            };
        let k = choose|i: int|
            {
                &&& 0 <= i < windows.len()
                &&& #[trigger] windows[i] == y
                &&& forall|j: int|
                    0 <= j < windows.len() ==> (#[trigger] windows[j]).surface() <= y.surface()
                &&& forall|j: int| 0 <= j < i ==> (#[trigger] windows[j]).surface() < y.surface()
            };
        assert(windows[i].surface() == windows[k].surface());
        assert(i == k);
    }
}

fn find_geometry(word: &[char]) -> (r: Option<(u32, u32)>)
    ensures
        match r {
            Some((w, h)) => geometry_of(word@) == Some((w as nat, h as nat)),
            None => geometry_of(word@) is None,
        },
{
    match split_once(word, 'x') {
        Some((w, rest)) => match split_once(rest, '+') {
            Some((h, _)) => match (parse_u32(w), parse_u32(h)) {
                (Some(width), Some(height)) => Some((width, height)),
                _ => None,
            },
            None => None,
        },
        None => None,
    }
}

fn find_quoted_at_end<'a>(s: &'a [char]) -> (r: Option<(&'a [char], &'a [char])>)
    ensures
        match r {
            Some((before, name)) => quoted_at_end(s@) == Some((before@, name@)),
            None => quoted_at_end(s@) is None,
        },
{
    let len: usize = s.len();
    if len == 0 || s[len - 1] != '"' {
        return None;
    }
    let t = take(s, len - 1);
    assert(t@ =~= s@.drop_last());
    let n: usize = count_span_back(t, Class::Except('"'));
    if n < t.len() {
        Some((take(t, t.len() - n - 1), skip(t, t.len() - n)))
    } else {
        None
    }
}

fn find_class_and_rest<'a>(line: &'a [char]) -> (r: Option<(&'a [char], &'a [char])>)
    ensures
        match r {
            Some((class, rest)) => class_and_rest(line@) == Some((class@, rest@)),
            None => class_and_rest(line@) is None,
        },
{
    let n: usize = count_span_back(line, Class::Except(')'));
    if n >= line.len() {
        return None;
    }
    match find_quoted_at_end(take(line, line.len() - n - 1)) {
        Some((before, class)) => {
            let len: usize = before.len();
            if len == 0 || before[len - 1] != ' ' {
                return None;
            }
            let names = take(before, len - 1);
            assert(names@ =~= before@.drop_last());
            match find_quoted_at_end(names) {
                Some((opening, _)) => {
                    let k: usize = opening.len();
                    if k > 0 && opening[k - 1] == '(' {
                        Some((class, skip(line, line.len() - n)))
                    } else {
                        None
                    }
                },
                None => None,
            }
        },
        None => None,
    }
}

fn find_window(line: &[char]) -> (r: Option<DiscordWindow>)
    ensures
        r == window_of(line@),
{
    let (class, rest): (&[char], &[char]) = match find_class_and_rest(line) {
        Some(found) => found,
        None => {
            return None;
        },
    };
    if !same_text(to_lower(class).as_slice(), chars_of("discord").as_slice()) {
        return None;
    }
    let front = split_words(line);
    if front.len() == 0 {
        assert(words(line@).len() == 0);
        return None;
    }
    assert(words(line@)[0] == front@[0]@);
    let xid: u64 = match parse_u64(front[0]) {
        Some(xid) => xid,
        None => {
            return None;
        },
    };
    let all = split_words(rest);
    let ghost views = slice_views(all@);
    let mut i: usize = 0;
    while i < all.len()
        invariant
            i <= all@.len(),
            views == slice_views(all@),
            views == words(rest@),
            class_and_rest(line@) == Some((class@, rest@)),
            lowered(class@) == "discord"@,
            leading_number(words(line@)) == Some(xid as nat),
            first_geometry(views, 0) == first_geometry(views, i as int),
        decreases all@.len() - i,
    {
        assert(views[i as int] == all@[i as int]@);
        if let Some((width, height)) = find_geometry(all[i]) {
            return Some(DiscordWindow { xid, width, height });
        }
        i += 1;
    }
    None
}

/// Finds the main window in what `xwininfo -root -tree -int` prints.
pub fn parse_xwininfo_tree(text: &str) -> (r: Option<DiscordWindow>)
    ensures
        is_main_window(windows_of(lines(text@)), r),
{
    let chars = chars_of(text);
    let all = split_lines(chars.as_slice());
    let ghost views = slice_views(all@);
    let mut best: Option<DiscordWindow> = None;
    let mut i: usize = 0;
    while i < all.len()
        invariant
            i <= all@.len(),
            views == slice_views(all@),
            match best {
                Some(b) => b.surface() > 0 && is_largest(windows_of(views.take(i as int)), b),
                None => forall|j: int|
                    0 <= j < windows_of(views.take(i as int)).len() ==> (
                    #[trigger] windows_of(views.take(i as int))[j]).surface() == 0,
            },
        decreases all@.len() - i,
    {
        let ghost seen = windows_of(views.take(i as int));
        let ghost next = windows_of(views.take(i + 1));
        proof {
            assert(views.take(i + 1).drop_last() =~= views.take(i as int));
            assert(views[i as int] == all@[i as int]@);
        }
        if let Some(window) = find_window(all[i]) {
            assert(next == seen.push(window));
            let largest: u64 = match best {
                Some(b) => b.area(),
                None => 0,
            };
            if window.area() > largest {
                best = Some(window);
                proof {
                    assert(next[next.len() - 1] == window);
                    assert forall|j: int| 0 <= j < next.len() - 1 implies (
                    #[trigger] next[j]).surface() < window.surface() by {
                        assert(next[j] == seen[j]);
                    }
                }
            } else if let Some(b) = best {
                proof {
                    let k = choose|k: int|
                        {
                            &&& 0 <= k < seen.len()
                            &&& #[trigger] seen[k] == b
                            &&& forall|j: int|
                                0 <= j < seen.len() ==> (#[trigger] seen[j]).surface()
                                    <= b.surface()
                            &&& forall|j: int|
                                0 <= j < k ==> (#[trigger] seen[j]).surface() < b.surface()
                        };
                    assert(next[k] == b);
                    assert forall|j: int| 0 <= j < next.len() implies (
                    #[trigger] next[j]).surface() <= b.surface() by {
                        if j < seen.len() {
                            assert(next[j] == seen[j]);
                        }
                    }
                    assert forall|j: int| 0 <= j < k implies (#[trigger] next[j]).surface()
                        < b.surface() by {
                        assert(next[j] == seen[j]);
                    }
                }
            }
        }
        i += 1;
    }
    assert(views.take(i as int) =~= views);
    match best {
        Some(b) => {
            if b.area() >= MIN_AREA {
                Some(b)
            } else {
                None
            }
        },
        None => None,
    }
}

/// Finds the main window, given whether `xwininfo` succeeded and what it printed; there is none
/// without an X server.
pub fn find_discord_window(success: bool, stdout: &[u8]) -> (r: Option<DiscordWindow>)
    ensures
        if success {
            is_main_window(windows_of(lines(lossy_text(stdout@))), r)
        } else {
            r is None
        },
        success && valid_utf8(stdout@) ==> is_main_window(
            windows_of(lines(decode_utf8(stdout@))),
            r,
        ),
{
    if success {
        parse_xwininfo_tree(read_text(stdout).as_str())
    } else {
        None
    }
}

/// A size is read back as it was written: `<W>x<H>+…`.
pub proof fn law_geometry_is_read(width: u32, height: u32, rest: Seq<char>)
    ensures
        geometry_of(
            decimal(width as nat) + seq!['x'] + decimal(height as nat) + seq!['+'] + rest,
        ) == Some((width as nat, height as nat)),
{
    let w = decimal(width as nat);
    let h = decimal(height as nat);
    lemma_decimal_digits(width as nat);
    lemma_decimal_digits(height as nat);
    lemma_no_digit(w, 'x');
    lemma_no_digit(h, '+');
    let word = w + seq!['x'] + h + seq!['+'] + rest;
    assert(word =~= w + seq!['x'] + (h + seq!['+'] + rest));
    law_split_at_first(w, 'x', h + seq!['+'] + rest);
    law_split_at_first(h, '+', rest);
    law_decimal_reads_back(width as nat, u32::MAX as nat);
    law_decimal_reads_back(height as nat, u32::MAX as nat);
}

proof fn lemma_no_digit(s: Seq<char>, c: char)
    requires
        all_digits(s),
        !is_digit(c),
    ensures
        !s.contains(c),
{
    if s.contains(c) {
        let i = choose|i: int| 0 <= i < s.len() && s[i] == c;
        assert(is_digit(s[i]));
    }
}

/// A size and a place as they are listed.
pub open spec fn size_text(width: u32, height: u32, place: Seq<char>) -> Seq<char> {
    decimal(width as nat) + seq!['x'] + decimal(height as nat) + seq!['+'] + place
}

/// What a listed line holds after the bracket: size and place, and whatever ends it.
pub open spec fn line_end(size: Seq<char>, end: Seq<char>) -> Seq<char> {
    seq![' ', ' '] + size + seq![' '] + end
}

/// What a listed line holds from the title on.
pub open spec fn line_from_title(
    title: Seq<char>,
    instance: Seq<char>,
    class: Seq<char>,
    rest: Seq<char>,
) -> Seq<char> {
    title + seq!['(', '"'] + instance + seq!['"', ' ', '"'] + class + seq!['"', ')'] + rest
}

proof fn lemma_size_chars(width: u32, height: u32, place: Seq<char>, c: char)
    requires
        !is_digit(c),
        c != 'x',
        c != '+',
        !place.contains(c),
    ensures
        !size_text(width, height, place).contains(c),
{
    let w = decimal(width as nat);
    let h = decimal(height as nat);
    let size = size_text(width, height, place);
    lemma_decimal_digits(width as nat);
    lemma_decimal_digits(height as nat);
    lemma_no_digit(w, c);
    lemma_no_digit(h, c);
    if size.contains(c) {
        let k = choose|k: int| 0 <= k < size.len() && size[k] == c;
        let a = w.len() as int;
        let b = a + 1 + h.len();
        if k < a {
            assert(w[k] == size[k]);
        } else if a < k < b {
            assert(h[k - a - 1] == size[k]);
        } else if k > b {
            assert(place[k - b - 1] == size[k]);
        }
    }
}

proof fn lemma_line_end(size: Seq<char>, end: Seq<char>)
    requires
        size.len() > 0,
        !size.contains(')'),
        !end.contains(')'),
        forall|i: int| 0 <= i < size.len() ==> !is_white_space(#[trigger] size[i]),
    ensures
        !line_end(size, end).contains(')'),
        words(line_end(size, end)).len() > 0,
        words(line_end(size, end))[0] == size,
{
    let rest = line_end(size, end);
    if rest.contains(')') {
        let i = choose|i: int| 0 <= i < rest.len() && rest[i] == ')';
        let k = i - 2;
        if 0 <= k < size.len() {
            assert(size[k] == rest[i]);
        } else if k > size.len() {
            assert(end[k - size.len() - 1] == rest[i]);
        }
    }
    let none = Seq::<char>::empty();
    let tail = size + seq![' '] + end;
    law_words(none, ' ', seq![' '] + tail);
    assert(none + seq![' '] + (seq![' '] + tail) =~= rest);
    law_words(none, ' ', tail);
    assert(none + seq![' '] + tail =~= seq![' '] + tail);
    law_words(size, ' ', end);
    assert(words(rest) =~= seq![size] + words(end));
}

/// A window is read as it is listed: its number, whatever its title, its class, its size. It is
/// one of Discord where its class is `discord`, in whatever case.
pub proof fn law_window_is_read(
    xid: u64,
    title: Seq<char>,
    instance: Seq<char>,
    class: Seq<char>,
    width: u32,
    height: u32,
    place: Seq<char>,
    end: Seq<char>,
)
    requires
        !instance.contains('"'),
        !class.contains('"'),
        !place.contains(')'),
        !end.contains(')'),
        forall|i: int| 0 <= i < place.len() ==> !is_white_space(#[trigger] place[i]),
    ensures
        window_of(
            decimal(xid as nat) + seq![' '] + line_from_title(
                title,
                instance,
                class,
                line_end(size_text(width, height, place), end),
            ),
        ) == if alike(class, "discord"@) {
            Some(DiscordWindow { xid, width, height })
        } else {
            None
        },
{
    let id = decimal(xid as nat);
    let rest = line_end(size_text(width, height, place), end);
    let more = line_from_title(title, instance, class, rest);
    lemma_size_of_line(width, height, place, end);
    lemma_class_of_line(id, title, instance, class, rest);
    lemma_number_of_line(xid, more);
    lemma_window(id + seq![' '] + more, class, rest, xid, width, height);
}

proof fn lemma_window(
    line: Seq<char>,
    class: Seq<char>,
    rest: Seq<char>,
    xid: u64,
    width: u32,
    height: u32,
)
    requires
        class_and_rest(line) == Some((class, rest)),
        leading_number(words(line)) == Some(xid as nat),
        first_geometry(words(rest), 0) == Some((width as nat, height as nat)),
    ensures
        window_of(line) == if alike(class, "discord"@) {
            Some(DiscordWindow { xid, width, height })
        } else {
            None
        },
{
    reveal_strlit("discord");
    lemma_alike(class, "discord"@);
    assert(lowered("discord"@) =~= "discord"@);
}

proof fn lemma_size_of_line(width: u32, height: u32, place: Seq<char>, end: Seq<char>)
    requires
        !place.contains(')'),
        !end.contains(')'),
        forall|i: int| 0 <= i < place.len() ==> !is_white_space(#[trigger] place[i]),
    ensures
        !line_end(size_text(width, height, place), end).contains(')'),
        first_geometry(words(line_end(size_text(width, height, place), end)), 0) == Some(
            (width as nat, height as nat),
        ),
{
    let size = size_text(width, height, place);
    lemma_size_chars(width, height, place, ')');
    lemma_size_is_a_word(width, height, place);
    lemma_line_end(size, end);
    law_geometry_is_read(width, height, place);
}

proof fn lemma_size_is_a_word(width: u32, height: u32, place: Seq<char>)
    requires
        forall|i: int| 0 <= i < place.len() ==> !is_white_space(#[trigger] place[i]),
    ensures
        forall|i: int|
            0 <= i < size_text(width, height, place).len() ==> !is_white_space(
                #[trigger] size_text(width, height, place)[i],
            ),
{
    let size = size_text(width, height, place);
    assert forall|i: int| 0 <= i < size.len() implies !is_white_space(#[trigger] size[i]) by {
        let c = size[i];
        if is_white_space(c) {
            if place.contains(c) {
                let k = choose|k: int| 0 <= k < place.len() && place[k] == c;
                assert(!is_white_space(place[k]));
            }
            lemma_size_chars(width, height, place, c);
            assert(size.contains(c));
        }
    }
}

proof fn lemma_class_of_line(
    id: Seq<char>,
    title: Seq<char>,
    instance: Seq<char>,
    class: Seq<char>,
    rest: Seq<char>,
)
    requires
        !instance.contains('"'),
        !class.contains('"'),
        !rest.contains(')'),
    ensures
        class_and_rest(id + seq![' '] + line_from_title(title, instance, class, rest)) == Some(
            (class, rest),
        ),
{
    let front = id + seq![' '] + title;
    law_title_does_not_count(front, instance, class, rest);
    assert(id + seq![' '] + line_from_title(title, instance, class, rest) =~= line_from_title(
        front,
        instance,
        class,
        rest,
    ));
}

proof fn lemma_number_of_line(xid: u64, more: Seq<char>)
    ensures
        leading_number(words(decimal(xid as nat) + seq![' '] + more)) == Some(xid as nat),
{
    let id = decimal(xid as nat);
    lemma_decimal_digits(xid as nat);
    assert forall|i: int| 0 <= i < id.len() implies !is_white_space(#[trigger] id[i]) by {
        assert(is_digit(id[i]));
    }
    law_words(id, ' ', more);
    assert((seq![id] + words(more))[0] == id);
    law_decimal_reads_back(xid as nat, u64::MAX as nat);
}

/// Every line is looked at, in order: the windows of two listings, one after the other, are those
/// of each.
pub proof fn law_windows_join(a: Seq<Seq<char>>, b: Seq<Seq<char>>)
    ensures
        windows_of(a + b) == windows_of(a) + windows_of(b),
    decreases b.len(),
{
    if b.len() == 0 {
        assert(a + b =~= a);
        assert(windows_of(a) + windows_of(b) =~= windows_of(a));
    } else {
        law_windows_join(a, b.drop_last());
        assert((a + b).drop_last() =~= a + b.drop_last());
        assert(windows_of(a + b) =~= windows_of(a) + windows_of(b));
    }
}

/// One line gives the window that it describes, or none.
pub proof fn law_single_window(line: Seq<char>)
    ensures
        windows_of(seq![line]) == match window_of(line) {
            Some(window) => seq![window],
            None => seq![],
        },
{
    reveal_with_fuel(windows_of, 2);
    assert(seq![line].drop_last() =~= seq![]);
    assert(windows_of(seq![line]) =~= match window_of(line) {
        Some(window) => seq![window],
        None => seq![],
    });
}

/// The main window is the largest by its surface in pixels, the first of those that are as large,
/// as long as it has 200 000 of them; else there is none.
pub proof fn law_main_window(windows: Seq<DiscordWindow>, found: Option<DiscordWindow>, i: int)
    requires
        is_main_window(windows, found),
    ensures
        0 <= i < windows.len() && windows[i].width * windows[i].height >= 200_000 && (forall|j: int|
            0 <= j < windows.len() ==> (#[trigger] windows[j]).width * windows[j].height
                <= windows[i].width * windows[i].height) && (forall|j: int|
            0 <= j < i ==> (#[trigger] windows[j]).width * windows[j].height < windows[i].width
                * windows[i].height) ==> found == Some(windows[i]),
        (forall|j: int|
            0 <= j < windows.len() ==> (#[trigger] windows[j]).width * windows[j].height < 200_000)
            ==> found is None,
        found is None ==> forall|j: int|
            0 <= j < windows.len() ==> (#[trigger] windows[j]).width * windows[j].height < 200_000,
{
    if 0 <= i < windows.len() && windows[i].width * windows[i].height >= 200_000 && (forall|j: int|
        0 <= j < windows.len() ==> (#[trigger] windows[j]).width * windows[j].height
            <= windows[i].width * windows[i].height) && (forall|j: int|
        0 <= j < i ==> (#[trigger] windows[j]).width * windows[j].height < windows[i].width
            * windows[i].height) {
        let own = Some(windows[i]);
        assert(is_largest(windows, windows[i]));
        assert(is_main_window(windows, own));
        law_main_window_is_unique(windows, found, own);
    }
    if found is None {
        assert forall|j: int| 0 <= j < windows.len() implies (#[trigger] windows[j]).width
            * windows[j].height < 200_000 by {
            assert(windows[j].surface() < MIN_AREA);
        }
    }
}

/// A line without a bracket describes no window, nor does one that does not begin with a number,
/// nor one that gives no size after the bracket.
pub proof fn law_other_lines_are_no_windows(line: Seq<char>)
    ensures
        !line.contains(')') ==> window_of(line) is None,
        words(line).len() > 0 && parsed(words(line)[0], u64::MAX as nat) is None ==> window_of(
            line,
        ) is None,
        words(line).len() == 0 ==> window_of(line) is None,
        class_and_rest(line) matches Some((_, rest)) && (forall|i: int|
            0 <= i < words(rest).len() ==> geometry_of(#[trigger] words(rest)[i]) is None)
            ==> window_of(line) is None,
{
    let class = Class::Except(')');
    if !line.contains(')') {
        assert forall|i: int| 0 <= i < line.len() implies class.has(#[trigger] line[i]) by {
            if line[i] == ')' {
                assert(line.contains(')'));
            }
        }
        lemma_span_back_is(line, class, 0);
    }
    if let Some((_, rest)) = class_and_rest(line) {
        if forall|i: int|
            0 <= i < words(rest).len() ==> geometry_of(#[trigger] words(rest)[i]) is None {
            lemma_no_geometry(words(rest), 0);
        }
    }
}

proof fn lemma_no_geometry(all: Seq<Seq<char>>, from: int)
    requires
        0 <= from,
        forall|i: int| 0 <= i < all.len() ==> geometry_of(#[trigger] all[i]) is None,
    ensures
        first_geometry(all, from) is None,
    decreases all.len() - from,
{
    if from < all.len() {
        assert(geometry_of(all[from]) is None);
        lemma_no_geometry(all, from + 1);
    }
}

/// A word without an `x`, or without a `+` after it, gives no size; nor does one whose parts are no
/// numbers.
pub proof fn law_other_words_are_no_sizes(word: Seq<char>, w: Seq<char>, h: Seq<char>)
    requires
        !w.contains('x'),
        !h.contains('+'),
    ensures
        !word.contains('x') ==> geometry_of(word) is None,
        geometry_of(w + seq!['x'] + h) is None,
        geometry_of(w + seq!['x'] + (h + seq!['+'] + word)) == match (
            parsed(w, 0xffff_ffff),
            parsed(h, 0xffff_ffff),
        ) {
            (Some(a), Some(b)) => Some((a, b)),
            _ => None,
        },
{
    if !word.contains('x') {
        law_split_at_first(word, 'x', word);
    }
    law_split_at_first(w, 'x', h);
    law_split_at_first(h, '+', word);
    law_split_at_first(w, 'x', h + seq!['+'] + word);
}

/// The bracket of a window is `("instance" "class")` and nothing else: a round bracket right before
/// the first name, and one space between the two.
pub proof fn law_only_the_windows_bracket_counts(
    title: Seq<char>,
    opening: char,
    instance: Seq<char>,
    gap: char,
    class: Seq<char>,
    rest: Seq<char>,
)
    requires
        !instance.contains('"'),
        !class.contains('"'),
        !rest.contains(')'),
    ensures
        class_and_rest(
            title + seq![opening, '"'] + instance + seq!['"', gap, '"'] + class + seq!['"', ')']
                + rest,
        ) == if opening == '(' && gap == ' ' {
            Some((class, rest))
        } else {
            None
        },
{
    let head = title.push(opening);
    let names = head + seq!['"'] + instance + seq!['"'];
    let before = names.push(gap);
    let inner = before + seq!['"'] + class + seq!['"'];
    assert(title + seq![opening, '"'] + instance + seq!['"', gap, '"'] + class + seq!['"', ')']
        + rest =~= inner + seq![')'] + rest);
    assert(before.drop_last() =~= names);
    lemma_up_to_the_bracket(inner, rest);
    lemma_quoted_at_end(before, class);
    lemma_quoted_at_end(head, instance);
    lemma_bracket(inner + seq![')'] + rest, inner, before, class, names, head, instance, rest);
}

proof fn lemma_bracket(
    line: Seq<char>,
    inner: Seq<char>,
    before: Seq<char>,
    class: Seq<char>,
    names: Seq<char>,
    head: Seq<char>,
    instance: Seq<char>,
    rest: Seq<char>,
)
    requires
        span_back(line, Class::Except(')')) == rest.len(),
        rest.len() < line.len(),
        line.take(line.len() - rest.len() - 1) == inner,
        line.skip(line.len() - rest.len()) == rest,
        quoted_at_end(inner) == Some((before, class)),
        before.len() > 0,
        before.drop_last() == names,
        quoted_at_end(names) == Some((head, instance)),
        head.len() > 0,
    ensures
        class_and_rest(line) == if head.last() == '(' && before.last() == ' ' {
            Some((class, rest))
        } else {
            None
        },
{
}

/// A bracket that does not end with a quoted name is none of a window.
pub proof fn law_other_brackets_do_not_count(inner: Seq<char>, rest: Seq<char>)
    requires
        !rest.contains(')'),
        inner.len() > 0 ==> inner.last() != '"',
    ensures
        class_and_rest(inner + seq![')'] + rest) is None,
{
    lemma_up_to_the_bracket(inner, rest);
}

proof fn lemma_up_to_the_bracket(inner: Seq<char>, rest: Seq<char>)
    requires
        !rest.contains(')'),
    ensures
        ({
            let line = inner + seq![')'] + rest;
            let n = span_back(line, Class::Except(')')) as int;
            &&& n == rest.len()
            &&& n < line.len()
            &&& line.take(line.len() - n - 1) == inner
            &&& line.skip(line.len() - n) == rest
        }),
{
    let line = inner + seq![')'] + rest;
    let at = inner.len() + 1;
    assert forall|i: int| at <= i < line.len() implies Class::Except(')').has(
        #[trigger] line[i],
    ) by {
        assert(line[i] == rest[i - at]);
        if rest[i - at] == ')' {
            assert(rest.contains(')'));
        }
    }
    assert(line[at - 1] == ')');
    lemma_span_back_is(line, Class::Except(')'), at as int);
    assert(line.take(at - 1) =~= inner);
    assert(line.skip(at as int) =~= rest);
}

} // verus!
