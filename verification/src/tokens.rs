//! Argument lists for `gst-launch-1.0`: how they are built, and when their links are sound.

use vstd::prelude::*;

verus! {

/// The texts of a list of arguments.
pub open spec fn views(args: Seq<String>) -> Seq<Seq<char>> {
    Seq::new(args.len(), |i: int| args[i]@)
}

/// The texts of a list of string slices.
pub open spec fn str_views(args: Seq<&str>) -> Seq<Seq<char>> {
    Seq::new(args.len(), |i: int| args[i]@)
}

/// Appends one token.
pub fn push_token(args: &mut Vec<String>, token: &str)
    ensures
        views(final(args)@) == views(old(args)@).push(token@),
{
    args.push(token.to_owned());
    assert(views(args@) =~= views(old(args)@).push(token@));
}

/// Appends one token that is already a string.
pub fn push_owned(args: &mut Vec<String>, token: String)
    ensures
        views(final(args)@) == views(old(args)@).push(token@),
{
    args.push(token);
    assert(views(args@) =~= views(old(args)@).push(token@));
}

/// Appends tokens, in order.
pub fn push_tokens(args: &mut Vec<String>, tokens: &[&str])
    ensures
        views(final(args)@) == views(old(args)@) + str_views(tokens@),
{
    let mut i: usize = 0;
    while i < tokens.len()
        invariant
            i <= tokens@.len(),
            views(args@) =~= views(old(args)@) + str_views(tokens@).take(i as int),
        decreases tokens@.len() - i,
    {
        push_token(args, tokens[i]);
        i += 1;
    }
    assert(str_views(tokens@).take(i as int) =~= str_views(tokens@));
}

/// Appends a copy of each of `more`, in order.
pub fn push_all(args: &mut Vec<String>, more: &[String])
    ensures
        views(final(args)@) == views(old(args)@) + views(more@),
{
    let mut i: usize = 0;
    while i < more.len()
        invariant
            i <= more@.len(),
            views(args@) =~= views(old(args)@) + views(more@).take(i as int),
        decreases more@.len() - i,
    {
        push_token(args, more[i].as_str());
        i += 1;
    }
    assert(views(more@).take(i as int) =~= views(more@));
}

/// Whether the links of an argument list are sound: each `!` stands between two tokens that are
/// no links themselves.
pub open spec fn links_sound(args: Seq<Seq<char>>) -> bool {
    forall|i: int|
        #![trigger args[i]]
        0 <= i < args.len() && args[i] == "!"@ ==> 0 < i < args.len() - 1 && args[i + 1] != "!"@
}

/// Two argument lists with a link between them.
pub open spec fn linked(a: Seq<Seq<char>>, b: Seq<Seq<char>>) -> Seq<Seq<char>> {
    a + seq!["!"@] + b
}

/// Sound argument lists that are not empty stay sound when a link joins them.
pub proof fn lemma_links_linked(a: Seq<Seq<char>>, b: Seq<Seq<char>>)
    requires
        links_sound(a),
        links_sound(b),
        a.len() > 0,
        b.len() > 0,
    ensures
        links_sound(linked(a, b)),
        linked(a, b).len() > 0,
{
    let ab = linked(a, b);
    assert(a[a.len() - 1] != "!"@);
    assert(b[0] != "!"@);
    assert forall|i: int|
        #![trigger ab[i]]
        0 <= i < ab.len() && ab[i] == "!"@ implies 0 < i < ab.len() - 1 && ab[i + 1] != "!"@ by {
        if i < a.len() {
            assert(ab[i] == a[i]);
            assert(ab[i + 1] == a[i + 1]);
        } else if i > a.len() {
            assert(ab[i] == b[i - a.len() - 1]);
            assert(ab[i + 1] == b[i - a.len()]);
        } else {
            assert(ab[i + 1] == b[0]);
        }
    }
}

/// Sound argument lists stay sound when one follows the other.
pub proof fn lemma_links_join(a: Seq<Seq<char>>, b: Seq<Seq<char>>)
    requires
        links_sound(a),
        links_sound(b),
    ensures
        links_sound(a + b),
{
    let ab = a + b;
    assert forall|i: int|
        #![trigger ab[i]]
        0 <= i < ab.len() && ab[i] == "!"@ implies 0 < i < ab.len() - 1 && ab[i + 1] != "!"@ by {
        if i < a.len() {
            assert(ab[i] == a[i]);
            assert(ab[i + 1] == a[i + 1]);
        } else {
            assert(ab[i] == b[i - a.len()]);
            assert(ab[i + 1] == b[i - a.len() + 1]);
        }
    }
}

} // verus!
