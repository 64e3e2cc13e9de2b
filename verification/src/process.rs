//! The recorder process: how its program is found, what it inherits, and how it is brought to an
//! orderly end.

use vstd::prelude::*;

use crate::paths::{begins_with_drive, has_drive};
use crate::platform::Platform;
use crate::recorder::CHILD_VIDEO_FD;
use crate::text::{chars_of, concat2};
use crate::tokens::{push_owned, views};

verus! {

/// Whether a separator has to stand between a directory and what follows, on Windows.
pub open spec fn needs_separator(dir: Seq<char>) -> bool {
    &&& dir.len() > 0
    &&& dir.last() != '/'
    &&& dir.last() != '\\'
    &&& !(dir.len() == 2 && has_drive(dir))
}

/// A directory followed by a name, on Windows.
pub open spec fn joined(dir: Seq<char>, name: Seq<char>) -> Seq<char> {
    if needs_separator(dir) {
        dir + "\\"@ + name
    } else {
        dir + name
    }
}

fn join(dir: &str, name: &str) -> (r: String)
    ensures
        r@ == joined(dir@, name@),
{
    let chars = chars_of(dir);
    let n: usize = chars.len();
    let drive = n == 2 && begins_with_drive(chars.as_slice());
    if n > 0 && chars[n - 1] != '/' && chars[n - 1] != '\\' && !drive {
        concat2(concat2(dir, "\\").as_str(), name)
    } else {
        concat2(dir, name)
    }
}

/// Where a GStreamer program may stand under an installation.
pub open spec fn under_root(root: Seq<char>, name: Seq<char>) -> Seq<char> {
    joined(joined(root, "bin"@), name + ".exe"@)
}

/// The installations that are known of: those that the environment names, then the usual ones.
pub open spec fn known_roots(env: Seq<Option<String>>) -> Seq<Seq<char>> {
    named_roots(env) + seq![
        "C:\\gstreamer\\1.0\\msvc_x86_64"@,
        "C:\\gstreamer\\1.0\\mingw_x86_64"@,
    ]
}

/// The installations that the environment names, in order.
pub open spec fn named_roots(env: Seq<Option<String>>) -> Seq<Seq<char>>
    decreases env.len(),
{
    if env.len() == 0 {
        seq![]
    } else {
        match env.last() {
            Some(root) => named_roots(env.drop_last()).push(root@),
            None => named_roots(env.drop_last()),
        }
    }
}

/// Where a GStreamer program may stand under installations, in order.
pub open spec fn under_roots(roots: Seq<Seq<char>>, name: Seq<char>) -> Seq<Seq<char>> {
    Seq::new(roots.len(), |i: int| under_root(roots[i], name))
}

/// Where a GStreamer program is looked for, in order.
pub open spec fn places(platform: Platform, name: Seq<char>, env: Seq<Option<String>>) -> Seq<
    Seq<char>,
> {
    if platform == Platform::Windows {
        under_roots(known_roots(env), name)
    } else {
        seq![]
    }
}

/// Lists where a GStreamer program is looked for. On Windows its installer does not put it on the
/// search path: `env` holds the variables that the installer sets, the preferred one first.
pub fn gst_tool_places(platform: Platform, name: &str, env: &[Option<String>]) -> (r: Vec<String>)
    ensures
        views(r@) == places(platform, name@, env@),
{
    let mut r: Vec<String> = Vec::new();
    match platform {
        Platform::Windows => {},
        _ => {
            assert(views(r@) =~= seq![]);
            return r;
        },
    }
    let exe = concat2(name, ".exe");
    let mut i: usize = 0;
    assert(views(r@) =~= under_roots(named_roots(env@.take(0)), name@));
    while i < env.len()
        invariant
            i <= env@.len(),
            exe@ == name@ + ".exe"@,
            views(r@) == under_roots(named_roots(env@.take(i as int)), name@),
        decreases env@.len() - i,
    {
        assert(env@.take(i + 1).drop_last() =~= env@.take(i as int));
        if let Some(root) = &env[i] {
            push_owned(&mut r, join(join(root.as_str(), "bin").as_str(), exe.as_str()));
            assert(views(r@) =~= under_roots(named_roots(env@.take(i + 1)), name@));
        }
        i += 1;
    }
    assert(env@.take(i as int) =~= env@);
    let msvc = "C:\\gstreamer\\1.0\\msvc_x86_64";
    let mingw = "C:\\gstreamer\\1.0\\mingw_x86_64";
    push_owned(&mut r, join(join(msvc, "bin").as_str(), exe.as_str()));
    push_owned(&mut r, join(join(mingw, "bin").as_str(), exe.as_str()));
    assert(views(r@) =~= under_roots(known_roots(env@), name@));
    r
}

/// The first place where the program is, from position `from` on; else its bare name, for the
/// search path.
pub open spec fn first_present(
    places: Seq<Seq<char>>,
    present: Seq<bool>,
    name: Seq<char>,
    from: int,
) -> Seq<char>
    decreases places.len() - from,
{
    if from < 0 || from >= places.len() {
        name
    } else if from < present.len() && present[from] {
        places[from]
    } else {
        first_present(places, present, name, from + 1)
    }
}

/// Chooses the program: the first place where it is, else its bare name. `present` says of each
/// place, in order, whether it is there; places past its end count as not.
pub fn gst_tool(name: &str, places: &[String], present: &[bool]) -> (r: String)
    ensures
        r@ == first_present(views(places@), present@, name@, 0),
{
    let ghost all = views(places@);
    let mut i: usize = 0;
    while i < places.len()
        invariant
            i <= places@.len(),
            all == views(places@),
            first_present(all, present@, name@, 0) == first_present(
                all,
                present@,
                name@,
                i as int,
            ),
        decreases places@.len() - i,
    {
        if i < present.len() && present[i] {
            return places[i].clone();
        }
        i += 1;
    }
    name.to_owned()
}

/// What is done so that the recorder inherits the stream of the portal.
#[derive(Debug, Clone, Copy, PartialEq, Eq, Structural)]
pub enum Inherit {
    /// There is no such stream.
    Nothing,
    /// It has the right number and must only stay open.
    KeepOpen,
    /// It is duplicated to the right number, where it stays open.
    Duplicate,
}

/// Decides what is done so that the recorder inherits the stream of the portal.
pub fn inherit_video(raw: Option<i32>) -> (r: Inherit)
    ensures
        r == match raw {
            None => Inherit::Nothing,
            Some(fd) => if fd == CHILD_VIDEO_FD {
                Inherit::KeepOpen
            } else {
                Inherit::Duplicate
            },
        },
{
    match raw {
        None => Inherit::Nothing,
        Some(fd) => if fd == CHILD_VIDEO_FD as i32 {
            Inherit::KeepOpen
        } else {
            Inherit::Duplicate
        },
    }
}

/// A step of ending the recorder.
#[derive(Debug, Clone, Copy, PartialEq, Eq, Structural)]
pub enum StopPhase {
    /// It is asked to finish its file.
    Interrupt,
    /// It is given some time.
    Wait,
    /// It is killed.
    Kill,
    /// It is given some time to be gone.
    Drain,
    /// There is nothing left to do.
    Over,
}

/// The first step: a recorder that is still there is asked to finish. One that is gone needs
/// nothing more, but on Windows it is killed for good measure.
pub open spec fn first_phase(platform: Platform, running: bool) -> StopPhase {
    if running {
        StopPhase::Interrupt
    } else if platform == Platform::Windows {
        StopPhase::Kill
    } else {
        StopPhase::Over
    }
}

/// The step after `phase`, which went well or not.
pub open spec fn next_phase(platform: Platform, phase: StopPhase, ok: bool) -> StopPhase {
    match phase {
        StopPhase::Interrupt => if ok || platform != Platform::Windows {
            StopPhase::Wait
        } else {
            StopPhase::Kill
        },
        StopPhase::Wait => if ok {
            StopPhase::Over
        } else {
            StopPhase::Kill
        },
        StopPhase::Kill => if platform == Platform::Windows {
            StopPhase::Drain
        } else {
            StopPhase::Over
        },
        StopPhase::Drain => StopPhase::Over,
        StopPhase::Over => StopPhase::Over,
    }
}

/// Gives the first step of ending the recorder.
pub fn begin_stop(platform: Platform, running: bool) -> (r: StopPhase)
    ensures
        r == first_phase(platform, running),
{
    if running {
        StopPhase::Interrupt
    } else {
        match platform {
            Platform::Windows => StopPhase::Kill,
            _ => StopPhase::Over,
        }
    }
}

/// Gives the next step of ending the recorder: an orderly end first, and a kill only where it
/// fails or takes too long.
pub fn continue_stop(platform: Platform, phase: StopPhase, ok: bool) -> (r: StopPhase)
    ensures
        r == next_phase(platform, phase, ok),
{
    let windows = match platform {
        Platform::Windows => true,
        _ => false,
    };
    match phase {
        StopPhase::Interrupt => if ok || !windows {
            StopPhase::Wait
        } else {
            StopPhase::Kill
        },
        StopPhase::Wait => if ok {
            StopPhase::Over
        } else {
            StopPhase::Kill
        },
        StopPhase::Kill => if windows {
            StopPhase::Drain
        } else {
            StopPhase::Over
        },
        StopPhase::Drain => StopPhase::Over,
        StopPhase::Over => StopPhase::Over,
    }
}

/// A recorder that is asked to finish and does so in time is never killed: its file is whole.
pub proof fn law_orderly_end(platform: Platform)
    ensures
        next_phase(platform, first_phase(platform, true), true) == StopPhase::Wait,
        next_phase(platform, StopPhase::Wait, true) == StopPhase::Over,
{
}

/// A recorder that does not finish in time is killed.
pub proof fn law_late_is_killed(platform: Platform)
    ensures
        next_phase(platform, StopPhase::Wait, false) == StopPhase::Kill,
{
}

/// Whatever happens, four steps end it.
pub proof fn law_stop_ends(platform: Platform, running: bool, a: bool, b: bool, c: bool, d: bool)
    ensures
        next_phase(
            platform,
            next_phase(
                platform,
                next_phase(platform, next_phase(platform, first_phase(platform, running), a), b),
                c,
            ),
            d,
        ) == StopPhase::Over,
{
}

/// The way of a recorder to its end, step by step. On Windows one that is gone is killed and
/// waited for all the same, one that cannot be asked is killed at once, and every kill is waited
/// for; elsewhere one that is gone needs nothing, and a kill is the last step.
pub proof fn law_steps_of_the_end(platform: Platform, ok: bool)
    ensures
        first_phase(platform, true) == StopPhase::Interrupt,
        first_phase(Platform::Windows, false) == StopPhase::Kill,
        platform != Platform::Windows ==> first_phase(platform, false) == StopPhase::Over,
        next_phase(platform, StopPhase::Interrupt, true) == StopPhase::Wait,
        next_phase(Platform::Windows, StopPhase::Interrupt, false) == StopPhase::Kill,
        platform != Platform::Windows ==> next_phase(platform, StopPhase::Interrupt, ok)
            == StopPhase::Wait,
        next_phase(platform, StopPhase::Wait, ok) == if ok {
            StopPhase::Over
        } else {
            StopPhase::Kill
        },
        next_phase(Platform::Windows, StopPhase::Kill, ok) == StopPhase::Drain,
        platform != Platform::Windows ==> next_phase(platform, StopPhase::Kill, ok)
            == StopPhase::Over,
        next_phase(platform, StopPhase::Drain, ok) == StopPhase::Over,
        next_phase(platform, StopPhase::Over, ok) == StopPhase::Over,
{
}

/// A program is looked for under every installation that the environment names, in order, and
/// then under the two usual ones; and on no other platform than Windows.
pub proof fn law_places(name: Seq<char>, env: Seq<Option<String>>, platform: Platform)
    ensures
        platform != Platform::Windows ==> places(platform, name, env).len() == 0,
        ({
            let all = places(Platform::Windows, name, env);
            let n = named_roots(env).len();
            &&& all.len() == n + 2
            &&& forall|i: int|
                0 <= i < n ==> #[trigger] all[i] == under_root(named_roots(env)[i], name)
            &&& all[n as int] == under_root("C:\\gstreamer\\1.0\\msvc_x86_64"@, name)
            &&& all[n as int + 1] == under_root("C:\\gstreamer\\1.0\\mingw_x86_64"@, name)
        }),
{
}

/// The installations that the environment names are those of the variables that are set, in the
/// order of the variables.
pub proof fn law_named_roots(a: Seq<Option<String>>, root: String)
    ensures
        named_roots(seq![]) == Seq::<Seq<char>>::empty(),
        named_roots(a.push(None)) == named_roots(a),
        named_roots(a.push(Some(root))) == named_roots(a).push(root@),
{
    assert(a.push(None).drop_last() =~= a);
    assert(a.push(Some(root)).drop_last() =~= a);
}

/// Under an installation, a program stands in its directory `bin`, with the ending of programs. A
/// backslash parts them, unless the installation ends in a slash of its own, is empty, or is a
/// bare drive.
pub proof fn law_under_root(root: Seq<char>, name: Seq<char>)
    ensures
        root.len() > 2 && root.last() != '/' && root.last() != '\\' ==> under_root(root, name)
            == root + "\\"@ + "bin"@ + "\\"@ + (name + ".exe"@),
        root.len() == 0 || root.last() == '/' || root.last() == '\\' || (root.len() == 2 && root[1]
            == ':' && 'A' <= root[0] <= 'Z') ==> under_root(root, name) == root + "bin"@ + "\\"@ + (
        name + ".exe"@),
{
    reveal_strlit("bin");
    reveal_strlit("\\");
    let dir = root + "\\"@ + "bin"@;
    assert(dir.last() == 'n');
    assert((root + "bin"@).last() == 'n');
    assert((root + "bin"@).len() == root.len() + 3);
}

/// The first place where the program is found is taken, and its bare name where it is found at
/// none.
pub proof fn law_first_place_is_taken(
    places: Seq<Seq<char>>,
    present: Seq<bool>,
    name: Seq<char>,
    from: int,
    at: int,
)
    requires
        places.len() == present.len(),
        0 <= from <= at <= places.len(),
        forall|i: int| from <= i < at ==> !#[trigger] present[i],
        at < places.len() ==> present[at],
    ensures
        first_present(places, present, name, from) == if at < places.len() {
            places[at]
        } else {
            name
        },
    decreases at - from,
{
    if from < at {
        assert(!present[from]);
        law_first_place_is_taken(places, present, name, from + 1, at);
    }
}

} // verus!
