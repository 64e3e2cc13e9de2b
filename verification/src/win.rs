//! What Windows says of Discord: its processes, its windows and its audio sessions.

use vstd::prelude::*;

use crate::lossy::{read_utf16, utf16_text};
use crate::name_laws::{alike, lemma_alike, no_dot};
use crate::names::{find_stem_len, stem_len};
use crate::path_laws::{is_component, law_file_name, like_share, parts};
use crate::paths::{file_name_on, find_file_name_on};
use crate::platform::Platform;
use crate::scan::{lowered, starts_with, to_lower};
use crate::text::{chars_of, lemma_span_back_is, take, Class};
use crate::voice::Snapshot;

verus! {

/// The least surface, in square pixels, of a window that is no helper.
pub const MIN_AREA: i64 = 200_000;

/// Whether the full path of an executable file names a `Discord*` program (Discord, DiscordPTB,
/// DiscordCanary).
pub open spec fn discord_image(path: Seq<char>) -> bool {
    match file_name_on(path, Platform::Windows) {
        Some(file) => "discord"@.is_prefix_of(lowered(file.take(stem_len(file)))),
        None => false,
    }
}

/// Whether a process is one of Discord, given the path of its executable where it could be read.
pub open spec fn discord_process(pid: u32, image: Option<String>) -> bool {
    pid != 0 && image is Some && discord_image((image->0)@)
}

/// Reads the path of an executable out of the `units` into which the system wrote `len` of them,
/// if it did (`ok`).
pub fn image_path(ok: bool, units: &[u16], len: u32) -> (r: Option<String>)
    requires
        ok ==> len <= units@.len(),
    ensures
        r is Some <==> ok,
        r matches Some(path) ==> path@ == utf16_text(units@.take(len as int)),
{
    if ok {
        let part = vstd::slice::slice_subrange(units, 0, len as usize);
        assert(part@ =~= units@.take(len as int));
        Some(read_utf16(part))
    } else {
        None
    }
}

/// Tests whether the full path of an executable file names a `Discord*` program.
pub fn is_discord_image(path: &str) -> (r: bool)
    ensures
        r == discord_image(path@),
{
    let chars = chars_of(path);
    match find_file_name_on(chars.as_slice(), Platform::Windows) {
        Some((from, to)) => {
            let file = vstd::slice::slice_subrange(chars.as_slice(), from, to);
            let n: usize = find_stem_len(file);
            let low = to_lower(take(file, n));
            starts_with(low.as_slice(), chars_of("discord").as_slice())
        },
        None => false,
    }
}

/// Tests whether a process is one of Discord; process 0 never is.
pub fn is_discord_pid(pid: u32, image: &Option<String>) -> (r: bool)
    ensures
        r == discord_process(pid, *image),
{
    match image {
        Some(path) => pid != 0 && is_discord_image(path.as_str()),
        None => false,
    }
}

/// The edges of a window on the screen.
#[derive(Debug, Clone, Copy, PartialEq, Eq, Structural)]
pub struct Rect {
    pub left: i32,
    pub top: i32,
    pub right: i32,
    pub bottom: i32,
}

impl Rect {
    /// Whether width and height can be computed.
    pub open spec fn measurable(self) -> bool {
        &&& i32::MIN <= self.right - self.left <= i32::MAX
        &&& i32::MIN <= self.bottom - self.top <= i32::MAX
    }

    /// The surface in square pixels.
    pub open spec fn surface(self) -> int {
        (self.right - self.left) * (self.bottom - self.top)
    }
}

/// A top-level window, as it was met.
pub struct Candidate {
    pub hwnd: u64,
    pub visible: bool,
    /// The process that owns it.
    pub pid: u32,
    /// The path of that process's executable, where it could be read.
    pub image: Option<String>,
    /// Where it stands, where that could be read.
    pub rect: Option<Rect>,
}

impl Candidate {
    /// Whether this is a visible window of Discord with known edges.
    pub open spec fn eligible(self) -> bool {
        self.visible && discord_process(self.pid, self.image) && self.rect is Some
    }

    /// The surface of an eligible window.
    pub open spec fn surface(self) -> int {
        (self.rect->0).surface()
    }

    /// The window as it is captured.
    pub open spec fn window(self) -> WinWindow {
        WinWindow {
            hwnd: self.hwnd,
            width: extent((self.rect->0).right - (self.rect->0).left),
            height: extent((self.rect->0).bottom - (self.rect->0).top),
        }
    }
}

/// A window of Discord.
#[derive(Debug, Clone, Copy, PartialEq, Eq, Structural)]
pub struct WinWindow {
    pub hwnd: u64,
    /// The size when the window was found, to which the picture is pinned.
    pub width: u32,
    pub height: u32,
}

/// The distance of two edges; 0 where they are the wrong way round.
pub open spec fn extent(d: int) -> u32 {
    if d >= 0 {
        d as u32
    } else {
        0
    }
}

fn measure(d: i32) -> (r: u32)
    ensures
        r == extent(d as int),
{
    if d >= 0 {
        d as u32
    } else {
        0
    }
}

/// Whether the window at position `i` is the first of the largest eligible ones.
pub open spec fn is_largest(all: Seq<Candidate>, i: int) -> bool {
    &&& 0 <= i < all.len()
    &&& all[i].eligible()
    &&& forall|j: int|
        0 <= j < all.len() && (#[trigger] all[j]).eligible() ==> all[j].surface()
            <= all[i].surface()
    &&& forall|j: int|
        0 <= j < i && (#[trigger] all[j]).eligible() ==> all[j].surface() < all[i].surface()
}

/// Whether `found` is the main window: the first of the largest, unless none is large enough.
pub open spec fn is_main_window(all: Seq<Candidate>, found: Option<WinWindow>) -> bool {
    match found {
        Some(window) => exists|i: int| #[trigger]
            is_largest(all, i) && all[i].surface() >= MIN_AREA && all[i].window() == window,
        None => forall|j: int|
            0 <= j < all.len() && (#[trigger] all[j]).eligible() ==> all[j].surface() < MIN_AREA,
    }
}

/// Finds the main window of Discord: the largest visible window of one of its processes.
pub fn find_discord_window(all: &[Candidate]) -> (found: Option<WinWindow>)
    requires
        forall|i: int|
            0 <= i < all@.len() && (#[trigger] all@[i]).eligible()
                ==> (all@[i].rect->0).measurable(),
    ensures
        is_main_window(all@, found),
{
    let mut best = WinWindow { hwnd: 0, width: 0, height: 0 };
    let mut best_area: i64 = 0;
    let ghost mut at: int = -1;
    let mut i: usize = 0;
    while i < all.len()
        invariant
            i <= all@.len(),
            forall|k: int|
                0 <= k < all@.len() && (#[trigger] all@[k]).eligible()
                    ==> (all@[k].rect->0).measurable(),
            best_area >= 0,
            best_area > 0 ==> {
                &&& 0 <= at < i
                &&& all@[at].eligible()
                &&& all@[at].surface() == best_area
                &&& all@[at].window() == best
            },
            forall|j: int|
                0 <= j < i && (#[trigger] all@[j]).eligible() ==> all@[j].surface() <= best_area,
            forall|j: int|
                0 <= j < at && (#[trigger] all@[j]).eligible() ==> all@[j].surface() < best_area,
        decreases all@.len() - i,
    {
        let one = &all[i];
        if one.visible && is_discord_pid(one.pid, &one.image) {
            if let Some(rect) = one.rect {
                assert(all@[i as int].eligible());
                let width: i32 = rect.right - rect.left;
                let height: i32 = rect.bottom - rect.top;
                proof {
                    assert(-0x4000_0000_0000_0000 <= width * height <= 0x4000_0000_0000_0000)
                        by (nonlinear_arith)
                        requires
                            -0x8000_0000 <= width <= 0x7fff_ffff,
                            -0x8000_0000 <= height <= 0x7fff_ffff,
                    ;
                }
                let area: i64 = (width as i64) * (height as i64);
                if area > best_area {
                    best_area = area;
                    best = WinWindow {
                        hwnd: one.hwnd,
                        width: measure(width),
                        height: measure(height),
                    };
                    proof {
                        at = i as int;
                    }
                }
            }
        }
        i += 1;
    }
    if best_area >= MIN_AREA {
        assert(is_largest(all@, at));
        Some(best)
    } else {
        None
    }
}

/// The direction of an audio session.
#[derive(Debug, Clone, Copy, PartialEq, Eq, Structural)]
pub enum Flow {
    /// A microphone is read.
    Capture,
    /// Sound is played.
    Render,
}

/// An audio session.
pub struct Session {
    pub flow: Flow,
    /// The process that holds it.
    pub pid: u32,
    /// The path of that process's executable, where it could be read.
    pub image: Option<String>,
    pub active: bool,
}

impl Session {
    /// Whether Discord holds the session, in the given direction.
    pub open spec fn of_discord(self, flow: Flow) -> bool {
        self.flow == flow && discord_process(self.pid, self.image)
    }
}

/// The process of the last active session that Discord plays through.
pub open spec fn last_active(sessions: Seq<Session>) -> Option<u64>
    decreases sessions.len(),
{
    if sessions.len() == 0 {
        None
    } else if sessions.last().of_discord(Flow::Render) && sessions.last().active {
        Some(sessions.last().pid as u64)
    } else {
        last_active(sessions.drop_last())
    }
}

/// The process of the first session that Discord plays through, active or not.
pub open spec fn first_playing(sessions: Seq<Session>) -> Option<u64>
    decreases sessions.len(),
{
    if sessions.len() == 0 {
        None
    } else {
        match first_playing(sessions.drop_last()) {
            Some(pid) => Some(pid),
            None => if sessions.last().of_discord(Flow::Render) {
                Some(sessions.last().pid as u64)
            } else {
                None
            },
        }
    }
}

/// What the audio sessions say of Discord: an active capture is the sign of a voice channel; the
/// process to record from is that of the last active playback; without one, of the first found.
pub open spec fn snapshot_of(sessions: Seq<Session>) -> Snapshot {
    Snapshot {
        in_voice: exists|i: int|
            0 <= i < sessions.len() && (#[trigger] sessions[i]).of_discord(Flow::Capture)
                && sessions[i].active,
        audio_target: match last_active(sessions) {
            Some(pid) => Some(pid),
            None => first_playing(sessions),
        },
    }
}

/// Reads the voice state out of the audio sessions.
pub fn snapshot(sessions: &[Session]) -> (snap: Snapshot)
    ensures
        snap == snapshot_of(sessions@),
{
    let ghost all = sessions@;
    let mut snap = Snapshot::default();
    let mut found = false;
    let mut i: usize = 0;
    while i < sessions.len()
        invariant
            i <= sessions@.len(),
            all == sessions@,
            snap == snapshot_of(all.take(i as int)),
            found == (first_playing(all.take(i as int)) is Some),
            last_active(all.take(i as int)) is Some ==> found,
        decreases sessions@.len() - i,
    {
        let one = &sessions[i];
        let ghost seen = all.take(i as int);
        let ghost next = all.take(i + 1);
        proof {
            assert(next.drop_last() =~= seen);
            assert(next.last() == *one);
            assert forall|k: int| 0 <= k < i implies #[trigger] next[k] == seen[k] by {}
            let here = one.of_discord(Flow::Capture) && one.active;
            assert(snapshot_of(next).in_voice == (snapshot_of(seen).in_voice || here)) by {
                if snapshot_of(seen).in_voice {
                    let k = choose|k: int|
                        0 <= k < seen.len() && (#[trigger] seen[k]).of_discord(Flow::Capture)
                            && seen[k].active;
                    assert(next[k].of_discord(Flow::Capture));
                }
                if here {
                    assert(next[i as int].of_discord(Flow::Capture));
                }
                if snapshot_of(next).in_voice && !here {
                    let k = choose|k: int|
                        0 <= k < next.len() && (#[trigger] next[k]).of_discord(Flow::Capture)
                            && next[k].active;
                    assert(seen[k].of_discord(Flow::Capture));
                }
            }
        }
        if is_discord_pid(one.pid, &one.image) {
            match one.flow {
                Flow::Capture => {
                    if one.active {
                        snap.in_voice = true;
                    }
                },
                Flow::Render => {
                    if one.active || !found {
                        snap.audio_target = Some(one.pid as u64);
                    }
                    found = true;
                },
            }
        }
        i += 1;
    }
    assert(all.take(i as int) =~= all);
    snap
}

/// A program is one of Discord where its file name begins with `discord`, in whatever case and
/// whatever directory, before its extension.
pub proof fn law_discord_programs(dir: Seq<char>, sep: char, base: Seq<char>, ext: Seq<char>)
    requires
        parts(sep, Platform::Windows),
        is_component(base + seq!['.'] + ext, Platform::Windows),
        !like_share(dir),
        base.len() > 0,
        no_dot(ext),
    ensures
        discord_image(dir + seq![sep] + (base + seq!['.'] + ext)) <==> base.len() >= 7 && alike(
            base.take(7),
            "discord"@,
        ),
{
    let file = base + seq!['.'] + ext;
    law_file_name(dir, sep, file, Platform::Windows);
    let at = base.len() + 1;
    assert forall|i: int| at <= i < file.len() implies Class::Except('.').has(
        #[trigger] file[i],
    ) by {
        assert(file[i] == ext[i - at]);
    }
    assert(file[at - 1] == '.');
    lemma_span_back_is(file, Class::Except('.'), at as int);
    assert(file.take(stem_len(file)) =~= base);
    reveal_strlit("discord");
    assert(lowered("discord"@) =~= "discord"@);
    if base.len() >= 7 {
        lemma_alike(base.take(7), "discord"@);
        assert(lowered(base).subrange(0, 7) =~= lowered(base.take(7)));
    }
}

/// Process 0 is none of Discord, nor is one whose executable is not known.
pub proof fn law_discord_processes(pid: u32, image: Option<String>)
    ensures
        discord_process(0, image) == false,
        discord_process(pid, None) == false,
        pid != 0 ==> (image matches Some(path) ==> (discord_process(pid, image) <==> discord_image(
            path@,
        ))),
{
}

/// A window is captured under its own handle, with the distance of its edges for its size, and
/// none where they are the wrong way round.
pub proof fn law_window_as_it_stands(one: Candidate, rect: Rect)
    requires
        one.rect == Some(rect),
        rect.measurable(),
    ensures
        one.window().hwnd == one.hwnd,
        one.window().width == if rect.right >= rect.left {
            rect.right - rect.left
        } else {
            0
        },
        one.window().height == if rect.bottom >= rect.top {
            rect.bottom - rect.top
        } else {
            0
        },
        one.surface() == (rect.right - rect.left) * (rect.bottom - rect.top),
        one.eligible() <==> one.visible && discord_process(one.pid, one.image),
        i32::MIN <= rect.right - rect.left <= i32::MAX,
        i32::MIN <= rect.bottom - rect.top <= i32::MAX,
{
}

/// A window whose edges are not known is never captured.
pub proof fn law_unknown_edges(one: Candidate)
    ensures
        one.rect is None ==> !one.eligible(),
{
}

/// The main window is the largest visible one of Discord, the first of those that are as large, as
/// long as it has 200 000 pixels; else there is none.
pub proof fn law_main_window(all: Seq<Candidate>, found: Option<WinWindow>, i: int)
    requires
        is_main_window(all, found),
    ensures
        0 <= i < all.len() && all[i].eligible() && all[i].surface() >= 200_000 && (forall|j: int|
            0 <= j < all.len() && (#[trigger] all[j]).eligible() ==> all[j].surface()
                <= all[i].surface()) && (forall|j: int|
            0 <= j < i && (#[trigger] all[j]).eligible() ==> all[j].surface() < all[i].surface())
            ==> found == Some(all[i].window()),
        (forall|j: int|
            0 <= j < all.len() && (#[trigger] all[j]).eligible() ==> all[j].surface() < 200_000)
            <==> found is None,
{
    if let Some(window) = found {
        let k = choose|k: int| #[trigger]
            is_largest(all, k) && all[k].surface() >= MIN_AREA && all[k].window() == window;
        assert(all[k].eligible());
        if 0 <= i < all.len() && all[i].eligible() && (forall|j: int|
            0 <= j < all.len() && (#[trigger] all[j]).eligible() ==> all[j].surface()
                <= all[i].surface()) && (forall|j: int|
            0 <= j < i && (#[trigger] all[j]).eligible() ==> all[j].surface() < all[i].surface()) {
            assert(all[k].surface() == all[i].surface());
            assert(i == k);
        }
    }
}

proof fn lemma_last_active(sessions: Seq<Session>)
    ensures
        last_active(sessions) is None <==> forall|k: int|
            0 <= k < sessions.len() ==> !((#[trigger] sessions[k]).of_discord(Flow::Render)
                && sessions[k].active),
    decreases sessions.len(),
{
    if sessions.len() > 0 {
        let before = sessions.drop_last();
        lemma_last_active(before);
        assert forall|k: int|
            0 <= k < before.len() implies #[trigger] before[k] == sessions[k] by {}
        let end = sessions[sessions.len() - 1];
        if !(end.of_discord(Flow::Render) && end.active) {
            if last_active(before) is None {
                assert forall|k: int| 0 <= k < sessions.len() implies !((
                #[trigger] sessions[k]).of_discord(Flow::Render) && sessions[k].active) by {
                    if k < before.len() {
                        assert(before[k] == sessions[k]);
                    }
                }
            } else {
                let k = choose|k: int|
                    0 <= k < before.len() && (#[trigger] before[k]).of_discord(Flow::Render)
                        && before[k].active;
                assert(sessions[k].of_discord(Flow::Render));
            }
        }
    }
}

/// The last active session that Discord plays through gives the process to record from.
pub proof fn law_last_active_is_recorded(sessions: Seq<Session>, i: int)
    requires
        0 <= i < sessions.len(),
        sessions[i].flow == Flow::Render,
        discord_process(sessions[i].pid, sessions[i].image),
        sessions[i].active,
        forall|k: int|
            i < k < sessions.len() ==> !((#[trigger] sessions[k]).flow == Flow::Render
                && discord_process(sessions[k].pid, sessions[k].image) && sessions[k].active),
    ensures
        last_active(sessions) == Some(sessions[i].pid as u64),
        snapshot_of(sessions).audio_target == Some(sessions[i].pid as u64),
    decreases sessions.len(),
{
    if i < sessions.len() - 1 {
        let before = sessions.drop_last();
        let end = sessions[sessions.len() - 1];
        assert(!(end.flow == Flow::Render && discord_process(end.pid, end.image) && end.active));
        assert forall|k: int| i < k < before.len() implies !((#[trigger] before[k]).flow
            == Flow::Render && discord_process(before[k].pid, before[k].image)
            && before[k].active) by {
            assert(before[k] == sessions[k]);
        }
        law_last_active_is_recorded(before, i);
    }
}

/// Where none is active, the first session that Discord plays through gives it; without any, there
/// is none.
pub proof fn law_first_idle_is_recorded(sessions: Seq<Session>, i: int)
    requires
        0 <= i <= sessions.len(),
        forall|k: int|
            0 <= k < sessions.len() && (#[trigger] sessions[k]).flow == Flow::Render
                && discord_process(sessions[k].pid, sessions[k].image) ==> k >= i
                && !sessions[k].active,
        i < sessions.len() ==> sessions[i].flow == Flow::Render && discord_process(
            sessions[i].pid,
            sessions[i].image,
        ),
    ensures
        snapshot_of(sessions).audio_target == if i < sessions.len() {
            Some(sessions[i].pid as u64)
        } else {
            None
        },
{
    lemma_last_active(sessions);
    lemma_first_playing(sessions, i);
}

proof fn lemma_first_playing(sessions: Seq<Session>, i: int)
    requires
        0 <= i <= sessions.len(),
        forall|k: int| 0 <= k < i ==> !(#[trigger] sessions[k]).of_discord(Flow::Render),
        i < sessions.len() ==> sessions[i].of_discord(Flow::Render),
    ensures
        first_playing(sessions) == if i < sessions.len() {
            Some(sessions[i].pid as u64)
        } else {
            None
        },
    decreases sessions.len(),
{
    if sessions.len() > 0 {
        let before = sessions.drop_last();
        let at = if i < before.len() {
            i
        } else {
            before.len() as int
        };
        assert forall|k: int| 0 <= k < at implies !(#[trigger] before[k]).of_discord(
            Flow::Render,
        ) by {
            assert(before[k] == sessions[k]);
        }
        lemma_first_playing(before, at);
        if i == sessions.len() {
            assert(!sessions[sessions.len() - 1].of_discord(Flow::Render));
        }
    }
}

/// Discord is in a voice channel exactly where one of its processes actively reads a microphone.
pub proof fn law_voice_is_a_capture(sessions: Seq<Session>)
    ensures
        snapshot_of(sessions).in_voice <==> exists|i: int|
            {
                &&& 0 <= i < sessions.len()
                &&& (#[trigger] sessions[i]).flow == Flow::Capture
                &&& discord_process(sessions[i].pid, sessions[i].image)
                &&& sessions[i].active
            },
{
    if exists|i: int|
        {
            &&& 0 <= i < sessions.len()
            &&& (#[trigger] sessions[i]).flow == Flow::Capture
            &&& discord_process(sessions[i].pid, sessions[i].image)
            &&& sessions[i].active
        } {
        let i = choose|i: int|
            {
                &&& 0 <= i < sessions.len()
                &&& (#[trigger] sessions[i]).flow == Flow::Capture
                &&& discord_process(sessions[i].pid, sessions[i].image)
                &&& sessions[i].active
            };
        assert(sessions[i].of_discord(Flow::Capture));
    }
}

/// A program without an extension is known by its whole name; a path without a file name names
/// none.
pub proof fn law_programs_without_extension(dir: Seq<char>, sep: char, name: Seq<char>)
    requires
        parts(sep, Platform::Windows),
        is_component(name, Platform::Windows),
        !like_share(dir),
        no_dot(name),
    ensures
        discord_image(dir + seq![sep] + name) <==> name.len() >= 7 && alike(
            name.take(7),
            "discord"@,
        ),
        file_name_on(dir, Platform::Windows) is None ==> !discord_image(dir),
{
    law_file_name(dir, sep, name, Platform::Windows);
    assert forall|i: int| 0 <= i < name.len() implies Class::Except('.').has(
        #[trigger] name[i],
    ) by {}
    lemma_span_back_is(name, Class::Except('.'), 0);
    assert(name.take(stem_len(name)) =~= name);
    reveal_strlit("discord");
    assert(lowered("discord"@) =~= "discord"@);
    if name.len() >= 7 {
        lemma_alike(name.take(7), "discord"@);
        assert(lowered(name).subrange(0, 7) =~= lowered(name.take(7)));
    }
}

/// Edges can be measured where their distances fit into 32 bits with a sign.
pub proof fn law_measurable(rect: Rect)
    ensures
        rect.measurable() <==> -0x8000_0000 <= rect.right - rect.left <= 0x7fff_ffff
            && -0x8000_0000 <= rect.bottom - rect.top <= 0x7fff_ffff,
{
}

} // verus!
