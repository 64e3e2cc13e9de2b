//! What holds of the watch over many steps: when recordings begin, go on and end.

use vstd::prelude::*;

use crate::config::Config;
use crate::recorder::{Recording, VideoSpec};
use crate::service::{
    epoch_ms, exit_text, opt_text, published, win_picture, x11_picture, Action, Input, Shared,
    Status, StatusView, Watch, RETRY_COOLDOWN_TICKS,
};
use crate::voice::Snapshot;
use crate::win::WinWindow;
use crate::x11::DiscordWindow;

verus! {

/// A voice session is recorded at once, unless a pause after a failure is still on.
pub proof fn law_voice_is_recorded(w: Watch, input: Input)
    requires
        w.current is None,
        w.cooldown == 0,
        input.enabled,
        input.in_voice,
    ensures
        w.after(input).1 == (Action::Start { manual: false }),
{
}

/// A recording that the user asks for begins at once, in a voice session or not, in automatic
/// mode or not.
pub proof fn law_force_records(w: Watch, input: Input)
    requires
        w.current is None,
        w.cooldown == 0,
        input.force,
    ensures
        w.after(input).1 == (Action::Start { manual: !(input.enabled && input.in_voice) }),
{
}

/// A recording begins only where one is wanted and none is on; one ends only where none is
/// wanted and one is on.
pub proof fn law_only_when_due(w: Watch, input: Input)
    ensures
        w.after(input).1 is Start ==> input.want() && w.current is None && w.cooldown == 0,
        w.after(input).1 matches Action::Stop(rec) ==> !input.want() && w.current == Some(rec),
{
}

/// Without voice, and without the user asking, nothing ever begins.
pub proof fn law_nothing_begins_unasked(w: Watch, input: Input)
    requires
        !input.in_voice,
        !input.force,
    ensures
        !(w.after(input).1 is Start),
{
}

/// What is wanted goes on: it is never cut, and starts its absence anew.
pub proof fn law_wanted_goes_on(w: Watch, input: Input)
    requires
        w.current is Some,
        input.want(),
    ensures
        w.after(input).1 == Action::Wait,
        w.after(input).0 == (Watch { absent_ticks: 0, ..w }),
{
}

/// Where the user lets go of a recording begun outside a voice session, or switches the
/// automatic mode off, it ends at the very next step.
pub proof fn law_let_go_ends_at_once(w: Watch, input: Input)
    requires
        w.current is Some,
        !input.want(),
        w.manual || !input.enabled,
    ensures
        w.after(input).1 == Action::Stop(w.current->0),
        w.after(input).0.current is None,
{
}

/// Where the watch stands after steps that look at these, one after the other.
pub open spec fn watched(w: Watch, inputs: Seq<Input>) -> Watch
    decreases inputs.len(),
{
    if inputs.len() == 0 {
        w
    } else {
        watched(w, inputs.drop_last()).after(inputs.last()).0
    }
}

/// How many of the last steps, in a row, wanted no recording.
pub open spec fn absence(inputs: Seq<Input>) -> nat
    decreases inputs.len(),
{
    if inputs.len() == 0 || inputs.last().want() {
        0
    } else {
        absence(inputs.drop_last()) + 1
    }
}

/// Whether the last of these steps is one at which patience with the recording of `w` is at its
/// end: it wants none, and as many in a row as are waited out want none. There is no patience
/// where the user alone began it, or the automatic mode is off.
pub open spec fn worn_out(w: Watch, inputs: Seq<Input>) -> bool {
    &&& inputs.len() > 0
    &&& !inputs.last().want()
    &&& absence(inputs) >= if w.manual || !inputs.last().enabled {
        0
    } else {
        inputs.last().stop_debounce_s as nat
    }
}

proof fn lemma_watched(w: Watch, inputs: Seq<Input>)
    requires
        w.current is Some,
        w.absent_ticks == 0,
        forall|n: int| 0 <= n <= inputs.len() ==> !worn_out(w, #[trigger] inputs.take(n)),
    ensures
        absence(inputs) < u32::MAX,
        watched(w, inputs) == (Watch { absent_ticks: absence(inputs) as u32, ..w }),
    decreases inputs.len(),
{
    if inputs.len() > 0 {
        let before = inputs.drop_last();
        assert forall|n: int| 0 <= n <= before.len() implies !worn_out(
            w,
            #[trigger] before.take(n),
        ) by {
            assert(before.take(n) =~= inputs.take(n));
        }
        lemma_watched(w, before);
        assert(inputs.take(inputs.len() as int) =~= inputs);
    }
}

/// Whatever is looked at, step after step, a recording goes on for as long as patience lasts, and
/// ends at the very step at which it is worn out, not before and not later: a step that wants a
/// recording, such as one at which the voice session is back, starts the wait anew and keeps the
/// recording as it was.
pub proof fn law_end_is_waited_out(w: Watch, inputs: Seq<Input>, next: Input)
    requires
        w.current is Some,
        w.absent_ticks == 0,
        forall|n: int| 0 <= n <= inputs.len() ==> !worn_out(w, #[trigger] inputs.take(n)),
    ensures
        watched(w, inputs) == (Watch { absent_ticks: absence(inputs) as u32, ..w }),
        watched(w, inputs).after(next).1 == if worn_out(w, inputs.push(next)) {
            Action::Stop(w.current->0)
        } else {
            Action::Wait
        },
        next.want() ==> watched(w, inputs).after(next).0 == w,
{
    lemma_watched(w, inputs);
    assert(inputs.push(next).drop_last() =~= inputs);
}

/// Where the watch stands after `n` steps of the same kind.
pub open spec fn after_steps(w: Watch, input: Input, n: nat) -> Watch
    decreases n,
{
    if n == 0 {
        w
    } else {
        after_steps(w, input, (n - 1) as nat).after(input).0
    }
}

proof fn lemma_absence(w: Watch, input: Input, n: nat)
    requires
        w.wf(),
        w.current is Some,
        !w.manual,
        w.absent_ticks == 0,
        input.enabled,
        !input.in_voice,
        !input.force,
        n < input.stop_debounce_s,
    ensures
        after_steps(w, input, n) == (Watch { absent_ticks: n as u32, ..w }),
    decreases n,
{
    if n > 0 {
        lemma_absence(w, input, (n - 1) as nat);
    }
}

/// The end of a voice session is waited out: the recording goes on for as many steps as the
/// settings say but one, and ends at that step.
pub proof fn law_debounce(w: Watch, input: Input, n: nat)
    requires
        w.wf(),
        w.current is Some,
        !w.manual,
        w.absent_ticks == 0,
        input.enabled,
        !input.in_voice,
        !input.force,
        input.stop_debounce_s > 0,
        n < input.stop_debounce_s,
    ensures
        after_steps(w, input, n).current == w.current,
        n + 1 < input.stop_debounce_s ==> after_steps(w, input, n).after(input).1 == Action::Wait,
        n + 1 == input.stop_debounce_s ==> after_steps(w, input, n).after(input).1 == Action::Stop(
            w.current->0,
        ),
{
    lemma_absence(w, input, n);
}

/// A voice session that comes back in time leaves the recording as it was.
pub proof fn law_reconnection_survives(w: Watch, absent: Input, back: Input, n: nat)
    requires
        w.wf(),
        w.current is Some,
        !w.manual,
        w.absent_ticks == 0,
        absent.enabled,
        !absent.in_voice,
        !absent.force,
        n < absent.stop_debounce_s,
        back.want(),
    ensures
        after_steps(w, absent, n).after(back) == (w, Action::Wait),
{
    lemma_absence(w, absent, n);
}

proof fn lemma_pause(w: Watch, input: Input, n: nat)
    requires
        w.current is None,
        input.want(),
        n <= w.cooldown,
        n > 0,
    ensures
        after_steps(w, input, n) == (Watch {
            absent_ticks: 0,
            cooldown: (w.cooldown - n) as u32,
            ..w
        }),
    decreases n,
{
    reveal_with_fuel(after_steps, 2);
    if n > 1 {
        lemma_pause(w, input, (n - 1) as nat);
    }
}

/// After a failure, or an end by itself, a recording that stays wanted is tried again after the
/// pause, not before.
pub proof fn law_retry_after_pause(w: Watch, input: Input, n: nat)
    requires
        w.current is None,
        w.cooldown == RETRY_COOLDOWN_TICKS,
        input.want(),
        n <= RETRY_COOLDOWN_TICKS,
    ensures
        n < RETRY_COOLDOWN_TICKS ==> after_steps(w, input, n).after(input).1 == Action::Wait,
        n == RETRY_COOLDOWN_TICKS ==> after_steps(w, input, n).after(input).1 is Start,
{
    if n > 0 {
        lemma_pause(w, input, n);
    }
}

/// After an end by itself nothing is being recorded, and the pause is on.
pub proof fn law_interruption_pauses(w: Watch, input: Input)
    ensures
        w.interrupted().current is None,
        w.interrupted().after(input).1 == Action::Wait,
{
}

/// Every step keeps the counters in their ranges.
pub proof fn law_counters_stay_in_range(w: Watch, input: Input)
    requires
        w.wf(),
    ensures
        w.after(input).0.wf(),
        w.interrupted().wf(),
{
}

/// When a recording begins: exactly where one is wanted, none is on and no pause is left. It is
/// the user's own exactly where no voice session calls for it.
pub proof fn law_begins_exactly_when(w: Watch, input: Input)
    ensures
        w.after(input).1 is Start <==> {
            &&& input.force || (input.enabled && input.in_voice)
            &&& w.current is None
            &&& w.cooldown == 0
        },
        w.after(input).1 matches Action::Start { manual } ==> manual == !(input.enabled
            && input.in_voice),
{
}

/// When a recording ends: exactly where one is on, neither the user nor a voice session calls for
/// it, and it need not or can no longer be waited for. It is the one that was on.
pub proof fn law_ends_exactly_when(w: Watch, input: Input)
    ensures
        w.after(input).1 is Stop <==> {
            &&& w.current is Some
            &&& !input.force
            &&& !(input.enabled && input.in_voice)
            &&& w.manual || !input.enabled || w.absent_ticks + 1 >= input.stop_debounce_s
        },
        w.after(input).1 matches Action::Stop(rec) ==> w.current == Some(rec),
{
}

/// What is on stays on until it ends, and whose it is stays known as long.
pub proof fn law_recording_stays_until_it_ends(w: Watch, input: Input)
    ensures
        !(w.after(input).1 is Stop) ==> w.after(input).0.current == w.current
            && w.after(input).0.manual == w.manual,
        w.after(input).1 is Stop ==> w.after(input).0.current is None
            && !w.after(input).0.manual,
{
}

/// The pause changes only while it keeps a recording that is wanted from beginning, and then by
/// one. So the end of a recording leaves it as it was.
pub proof fn law_pause_changes_only_in_wait(w: Watch, input: Input)
    ensures
        w.after(input).1 is Stop ==> w.after(input).0.cooldown == w.cooldown,
        w.after(input).0.cooldown == if (input.force || (input.enabled && input.in_voice))
            && w.current is None && w.cooldown > 0 {
            w.cooldown - 1
        } else {
            w.cooldown as int
        },
{
}

/// The steps without a wish for the recording that is on are counted one by one, and from anew
/// after every wish and every end.
pub proof fn law_absence_is_counted(w: Watch, input: Input)
    requires
        w.wf(),
    ensures
        ({
            let next = w.after(input).0.absent_ticks;
            if input.force || (input.enabled && input.in_voice) || w.after(input).1 is Stop {
                next == 0
            } else if w.current is Some {
                next == w.absent_ticks + 1
            } else {
                next == w.absent_ticks
            }
        }),
{
}

/// Where the watch stands after steps in which every recording that is asked for begins, and none
/// ends by itself. `recs` are the recordings that begin.
pub open spec fn undisturbed(w: Watch, inputs: Seq<Input>, recs: Seq<Recording>) -> Watch
    decreases inputs.len(),
{
    if inputs.len() == 0 {
        w
    } else {
        let before = undisturbed(w, inputs.drop_last(), recs);
        match before.after(inputs.last()).1 {
            Action::Start { manual } => Watch {
                current: Some(recs[inputs.len() - 1]),
                manual,
                ..before.after(inputs.last()).0
            },
            _ => before.after(inputs.last()).0,
        }
    }
}

/// As long as nothing fails there is never a pause: whatever has begun and ended before, the
/// first step that wants a recording while none is on begins one.
pub proof fn law_no_pause_without_failure(
    w: Watch,
    inputs: Seq<Input>,
    recs: Seq<Recording>,
    next: Input,
)
    requires
        w.cooldown == 0,
    ensures
        undisturbed(w, inputs, recs).cooldown == 0,
        undisturbed(w, inputs, recs).current is None && (next.force || (next.enabled
            && next.in_voice)) ==> undisturbed(w, inputs, recs).after(next).1 is Start,
    decreases inputs.len(),
{
    if inputs.len() > 0 {
        law_no_pause_without_failure(w, inputs.drop_last(), recs, inputs.last());
    }
}

/// As long as nothing fails, a recording is on after every step at which the user is in voice and
/// the automatic mode is on, from the very first.
pub proof fn law_voice_is_covered(w: Watch, inputs: Seq<Input>, recs: Seq<Recording>)
    requires
        w.cooldown == 0,
        inputs.len() > 0,
        inputs.last().enabled,
        inputs.last().in_voice,
    ensures
        undisturbed(w, inputs, recs).current is Some,
{
    law_no_pause_without_failure(w, inputs.drop_last(), recs, inputs.last());
}

/// After a recorder that ended by itself, ten steps that want a recording pass before the next
/// attempt, and the eleventh makes it.
pub proof fn law_pause_is_ten_steps(w: Watch, input: Input, n: nat)
    requires
        input.force || (input.enabled && input.in_voice),
        n <= 10,
    ensures
        RETRY_COOLDOWN_TICKS == 10,
        w.interrupted().current is None,
        !w.interrupted().manual,
        w.interrupted().absent_ticks == w.absent_ticks,
        after_steps(w.interrupted(), input, n).after(input).1 is Start <==> n == 10,
{
    if n > 0 {
        lemma_pause(w.interrupted(), input, n);
    }
}

/// Steps that want no recording do not shorten the pause.
pub proof fn law_pause_waits_for_a_wish(w: Watch, input: Input, n: nat)
    requires
        w.current is None,
        !input.force,
        !(input.enabled && input.in_voice),
    ensures
        after_steps(w, input, n) == w,
    decreases n,
{
    if n > 0 {
        law_pause_waits_for_a_wish(w, input, (n - 1) as nat);
    }
}

/// What the interface is told: the settings and the voice state as they are, and of a recording
/// its file, its start, whether it has a picture, and with a picture the encoder. Without a
/// recording nothing of one is left. The last error stays.
pub proof fn law_status_tells_all(
    before: StatusView,
    enabled: bool,
    force: bool,
    output_dir: Seq<char>,
    snap: Snapshot,
    rec: Option<Recording>,
)
    ensures
        ({
            let s = published(before, enabled, force, output_dir, snap, rec);
            &&& s.enabled == enabled
            &&& s.forced == force
            &&& s.output_dir == output_dir
            &&& s.in_voice == snap.in_voice
            &&& s.last_error == before.last_error
            &&& s.recording <==> rec is Some
            &&& match rec {
                Some(r) => {
                    &&& s.file == Some(r.file@)
                    &&& s.started_at_ms == Some(r.started_at_ms)
                    &&& s.video_active == r.has_video
                    &&& s.encoder is Some <==> r.has_video
                    &&& r.has_video ==> s.encoder == Some(r.encoder.label_text())
                },
                None => {
                    &&& s.file is None
                    &&& s.started_at_ms is None
                    &&& !s.video_active
                    &&& s.encoder is None
                },
            }
        }),
{
}

/// A window is captured as it was found, at the frame rate of the settings.
pub proof fn law_window_is_captured_as_found(x: DiscordWindow, v: WinWindow, cfg: Config)
    ensures
        x11_picture(x, cfg) matches VideoSpec::X11Window { xid, framerate, width, height } && xid
            == x.xid && framerate == cfg.framerate && width == x.width && height == x.height,
        win_picture(v, cfg) matches VideoSpec::WinWindow { hwnd, framerate, width, height } && hwnd
            == v.hwnd && framerate == cfg.framerate && width == v.width && height == v.height,
{
}

/// A time that fits is told as it is; one that does not is the greatest there is, and one before
/// the epoch is 0.
pub proof fn law_time_is_told_as_it_is(ms: u128)
    ensures
        ms <= u64::MAX ==> epoch_ms(Some(ms)) == ms,
        ms > u64::MAX ==> epoch_ms(Some(ms)) == u64::MAX,
        epoch_ms(None) == 0,
{
}

/// Whatever ended the recorder is told in full, between the same words.
pub proof fn law_exit_is_told(a: Seq<char>, b: Seq<char>)
    ensures
        exists|pre: Seq<char>, post: Seq<char>|
            #[trigger] (pre + a + post) == exit_text(a) && pre + b + post == exit_text(b),
{
    let pre = "l'enregistreur s'est arrêté de façon inattendue ("@;
    let post = ") — voir .gstreamer.log"@;
    assert(pre + a + post == exit_text(a));
}

/// Where only the error is noted, everything else stays: the settings, what the user asked for,
/// and the rest of the status.
pub proof fn law_only_the_error_is_noted(a: Shared, b: Shared, msg: Option<Seq<char>>)
    requires
        a.only_error(b, msg),
    ensures
        b.config == a.config,
        b.enabled == a.enabled,
        b.force == a.force,
        b.quit == a.quit,
        match (b.status.last_error, msg) {
            (Some(text), Some(m)) => text@ == m,
            (None, None) => true,
            _ => false,
        },
        b.status.enabled == a.status.enabled,
        b.status.in_voice == a.status.in_voice,
        b.status.recording == a.status.recording,
        b.status.forced == a.status.forced,
        b.status.video_active == a.status.video_active,
        opt_text(b.status.encoder) == opt_text(a.status.encoder),
        opt_text(b.status.file) == opt_text(a.status.file),
        b.status.started_at_ms == a.status.started_at_ms,
        b.status.output_dir@ == a.status.output_dir@,
{
}

/// Before anything is known nothing is told.
pub proof fn law_nothing_is_told_at_first()
    ensures
        ({
            let s = StatusView::nothing_known();
            &&& !s.enabled && !s.in_voice && !s.recording && !s.forced && !s.video_active
            &&& s.encoder is None && s.file is None && s.started_at_ms is None
            &&& s.last_error is None
            &&& s.output_dir.len() == 0
        }),
{
}

/// A status is read field by field.
pub proof fn law_status_is_read(s: Status, text: String)
    ensures
        s@.enabled == s.enabled,
        s@.in_voice == s.in_voice,
        s@.recording == s.recording,
        s@.forced == s.forced,
        s@.video_active == s.video_active,
        s@.encoder == opt_text(s.encoder),
        s@.file == opt_text(s.file),
        s@.started_at_ms == s.started_at_ms,
        s@.last_error == opt_text(s.last_error),
        s@.output_dir == s.output_dir@,
        opt_text(Some(text)) == Some(text@),
        opt_text(None) is None,
{
}

/// The counters of the watch are in range where the pause is one of ten steps at most and the
/// absence can still be counted on.
pub proof fn law_range_of_the_counters(w: Watch)
    ensures
        w.wf() <==> w.cooldown <= 10 && w.absent_ticks < 0xffff_ffff,
{
}

} // verus!
