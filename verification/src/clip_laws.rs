//! What holds of every clip: its picture, its sound, its window of time and its end.

use vstd::prelude::*;

use crate::clip::{
    audio_chain, first_decoding_failure, first_error, live_start, live_stop, progress_text,
    stage_views, video_chain, BusMessage, ClipError, Rebase, Stage, StageView, StreamKind, Times,
    Trim, Verdict, AUDIO_BITRATE_BPS, LIVE_CLIP_MARGIN_MS, LIVE_CLIP_MIN_MS, REBASE_SLACK,
};
use crate::convert::{aac_element, AAC_KBPS};
use crate::encoder::VideoEncoder;
use crate::text::decimal;

verus! {

/// A picture of known size that is asked for in a smaller height gets that height, and the width
/// that keeps its ratio: even, at most two pixels below the exact one, and never below 2. It is
/// scaled once, before it is encoded.
pub proof fn law_clip_keeps_the_ratio(w: i32, h: i32, t: u32, encoder: VideoEncoder)
    requires
        0 <= w,
        0 < t < h,
    ensures
        ({
            let chain = video_chain(Some(w), Some(h), Some(t), encoder);
            &&& chain.len() == 7
            &&& chain[2] == StageView::Plain("videoscale"@)
            &&& chain[3] matches StageView::RawSize { width, height } && {
                &&& height == t
                &&& width % 2 == 0
                &&& width >= 2
                &&& width == 2 || width * h <= w * t < (width + 2) * h
                &&& w * t >= 2 * h ==> width * h <= w * t < (width + 2) * h
            }
            &&& forall|i: int|
                0 <= i < chain.len() && i != 3 ==> !(#[trigger] chain[i] is RawSize)
        }),
{
    let exact = (w * t) / (h as int);
    assert(0 <= exact <= w && exact * h <= w * t < exact * h + h) by (nonlinear_arith)
        requires
            0 <= w,
            0 < t < h,
            exact == (w * t) / (h as int),
    ;
    let width = exact - exact % 2;
    assert(width * h <= exact * h && exact * h + h <= (width + 2) * h) by (nonlinear_arith)
        requires
            width <= exact < width + 2,
            0 < h,
    ;
    if w * t >= 2 * h {
        assert(exact >= 2) by (nonlinear_arith)
            requires
                w * t >= 2 * h,
                w * t < exact * h + h,
                0 < h,
        ;
    }
    if exact < 2 {
        assert(width == 0);
    }
}

/// A picture that is asked for in no height, or in one that is not smaller than its own, is not
/// scaled; nor is one whose size is not known.
pub proof fn law_clip_is_scaled_only_down(
    width: Option<i32>,
    height: Option<i32>,
    target_height: Option<u32>,
    encoder: VideoEncoder,
)
    requires
        ({
            ||| target_height is None
            ||| target_height == Some(0u32)
            ||| height is None
            ||| height->0 <= 0
            ||| target_height->0 >= height->0
        }),
    ensures
        ({
            let chain = video_chain(width, height, target_height, encoder);
            &&& chain.len() == 5
            &&& forall|i: int| 0 <= i < chain.len() ==> !(#[trigger] chain[i] is RawSize)
        }),
{
}

/// Whatever is done to the size, the picture is converted first, then encoded by the chosen
/// encoder, and brought into the form that MP4 needs last.
pub proof fn law_clip_is_encoded(
    width: Option<i32>,
    height: Option<i32>,
    target_height: Option<u32>,
    encoder: VideoEncoder,
)
    ensures
        ({
            let chain = video_chain(width, height, target_height, encoder);
            let n = chain.len() as int;
            &&& chain[0] == StageView::Plain("queue"@)
            &&& chain[1] == StageView::Plain("videoconvert"@)
            &&& chain[n - 3] matches StageView::With(name, _) && name == encoder.element_text()
            &&& chain[n - 2] == StageView::Plain("h264parse"@)
            &&& chain[n - 1] == StageView::Avc
        }),
{
}

/// The rate of a clip goes by the height of its own picture: 2500 kilobits per second up to 480
/// lines, 5000 up to 720, 8000 up to 1080, and 12000 above. `lines` is that height, which is the
/// one asked for where it is smaller than that of the source.
pub proof fn law_clip_rate_goes_by_its_height(
    width: Option<i32>,
    h: i32,
    target_height: Option<u32>,
    encoder: VideoEncoder,
    lines: int,
)
    requires
        0 < h,
        lines == if target_height is Some && 0 < target_height->0 < h {
            target_height->0 as int
        } else {
            h as int
        },
    ensures
        ({
            let chain = video_chain(width, Some(h), target_height, encoder);
            chain[chain.len() - 3] matches StageView::With(_, properties) && {
                &&& properties.len() > 0
                &&& properties[0] == (
                    "bitrate"@,
                    decimal(
                        if lines <= 480 {
                            2500
                        } else if lines <= 720 {
                            5000
                        } else if lines <= 1080 {
                            8000
                        } else {
                            12000
                        },
                    ),
                )
            }
        }),
{
}

/// The encoder of a clip is set up the same for every size of the picture, but for the rate.
pub proof fn law_clip_encoder_is_the_same(
    width: Option<i32>,
    height: Option<i32>,
    target_height: Option<u32>,
    encoder: VideoEncoder,
)
    ensures
        ({
            let chain = video_chain(width, height, target_height, encoder);
            chain[chain.len() - 3] matches StageView::With(_, properties)
                && properties.drop_first() == encoder.all_properties(0).drop_first()
        }),
{
    let chain = video_chain(width, height, target_height, encoder);
    assert(chain[chain.len() - 3]->With_1.drop_first() =~= encoder.all_properties(
        0,
    ).drop_first());
}

/// The sound of a clip is AAC at 160 kilobits per second, as that of a conversion is, whichever
/// encoder makes it.
pub proof fn law_clip_sound(aac: Seq<char>)
    ensures
        AUDIO_BITRATE_BPS == 160_000,
        AAC_KBPS * 1000 == AUDIO_BITRATE_BPS,
        audio_chain(aac).len() == 5,
        audio_chain(aac)[0] == StageView::Plain("queue"@),
        audio_chain(aac)[1] == StageView::Plain("audioconvert"@),
        audio_chain(aac)[2] == StageView::Plain("audioresample"@),
        audio_chain(aac)[3] matches StageView::With(name, properties) && name == aac
            && properties.len() == 1 && properties[0] == ("bitrate"@, decimal(160_000)),
        audio_chain(aac)[4] == StageView::Plain("aacparse"@),
{
}

/// Of the two AAC encoders the first is taken wherever it is installed, the second where only it
/// is, and none where neither is.
pub proof fn law_aac_choice(first: bool, second: bool, more: Seq<bool>)
    ensures
        aac_element(seq![first, second] + more) == if first {
            Some("voaacenc"@)
        } else if second {
            Some("avenc_aac"@)
        } else {
            None
        },
        aac_element(seq![first]) == aac_element(seq![first, false]),
        aac_element(seq![]) is None,
{
    assert((seq![first, second] + more)[0] == first);
    assert((seq![first, second] + more)[1] == second);
}

/// Streams of pictures and of sound are told by what their media type begins with, whatever
/// follows, and each has an inlet of its own kind; other streams have none.
pub proof fn law_streams_are_told_by_their_type(kind: Seq<char>)
    ensures
        StreamKind::named("video/"@ + kind) == StreamKind::Video,
        StreamKind::named("audio/"@ + kind) == StreamKind::Audio,
        !"video/"@.is_prefix_of(kind) && !"audio/"@.is_prefix_of(kind) ==> StreamKind::named(kind)
            == StreamKind::Other,
        StreamKind::Video.inlet_text() == Some("video_%u"@),
        StreamKind::Audio.inlet_text() == Some("audio_%u"@),
        StreamKind::Other.inlet_text() is None,
{
    reveal_strlit("video/");
    reveal_strlit("audio/");
    assert("video/"@.is_prefix_of("video/"@ + kind));
    assert("audio/"@.is_prefix_of("audio/"@ + kind));
    assert(("audio/"@ + kind)[0] == 'a');
}

/// The first buffer that has a time gives the stream its base: its decoding time where it has
/// one, else its presentation time. Buffers without any time give none.
pub proof fn law_first_buffer_gives_the_base(r: Rebase, times: Times)
    requires
        r.base is None,
        times.dts matches Some(dts) ==> dts < u64::MAX,
        times.pts matches Some(pts) ==> pts < u64::MAX,
    ensures
        times.dts is Some ==> r.base_after(times) == times.dts,
        times.dts is None ==> r.base_after(times) == times.pts,
        times.pts is None ==> r.moved(times) is None,
{
}

/// Once the base is known, both times of a buffer that is passed on are moved by it.
pub proof fn law_times_are_moved_by_the_base(r: Rebase, base: u64, pts: u64, dts: Option<u64>)
    requires
        r.base == Some(base),
        base <= pts <= base + r.max_ns,
        dts matches Some(d) ==> base <= d,
    ensures
        r.moved(Times { pts: Some(pts), dts }) matches Some(out) && {
            &&& out.pts == Some((pts - base) as u64)
            &&& match dts {
                Some(d) => out.dts == Some((d - base) as u64),
                None => out.dts is None,
            }
        },
{
}

/// A buffer may lie ten seconds beyond the window, no more.
pub proof fn law_slack_is_ten_seconds()
    ensures
        REBASE_SLACK == 10_000_000_000,
{
}

/// A buffer without a time is passed on and ends nothing; one with a time ends the stream exactly
/// where it is the first at or past the end of the window. The window stays.
pub proof fn law_end_is_sent_at_the_first_late_buffer(t: Trim, pts: u64)
    ensures
        t.verdict(None) == Verdict::Pass,
        t.after(None) == t,
        t.verdict(Some(pts)) == Verdict::DropAndEnd <==> pts >= t.stop_ns && !t.ended,
        t.after(Some(pts)).ended <==> t.ended || pts >= t.stop_ns,
        t.after(Some(pts)).start_ns == t.start_ns,
        t.after(Some(pts)).stop_ns == t.stop_ns,
{
}

/// The failure that is told is the first of all, with what is known besides in brackets.
pub proof fn law_first_error_is_told(
    messages: Seq<BusMessage>,
    at: int,
    from: int,
    error: String,
    debug: Option<String>,
)
    requires
        0 <= from <= at < messages.len(),
        messages[at] == (BusMessage::Error { error, debug }),
        forall|i: int| from <= i < at ==> !(#[trigger] messages[i] is Error),
    ensures
        first_error(messages, from) == Some(
            match debug {
                Some(d) => error@ + " ("@ + d@ + ")"@,
                None => error@ + " ("@ + seq![] + ")"@,
            },
        ),
    decreases at - from,
{
    if from < at {
        assert(!(messages[from] is Error));
        law_first_error_is_told(messages, at, from + 1, error, debug);
    }
}

/// Without a failure none is told.
pub proof fn law_no_error_is_made_up(messages: Seq<BusMessage>, from: int)
    requires
        0 <= from,
        forall|i: int| from <= i < messages.len() ==> !(#[trigger] messages[i] is Error),
    ensures
        first_error(messages, from) is None,
    decreases messages.len() - from,
{
    if from < messages.len() {
        assert(!(messages[from] is Error));
        law_no_error_is_made_up(messages, from + 1);
    }
}

proof fn lemma_first_decoding_failure(decoding: Seq<BusMessage>, at: int, from: int)
    requires
        0 <= from <= at <= decoding.len(),
        forall|i: int|
            from <= i < at ==> !(#[trigger] decoding[i] is Error) && !(decoding[i] is BridgeError),
    ensures
        first_decoding_failure(decoding, from) == first_decoding_failure(decoding, at),
    decreases at - from,
{
    if from < at {
        assert(!(decoding[from] is Error));
        lemma_first_decoding_failure(decoding, at, from + 1);
    }
}

/// A failure of the decoding side fails the clip, whatever the writing side says; the first one
/// is told.
pub proof fn law_decoding_failure_comes_first(
    decoding: Seq<BusMessage>,
    writing: Option<BusMessage>,
    at: int,
)
    requires
        0 <= at < decoding.len(),
        decoding[at] is Error || decoding[at] is BridgeError,
        forall|i: int|
            0 <= i < at ==> !(#[trigger] decoding[i] is Error) && !(decoding[i] is BridgeError),
    ensures
        progress_text(decoding, writing) matches Some(Some(text)) && match decoding[at] {
            BusMessage::Error { error, debug: Some(d) } => text == "décodage : "@ + (error@
                + " ("@ + d@ + ")"@),
            BusMessage::Error { error, debug: None } => text == "décodage : "@ + (error@ + " ("@
                + seq![] + ")"@),
            BusMessage::BridgeError(Some(d)) => text == d@,
            _ => text.len() == 0,
        },
{
    lemma_first_decoding_failure(decoding, at, 0);
}

/// Where decoding has not failed, the clip is written once the writing side has come to its end,
/// fails where that side fails, and is on its way else.
pub proof fn law_writing_decides(decoding: Seq<BusMessage>, writing: Option<BusMessage>)
    requires
        forall|i: int|
            0 <= i < decoding.len() ==> !(#[trigger] decoding[i] is Error) && !(
            decoding[i] is BridgeError),
    ensures
        match writing {
            Some(BusMessage::Eos) => progress_text(decoding, writing) == Some(None::<Seq<char>>),
            Some(BusMessage::Error { error, debug: Some(d) }) => progress_text(decoding, writing)
                == Some(Some("muxage : "@ + (error@ + " ("@ + d@ + ")"@))),
            Some(BusMessage::Error { error, debug: None }) => progress_text(decoding, writing)
                == Some(Some("muxage : "@ + (error@ + " ("@ + seq![] + ")"@))),
            _ => progress_text(decoding, writing) is None,
        },
{
    lemma_first_decoding_failure(decoding, decoding.len() as int, 0);
}

/// A live clip begins as long before it was asked for as it was asked for, or with the recording;
/// it ends three seconds before the live edge; and it is at least a second long.
pub proof fn law_live_clip_window(started: u64, press: u64, edge: u64, back: u64)
    requires
        started <= press <= edge,
    ensures
        LIVE_CLIP_MARGIN_MS == 3_000,
        LIVE_CLIP_MIN_MS == 1_000,
        back <= press - started ==> live_start(started, press, back) == press - started - back,
        back > press - started ==> live_start(started, press, back) == 0,
        edge - started >= 3_000 ==> live_stop(started, edge) == edge - started - 3_000,
        edge - started < 3_000 ==> live_stop(started, edge) == 0,
{
}

/// A longer wish gives no shorter clip, and a later edge no earlier end.
pub proof fn law_live_clip_grows(
    started: u64,
    press: u64,
    edge: u64,
    later: u64,
    back: u64,
    more: u64,
)
    requires
        back <= more,
        edge <= later,
    ensures
        live_start(started, press, more) <= live_start(started, press, back),
        live_stop(started, edge) <= live_stop(started, later),
{
}

/// A picture whose width is not known, or is no width, gets the least there is where it is made
/// smaller. One whose height is not known is encoded at the lowest rate.
pub proof fn law_clip_of_unknown_size(
    width: Option<i32>,
    height: Option<i32>,
    h: i32,
    t: u32,
    encoder: VideoEncoder,
)
    requires
        width matches Some(w) ==> w <= 0,
        height matches Some(n) ==> n <= 0,
        0 < t < h,
    ensures
        video_chain(width, Some(h), Some(t), encoder)[3] == (StageView::RawSize {
            width: 2,
            height: t as i32,
        }),
        ({
            let chain = video_chain(width, height, Some(t), encoder);
            chain[2] matches StageView::With(_, properties) && properties[0] == (
                "bitrate"@,
                decimal(2500),
            )
        }),
{
    assert((0 * t) / (h as int) == 0);
}

/// A time of all ones is none, and gives no base. A decoding time before the base becomes 0.
pub proof fn law_odd_times(r: Rebase, base: u64, pts: u64, dts: u64)
    ensures
        r.base is None ==> r.base_after(Times { pts: Some(pts), dts: Some(u64::MAX) }) is None,
        r.base is None ==> r.base_after(Times { pts: Some(u64::MAX), dts: None }) is None,
        r.base is None ==> r.base_after(Times { pts: None, dts: None }) is None,
        r.base == Some(base) && base <= pts <= base + r.max_ns && dts < base ==> r.moved(
            Times { pts: Some(pts), dts: Some(dts) },
        ) == Some(Times { pts: Some((pts - base) as u64), dts: Some(0) }),
{
}

/// A clock that went back makes a live clip begin, or end, with the recording.
pub proof fn law_live_clip_of_a_clock_that_went_back(started: u64, at: u64, back: u64)
    requires
        at < started,
    ensures
        live_start(started, at, back) == 0,
        live_stop(started, at) == 0,
{
}

/// What is planned is read element by element, in order.
pub proof fn law_stages_are_read(stages: Seq<Stage>, i: int)
    requires
        0 <= i < stages.len(),
    ensures
        stage_views(stages).len() == stages.len(),
        match stages[i] {
            Stage::Plain(name) => stage_views(stages)[i] == StageView::Plain(name@),
            Stage::With(name, properties) => stage_views(stages)[i] matches StageView::With(n, p)
                && n == name@ && p.len() == properties@.len() && forall|k: int|
                0 <= k < p.len() ==> #[trigger] p[k] == (
                    properties@[k].0@,
                    properties@[k].1@,
                ),
            Stage::RawSize { width, height } => stage_views(stages)[i] == (StageView::RawSize {
                width,
                height,
            }),
            Stage::Avc => stage_views(stages)[i] == StageView::Avc,
        },
{
}

/// What went wrong is told in full, and nothing else is.
pub proof fn law_details_are_told(detail: String)
    ensures
        ClipError::Bridge(detail).text() == detail@,
        ClipError::NoPreroll(Some(detail)).text() == detail@,
        detail@.is_suffix_of(ClipError::MissingFile(detail).text()),
        detail@.is_suffix_of(ClipError::NotPaused(Some(detail)).text()),
        detail@.is_suffix_of(ClipError::Decoding(detail).text()),
        detail@.is_suffix_of(ClipError::Muxing(detail).text()),
{
    let d = detail@;
    let n = d.len();
    let a = ClipError::MissingFile(detail).text();
    let b = ClipError::NotPaused(Some(detail)).text();
    let c = ClipError::Decoding(detail).text();
    let e = ClipError::Muxing(detail).text();
    assert(a.subrange(a.len() - n, a.len() as int) =~= d);
    assert(b.subrange(b.len() - n, b.len() as int) =~= d);
    assert(c.subrange(c.len() - n, c.len() as int) =~= d);
    assert(e.subrange(e.len() - n, e.len() as int) =~= d);
}

} // verus!
