//! Cutting a window of time out of a recording and writing it as MP4.
//!
//! A clip is made by two pipelines: one decodes the window and encodes it again, the other writes
//! the file. Between them every stream is moved to begin at time 0.

use vstd::prelude::*;

use crate::convert::{aac_element, rate_for_height, ratio_width, rescale_bitrate_kbps, scaled_width};
use crate::encoder::{pair_views, VideoEncoder};
use crate::naming::{clip_of, name_clip};
use crate::paths::{file_name_on, find_file_name_on, parent, parent_on};
use crate::platform::Platform;
use crate::scan::starts_with;
use crate::text::{chars_of, concat2, decimal, string_of, with_number};

verus! {

/// Nanoseconds that a moved time may lie beyond the window; a buffer further out carries a wrong
/// time, as an encoder may give it at a discontinuity.
pub const REBASE_SLACK: u64 = 10_000_000_000;

/// Bits per second of the sound of a clip.
pub const AUDIO_BITRATE_BPS: u32 = 160_000;

/// Milliseconds by which a live clip stays short of the live edge, where the file is still being
/// written.
pub const LIVE_CLIP_MARGIN_MS: u64 = 3_000;

/// The least length of a live clip in milliseconds.
pub const LIVE_CLIP_MIN_MS: u64 = 1_000;

/// Why a clip fails.
pub enum ClipError {
    /// The input file, named here, is not there.
    MissingFile(String),
    /// The length asked for is none.
    InvalidDuration,
    /// Decoding cannot even be prepared; with the reason, where one was given.
    NotPaused(Option<String>),
    /// Decoding cannot begin; with the reason, where one was given.
    NoPreroll(Option<String>),
    /// No track can be read.
    NoReadableTrack,
    /// No AAC encoder is installed.
    NoAacEncoder,
    /// Decoding failed.
    Decoding(String),
    /// A stream could not be passed on.
    Bridge(String),
    /// Writing failed.
    Muxing(String),
    /// The length of the file is not known.
    UnknownDuration,
    /// Nothing is being recorded.
    NothingLive,
    /// The name of what is being recorded cannot be read.
    UnreadableName,
    /// What has been recorded is too short.
    TooShort,
}

impl ClipError {
    /// The text of the error.
    pub open spec fn text(self) -> Seq<char> {
        match self {
            ClipError::MissingFile(name) => "fichier introuvable : "@ + name@,
            ClipError::InvalidDuration => "durée de clip invalide"@,
            ClipError::NotPaused(detail) => "décodage → PAUSED : "@ + match detail {
                Some(d) => d@,
                None => "passage à PAUSED échoué"@,
            },
            ClipError::NoPreroll(detail) => match detail {
                Some(d) => d@,
                None => "préroll impossible (fichier illisible ?)"@,
            },
            ClipError::NoReadableTrack =>
                "aucune piste lisible (fichier non média ou corrompu ?)"@,
            ClipError::NoAacEncoder => "aucun encodeur AAC disponible (voaacenc / avenc_aac)"@,
            ClipError::Decoding(detail) => "décodage : "@ + detail@,
            ClipError::Bridge(detail) => detail@,
            ClipError::Muxing(detail) => "muxage : "@ + detail@,
            ClipError::UnknownDuration => "durée inconnue"@,
            ClipError::NothingLive => "aucun enregistrement en cours à clipper"@,
            ClipError::UnreadableName => "nom de l'enregistrement en cours illisible"@,
            ClipError::TooShort =>
                "enregistrement trop court pour ce clip (réessaie dans quelques secondes)"@,
        }
    }

    /// Gives the text of the error.
    pub fn message(&self) -> (r: String)
        ensures
            r@ == self.text(),
    {
        match self {
            ClipError::MissingFile(name) => concat2("fichier introuvable : ", name.as_str()),
            ClipError::InvalidDuration => "durée de clip invalide".to_owned(),
            ClipError::NotPaused(detail) => match detail {
                Some(d) => concat2("décodage → PAUSED : ", d.as_str()),
                None => concat2("décodage → PAUSED : ", "passage à PAUSED échoué"),
            },
            ClipError::NoPreroll(detail) => match detail {
                Some(d) => d.clone(),
                None => "préroll impossible (fichier illisible ?)".to_owned(),
            },
            ClipError::NoReadableTrack =>
                "aucune piste lisible (fichier non média ou corrompu ?)".to_owned(),
            ClipError::NoAacEncoder =>
                "aucun encodeur AAC disponible (voaacenc / avenc_aac)".to_owned(),
            ClipError::Decoding(detail) => concat2("décodage : ", detail.as_str()),
            ClipError::Bridge(detail) => detail.clone(),
            ClipError::Muxing(detail) => concat2("muxage : ", detail.as_str()),
            ClipError::UnknownDuration => "durée inconnue".to_owned(),
            ClipError::NothingLive => "aucun enregistrement en cours à clipper".to_owned(),
            ClipError::UnreadableName => "nom de l'enregistrement en cours illisible".to_owned(),
            ClipError::TooShort =>
                "enregistrement trop court pour ce clip (réessaie dans quelques secondes)".to_owned(),
        }
    }
}

/// One element of a chain of elements.
pub enum Stage {
    /// An element without settings.
    Plain(&'static str),
    /// An element with properties.
    With(&'static str, Vec<(&'static str, String)>),
    /// A picture of this size, with square pixels.
    RawSize { width: i32, height: i32 },
    /// H.264 in the form that MP4 needs.
    Avc,
}

/// The mathematical reading of an element.
pub enum StageView {
    Plain(Seq<char>),
    With(Seq<char>, Seq<(Seq<char>, Seq<char>)>),
    RawSize { width: i32, height: i32 },
    Avc,
}

impl View for Stage {
    type V = StageView;

    open spec fn view(&self) -> StageView {
        match self {
            Stage::Plain(name) => StageView::Plain(name@),
            Stage::With(name, properties) => StageView::With(name@, pair_views(properties@)),
            Stage::RawSize { width, height } => StageView::RawSize {
                width: *width,
                height: *height,
            },
            Stage::Avc => StageView::Avc,
        }
    }
}

/// The readings of a chain of elements.
pub open spec fn stage_views(stages: Seq<Stage>) -> Seq<StageView> {
    Seq::new(stages.len(), |i: int| stages[i]@)
}

/// A size that a stream claims; 0 where it is missing or negative.
pub open spec fn claimed(size: Option<i32>) -> u32 {
    match size {
        Some(n) => if n >= 0 {
            n as u32
        } else {
            0
        },
        None => 0,
    }
}

fn claimed_size(size: Option<i32>) -> (r: u32)
    ensures
        r == claimed(size),
{
    match size {
        Some(n) => if n >= 0 {
            n as u32
        } else {
            0
        },
        None => 0,
    }
}

/// A size as the pipelines write it.
pub open spec fn fitted(n: u32) -> i32 {
    if n <= i32::MAX {
        n as i32
    } else {
        i32::MAX
    }
}

fn fit(n: u32) -> (r: i32)
    ensures
        r == fitted(n),
{
    if n <= i32::MAX as u32 {
        n as i32
    } else {
        i32::MAX
    }
}

/// The height of the clip: the one asked for where it is smaller than that of the source, which
/// is never enlarged.
pub open spec fn final_height(src_h: u32, target_height: Option<u32>) -> u32 {
    match target_height {
        Some(h) => if src_h != 0 && h < src_h {
            h
        } else {
            src_h
        },
        None => src_h,
    }
}

/// Whether the picture is made smaller.
pub open spec fn is_reduced(src_h: u32, target_height: Option<u32>) -> bool {
    final_height(src_h, target_height) != 0 && final_height(src_h, target_height) < src_h
}

/// The height by which the bit rate is chosen.
pub open spec fn rated_height(src_h: u32, target_height: Option<u32>) -> u32 {
    if final_height(src_h, target_height) == 0 {
        src_h
    } else {
        final_height(src_h, target_height)
    }
}

/// The picture of a clip never grows: where it is made smaller its height is the one asked for,
/// and everywhere else that of the source.
pub proof fn law_clip_never_grows(src_h: u32, target_height: Option<u32>)
    ensures
        final_height(src_h, target_height) <= src_h,
        is_reduced(src_h, target_height) ==> target_height == Some(
            final_height(src_h, target_height),
        ),
{
}

/// The chain that encodes a decoded picture again.
pub open spec fn video_chain(
    width: Option<i32>,
    height: Option<i32>,
    target_height: Option<u32>,
    encoder: VideoEncoder,
) -> Seq<StageView> {
    let src_h = claimed(height);
    let final_h = final_height(src_h, target_height);
    seq![StageView::Plain("queue"@), StageView::Plain("videoconvert"@)] + (if is_reduced(
        src_h,
        target_height,
    ) {
        seq![
            StageView::Plain("videoscale"@),
            StageView::RawSize {
                width: fitted(ratio_width(claimed(width), src_h, final_h)),
                height: fitted(final_h),
            },
        ]
    } else {
        seq![]
    }) + seq![
        StageView::With(
            encoder.element_text(),
            encoder.all_properties(rate_for_height(rated_height(src_h, target_height)) as nat),
        ),
        StageView::Plain("h264parse"@),
        StageView::Avc,
    ]
}

/// Plans the chain that encodes a decoded picture again, given the size that the stream claims.
pub fn build_video_encode_branch(
    width: Option<i32>,
    height: Option<i32>,
    target_height: Option<u32>,
    encoder: VideoEncoder,
) -> (r: Vec<Stage>)
    ensures
        stage_views(r@) == video_chain(width, height, target_height, encoder),
{
    let src_w: u32 = claimed_size(width);
    let src_h: u32 = claimed_size(height);
    let final_h: u32 = match target_height {
        Some(h) => if src_h != 0 && h < src_h {
            h
        } else {
            src_h
        },
        None => src_h,
    };
    let mut stages: Vec<Stage> = Vec::new();
    stages.push(Stage::Plain("queue"));
    stages.push(Stage::Plain("videoconvert"));
    if final_h != 0 && final_h < src_h {
        stages.push(Stage::Plain("videoscale"));
        stages.push(
            Stage::RawSize {
                width: fit(scaled_width(src_w, src_h, final_h)),
                height: fit(final_h),
            },
        );
    }
    let rate: u32 = rescale_bitrate_kbps(
        if final_h == 0 {
            src_h
        } else {
            final_h
        },
    );
    stages.push(Stage::With(encoder.element(), encoder.properties(rate)));
    stages.push(Stage::Plain("h264parse"));
    stages.push(Stage::Avc);
    assert(stage_views(stages@) =~= video_chain(width, height, target_height, encoder));
    stages
}

/// The chain that encodes decoded sound again.
pub open spec fn audio_chain(aac: Seq<char>) -> Seq<StageView> {
    seq![
        StageView::Plain("queue"@),
        StageView::Plain("audioconvert"@),
        StageView::Plain("audioresample"@),
        StageView::With(aac, seq![("bitrate"@, decimal(AUDIO_BITRATE_BPS as nat))]),
        StageView::Plain("aacparse"@),
    ]
}

/// Plans the chain that encodes decoded sound again, with the first AAC encoder that is
/// installed. `available` says of each candidate, in order, whether it is.
pub fn build_audio_encode_branch(available: &[bool]) -> (r: Result<Vec<Stage>, ClipError>)
    ensures
        r is Ok <==> aac_element(available@) is Some,
        match r {
            Ok(stages) => stage_views(stages@) == audio_chain(aac_element(available@)->0),
            Err(e) => e == ClipError::NoAacEncoder,
        },
{
    let element: &'static str = if available.len() > 0 && available[0] {
        "voaacenc"
    } else if available.len() > 1 && available[1] {
        "avenc_aac"
    } else {
        return Err(ClipError::NoAacEncoder);
    };
    let rate = with_number("", AUDIO_BITRATE_BPS as u64);
    proof {
        reveal_strlit("");
        assert(rate@ =~= decimal(AUDIO_BITRATE_BPS as nat));
    }
    let mut settings: Vec<(&'static str, String)> = Vec::new();
    settings.push(("bitrate", rate));
    assert(pair_views(settings@) =~= seq![("bitrate"@, decimal(AUDIO_BITRATE_BPS as nat))]);
    let mut stages: Vec<Stage> = Vec::new();
    stages.push(Stage::Plain("queue"));
    stages.push(Stage::Plain("audioconvert"));
    stages.push(Stage::Plain("audioresample"));
    stages.push(Stage::With(element, settings));
    stages.push(Stage::Plain("aacparse"));
    assert(stage_views(stages@) =~= audio_chain(aac_element(available@)->0));
    Ok(stages)
}

/// What a decoded stream carries.
#[derive(Debug, Clone, Copy, PartialEq, Eq, Structural)]
pub enum StreamKind {
    Video,
    Audio,
    /// Subtitles and the like, which are left out.
    Other,
}

impl StreamKind {
    /// What a stream of the given media type carries.
    pub open spec fn named(media: Seq<char>) -> StreamKind {
        if "video/"@.is_prefix_of(media) {
            StreamKind::Video
        } else if "audio/"@.is_prefix_of(media) {
            StreamKind::Audio
        } else {
            StreamKind::Other
        }
    }

    /// Finds out what a stream of the given media type carries.
    pub fn of(media: &str) -> (r: StreamKind)
        ensures
            r == StreamKind::named(media@),
    {
        let chars = chars_of(media);
        if starts_with(chars.as_slice(), chars_of("video/").as_slice()) {
            StreamKind::Video
        } else if starts_with(chars.as_slice(), chars_of("audio/").as_slice()) {
            StreamKind::Audio
        } else {
            StreamKind::Other
        }
    }

    /// The template of the inlet that the writer has for such a stream.
    pub open spec fn inlet_text(self) -> Option<Seq<char>> {
        match self {
            StreamKind::Video => Some("video_%u"@),
            StreamKind::Audio => Some("audio_%u"@),
            StreamKind::Other => None,
        }
    }

    /// Gives the template of the inlet that the writer has for such a stream.
    pub fn inlet(self) -> (r: Option<&'static str>)
        ensures
            match r {
                Some(t) => self.inlet_text() == Some(t@),
                None => self.inlet_text() is None,
            },
    {
        match self {
            StreamKind::Video => Some("video_%u"),
            StreamKind::Audio => Some("audio_%u"),
            StreamKind::Other => None,
        }
    }
}

/// The move of one stream to time 0: the first time of its own that is met becomes 0. Encoders do
/// not share a base, so each stream has its own.
#[derive(Debug, Clone, Copy, PartialEq, Eq)]
pub struct Rebase {
    /// What is taken off every time, once it is known.
    pub base: Option<u64>,
    /// The greatest time that is passed on.
    pub max_ns: u64,
}

/// The times of a buffer, in nanoseconds.
#[derive(Debug, Clone, Copy, PartialEq, Eq)]
pub struct Times {
    pub pts: Option<u64>,
    pub dts: Option<u64>,
}

/// `t` less `base`, but not below 0.
pub open spec fn taken_off(t: u64, base: u64) -> u64 {
    if t >= base {
        (t - base) as u64
    } else {
        0
    }
}

impl Rebase {
    /// The base after a buffer: its decoding time, else its presentation time, if none was known.
    pub open spec fn base_after(self, times: Times) -> Option<u64> {
        let own = match times.dts {
            Some(t) => Some(t),
            None => times.pts,
        };
        match (self.base, own) {
            (None, Some(t)) => if t < u64::MAX {
                Some(t)
            } else {
                None
            },
            _ => self.base,
        }
    }

    /// The times with which a buffer is passed on; it is left out where it has no presentation
    /// time, or one that cannot be right: before the first buffer, or too long after it.
    pub open spec fn moved(self, times: Times) -> Option<Times> {
        match (self.base_after(times), times.pts) {
            (Some(base), Some(pts)) => if base <= pts && pts - base <= self.max_ns {
                Some(
                    Times {
                        pts: Some((pts - base) as u64),
                        dts: match times.dts {
                            Some(dts) => Some(taken_off(dts, base)),
                            None => None,
                        },
                    },
                )
            } else {
                None
            },
            _ => None,
        }
    }

    /// Begins a stream of a window of the given length.
    pub fn new(window_ns: u64) -> (r: Rebase)
        requires
            window_ns + REBASE_SLACK <= u64::MAX,
        ensures
            r == (Rebase { base: None, max_ns: (window_ns + REBASE_SLACK) as u64 }),
    {
        Rebase { base: None, max_ns: window_ns + REBASE_SLACK }
    }

    /// Moves a buffer, or leaves it out.
    pub fn pass(&mut self, times: Times) -> (r: Option<Times>)
        ensures
            r == old(self).moved(times),
            *final(self) == (Rebase { base: old(self).base_after(times), ..*old(self) }),
    {
        let own: Option<u64> = match times.dts {
            Some(t) => Some(t),
            None => times.pts,
        };
        if self.base.is_none() {
            if let Some(t) = own {
                if t < u64::MAX {
                    self.base = Some(t);
                }
            }
        }
        match (self.base, times.pts) {
            (Some(base), Some(pts)) => {
                if base <= pts && pts - base <= self.max_ns {
                    Some(
                        Times {
                            pts: Some(pts - base),
                            dts: match times.dts {
                                Some(dts) => Some(dts.saturating_sub(base)),
                                None => None,
                            },
                        },
                    )
                } else {
                    None
                }
            },
            _ => None,
        }
    }
}

/// What is passed on lies within the window and the slack.
pub proof fn law_moved_lies_in_window(r: Rebase, times: Times)
    ensures
        r.moved(times) matches Some(out) ==> out.pts matches Some(pts) && pts <= r.max_ns,
{
}

/// The first time that is met becomes 0.
pub proof fn law_stream_begins_at_zero(window_ns: u64, times: Times)
    requires
        window_ns + REBASE_SLACK <= u64::MAX,
        times.pts is Some,
        times.dts matches Some(dts) ==> dts <= times.pts->0 <= dts + window_ns && dts < u64::MAX,
        times.dts is None ==> times.pts->0 < u64::MAX,
    ensures
        ({
            let r = Rebase { base: None, max_ns: (window_ns + REBASE_SLACK) as u64 };
            match times.dts {
                Some(_) => r.moved(times) is Some && (r.moved(times)->0).dts == Some(0u64),
                None => r.moved(times) == Some(Times { pts: Some(0), dts: None }),
            }
        }),
{
}

/// The base, once known, stays: every buffer of the stream is moved by the same amount.
pub proof fn law_base_stays(r: Rebase, times: Times)
    requires
        r.base is Some,
    ensures
        r.base_after(times) == r.base,
{
}

/// Buffers of a stream keep their order and their distance.
pub proof fn law_distances_are_kept(r: Rebase, a: Times, b: Times)
    requires
        r.base is Some,
        r.moved(a) is Some,
        r.moved(b) is Some,
    ensures
        (r.moved(b)->0).pts->0 - (r.moved(a)->0).pts->0 == b.pts->0 - a.pts->0,
{
}

/// A buffer that lies before the first one of its stream, or after the window and the slack, is
/// left out, and no other buffer that has a time.
pub proof fn law_stray_buffers_are_left_out(r: Rebase, times: Times, base: u64, pts: u64)
    requires
        r.base == Some(base),
        times.pts == Some(pts),
    ensures
        r.moved(times) is None <==> pts < base || base + r.max_ns < pts,
{
}

/// What becomes of a decoded buffer.
#[derive(Debug, Clone, Copy, PartialEq, Eq, Structural)]
pub enum Verdict {
    /// It is passed on.
    Pass,
    /// It is left out.
    Drop,
    /// It is left out, and the stream ends.
    DropAndEnd,
}

/// The window on one decoded stream: the safeguard where the file could not be entered at the
/// start of the window.
#[derive(Debug, Clone, Copy, PartialEq, Eq)]
pub struct Trim {
    pub start_ns: u64,
    pub stop_ns: u64,
    /// Whether the end of the stream has been sent.
    pub ended: bool,
}

impl Trim {
    /// What becomes of a buffer with this presentation time; one without a time is passed on.
    pub open spec fn verdict(self, pts: Option<u64>) -> Verdict {
        match pts {
            Some(t) => if t >= self.stop_ns {
                if self.ended {
                    Verdict::Drop
                } else {
                    Verdict::DropAndEnd
                }
            } else if t < self.start_ns {
                Verdict::Drop
            } else {
                Verdict::Pass
            },
            None => Verdict::Pass,
        }
    }

    /// The window after a buffer.
    pub open spec fn after(self, pts: Option<u64>) -> Trim {
        Trim { ended: self.ended || self.verdict(pts) == Verdict::DropAndEnd, ..self }
    }

    /// Opens the window from `start_ns` to `stop_ns`.
    pub fn new(start_ns: u64, stop_ns: u64) -> (r: Trim)
        ensures
            r == (Trim { start_ns, stop_ns, ended: false }),
    {
        Trim { start_ns, stop_ns, ended: false }
    }

    /// Decides on a buffer.
    pub fn see(&mut self, pts: Option<u64>) -> (r: Verdict)
        ensures
            r == old(self).verdict(pts),
            *final(self) == old(self).after(pts),
    {
        match pts {
            Some(t) => {
                if t >= self.stop_ns {
                    if self.ended {
                        Verdict::Drop
                    } else {
                        self.ended = true;
                        Verdict::DropAndEnd
                    }
                } else if t < self.start_ns {
                    Verdict::Drop
                } else {
                    Verdict::Pass
                }
            },
            None => Verdict::Pass,
        }
    }
}

/// The window after some buffers.
pub open spec fn trimmed_by(t: Trim, seen: Seq<Option<u64>>) -> Trim
    decreases seen.len(),
{
    if seen.len() == 0 {
        t
    } else {
        trimmed_by(t, seen.drop_last()).after(seen.last())
    }
}

proof fn lemma_window_stays(t: Trim, seen: Seq<Option<u64>>)
    ensures
        trimmed_by(t, seen).start_ns == t.start_ns,
        trimmed_by(t, seen).stop_ns == t.stop_ns,
        t.ended ==> trimmed_by(t, seen).ended,
    decreases seen.len(),
{
    if seen.len() > 0 {
        lemma_window_stays(t, seen.drop_last());
    }
}

/// Of the buffers with a time, those and only those inside the window are passed on, whatever
/// came before.
pub proof fn law_only_the_window_passes(t: Trim, seen: Seq<Option<u64>>, pts: u64)
    ensures
        trimmed_by(t, seen).verdict(Some(pts)) == Verdict::Pass <==> t.start_ns <= pts < t.stop_ns,
{
    lemma_window_stays(t, seen);
}

/// The end is sent once at most: after the stream has been ended it is not ended again.
pub proof fn law_ends_once(t: Trim, seen: Seq<Option<u64>>, pts: Option<u64>)
    requires
        t.ended,
    ensures
        trimmed_by(t, seen).verdict(pts) != Verdict::DropAndEnd,
{
    lemma_window_stays(t, seen);
}

/// The end is sent as soon as a buffer at or past the end of the window is met.
pub proof fn law_ends_at_stop(t: Trim, pts: u64)
    requires
        !t.ended,
        pts >= t.stop_ns,
    ensures
        t.verdict(Some(pts)) == Verdict::DropAndEnd,
        t.after(Some(pts)).ended,
{
}

/// A message of a pipeline, as far as a clip looks at it.
pub enum BusMessage {
    /// A failure, with its text and what is known besides.
    Error { error: String, debug: Option<String> },
    /// A stream could not be passed on; with the reason, where one was given.
    BridgeError(Option<String>),
    /// All is written.
    Eos,
    /// Anything else.
    Other,
}

/// How a failure is reported.
pub open spec fn failure_text(error: Seq<char>, debug: Option<String>) -> Seq<char> {
    error + " ("@ + match debug {
        Some(d) => d@,
        None => seq![],
    } + ")"@
}

fn report(error: &str, debug: &Option<String>) -> (r: String)
    ensures
        r@ == failure_text(error@, *debug),
{
    let mut r = concat2(error, " (");
    if let Some(d) = debug {
        r.append(d.as_str());
    }
    r.append(")");
    assert(r@ =~= failure_text(error@, *debug));
    r
}

/// The first failure among messages, from position `from` on.
pub open spec fn first_error(messages: Seq<BusMessage>, from: int) -> Option<Seq<char>>
    decreases messages.len() - from,
{
    if from < 0 || from >= messages.len() {
        None
    } else {
        match messages[from] {
            BusMessage::Error { error, debug } => Some(failure_text(error@, debug)),
            _ => first_error(messages, from + 1),
        }
    }
}

/// Finds the first failure among messages.
pub fn drain_error(messages: &[BusMessage]) -> (r: Option<String>)
    ensures
        match r {
            Some(text) => first_error(messages@, 0) == Some(text@),
            None => first_error(messages@, 0) is None,
        },
{
    let mut i: usize = 0;
    while i < messages.len()
        invariant
            i <= messages@.len(),
            first_error(messages@, 0) == first_error(messages@, i as int),
        decreases messages@.len() - i,
    {
        if let BusMessage::Error { error, debug } = &messages[i] {
            return Some(report(error.as_str(), debug));
        }
        i += 1;
    }
    None
}

/// Decides whether decoding has begun: it could be prepared, it came to its first picture, and
/// there is a track. `detail` is the first failure that was reported.
pub fn check_preroll(
    paused: bool,
    prerolled: bool,
    streams: u32,
    detail: Option<String>,
) -> (r: Result<(), ClipError>)
    ensures
        r == if !paused {
            Err::<(), ClipError>(ClipError::NotPaused(detail))
        } else if !prerolled {
            Err(ClipError::NoPreroll(detail))
        } else if streams == 0 {
            Err(ClipError::NoReadableTrack)
        } else {
            Ok(())
        },
{
    if !paused {
        Err(ClipError::NotPaused(detail))
    } else if !prerolled {
        Err(ClipError::NoPreroll(detail))
    } else if streams == 0 {
        Err(ClipError::NoReadableTrack)
    } else {
        Ok(())
    }
}

/// The failure that a message of the decoding side is.
pub open spec fn decoding_failure(message: BusMessage) -> Option<Seq<char>> {
    match message {
        BusMessage::Error { error, debug } => Some("décodage : "@ + failure_text(error@, debug)),
        BusMessage::BridgeError(detail) => Some(
            match detail {
                Some(d) => d@,
                None => seq![],
            },
        ),
        _ => None,
    }
}

/// The first failure of the decoding side, from position `from` on.
pub open spec fn first_decoding_failure(messages: Seq<BusMessage>, from: int) -> Option<Seq<char>>
    decreases messages.len() - from,
{
    if from < 0 || from >= messages.len() {
        None
    } else if decoding_failure(messages[from]) is Some {
        decoding_failure(messages[from])
    } else {
        first_decoding_failure(messages, from + 1)
    }
}

/// How the clip stands: on its way, written, or failed with this text.
pub enum Progress {
    Running,
    Done,
    Failed(ClipError),
}

/// What one round over the messages says: a failure of the decoding side comes first, then what
/// the writing side says.
pub open spec fn progress_text(
    decoding: Seq<BusMessage>,
    writing: Option<BusMessage>,
) -> Option<Option<Seq<char>>> {
    match first_decoding_failure(decoding, 0) {
        Some(text) => Some(Some(text)),
        None => match writing {
            Some(BusMessage::Eos) => Some(None),
            Some(BusMessage::Error { error, debug }) => Some(
                Some("muxage : "@ + failure_text(error@, debug)),
            ),
            _ => None,
        },
    }
}

/// Decides how the clip stands after one round over the messages of both sides.
pub fn wait_for_completion(decoding: &[BusMessage], writing: &Option<BusMessage>) -> (r: Progress)
    ensures
        match r {
            Progress::Running => progress_text(decoding@, *writing) is None,
            Progress::Done => progress_text(decoding@, *writing) == Some(None::<Seq<char>>),
            Progress::Failed(e) => progress_text(decoding@, *writing) == Some(Some(e.text())),
        },
{
    let mut i: usize = 0;
    while i < decoding.len()
        invariant
            i <= decoding@.len(),
            first_decoding_failure(decoding@, 0) == first_decoding_failure(decoding@, i as int),
        decreases decoding@.len() - i,
    {
        match &decoding[i] {
            BusMessage::Error { error, debug } => {
                return Progress::Failed(ClipError::Decoding(report(error.as_str(), debug)));
            },
            BusMessage::BridgeError(detail) => {
                let text = match detail {
                    Some(d) => d.clone(),
                    None => String::new(),
                };
                assert(text@ =~= match *detail {
                    Some(d) => d@,
                    None => seq![],
                });
                return Progress::Failed(ClipError::Bridge(text));
            },
            _ => {},
        }
        i += 1;
    }
    match writing {
        Some(BusMessage::Eos) => Progress::Done,
        Some(BusMessage::Error { error, debug }) => Progress::Failed(
            ClipError::Muxing(report(error.as_str(), debug)),
        ),
        _ => Progress::Running,
    }
}

/// A clip that is ready to be cut.
pub struct ClipPlan {
    /// The name of the file to be written.
    pub output_name: String,
    /// Whether decoding is to enter the file at the start of the window.
    pub seek: bool,
}

/// Plans a clip: the file must be there and the length a positive number of seconds. A file that
/// is still being written (`live`) has no index yet: it is read from its beginning, and what lies
/// outside the window is left out.
pub fn plan_clip(
    input_name: &str,
    is_file: bool,
    valid_duration: bool,
    start_ns: u64,
    stop_ns: u64,
    height: Option<u32>,
    live: bool,
) -> (r: Result<ClipPlan, ClipError>)
    ensures
        match r {
            Ok(plan) => is_file && valid_duration && plan.output_name@ == clip_of(
                input_name@,
                start_ns as nat,
                stop_ns as nat,
                height,
            ) && plan.seek == !live,
            Err(ClipError::MissingFile(name)) => !is_file && name@ == input_name@,
            Err(ClipError::InvalidDuration) => is_file && !valid_duration,
            Err(_) => false,
        },
{
    if !is_file {
        Err(ClipError::MissingFile(input_name.to_owned()))
    } else if !valid_duration {
        Err(ClipError::InvalidDuration)
    } else {
        let output_name = name_clip(input_name, start_ns, stop_ns, height);
        Ok(ClipPlan { output_name, seek: !live })
    }
}

/// The length of a file in nanoseconds: known only where decoding could begin.
pub fn media_duration(prerolled: bool, queried: Option<u64>) -> (r: Result<u64, ClipError>)
    ensures
        match r {
            Ok(ns) => prerolled && queried == Some(ns),
            Err(e) => e == ClipError::UnknownDuration && (!prerolled || queried is None),
        },
{
    match (prerolled, queried) {
        (true, Some(ns)) => Ok(ns),
        _ => Err(ClipError::UnknownDuration),
    }
}

/// A window of time in milliseconds from the start of a recording.
#[derive(Debug, Clone, Copy, PartialEq, Eq, Structural)]
pub struct Window {
    pub start_ms: u64,
    pub duration_ms: u64,
}

/// Milliseconds between two times; 0 where they are the wrong way round.
pub open spec fn elapsed(started_at_ms: u64, at_ms: u64) -> u64 {
    taken_off(at_ms, started_at_ms)
}

/// Counts the milliseconds between two times; 0 where they are the wrong way round.
pub fn elapsed_ms(started_at_ms: u64, at_ms: u64) -> (r: u64)
    ensures
        r == elapsed(started_at_ms, at_ms),
{
    at_ms.saturating_sub(started_at_ms)
}

/// Where a live clip begins: `back_ms` before it was asked for, but not before the recording.
pub open spec fn live_start(started_at_ms: u64, press_ms: u64, back_ms: u64) -> u64 {
    taken_off(elapsed(started_at_ms, press_ms), back_ms)
}

/// Where a live clip ends: a little before the live edge.
pub open spec fn live_stop(started_at_ms: u64, edge_ms: u64) -> u64 {
    taken_off(elapsed(started_at_ms, edge_ms), LIVE_CLIP_MARGIN_MS)
}

/// Lays the window of a live clip: the last `back_ms` before it was asked for at `press_ms`, up
/// to a little before the live edge at `edge_ms`. Refused where that is too short.
pub fn live_window(started_at_ms: u64, press_ms: u64, edge_ms: u64, back_ms: u64) -> (r: Result<
    Window,
    ClipError,
>)
    ensures
        match r {
            Ok(w) => {
                &&& w.start_ms == live_start(started_at_ms, press_ms, back_ms)
                &&& w.start_ms + w.duration_ms == live_stop(started_at_ms, edge_ms)
                &&& w.duration_ms >= LIVE_CLIP_MIN_MS
            },
            Err(e) => e == ClipError::TooShort && live_stop(started_at_ms, edge_ms) - live_start(
                started_at_ms,
                press_ms,
                back_ms,
            ) < LIVE_CLIP_MIN_MS,
        },
{
    let start: u64 = elapsed_ms(started_at_ms, press_ms).saturating_sub(back_ms);
    let stop: u64 = elapsed_ms(started_at_ms, edge_ms).saturating_sub(LIVE_CLIP_MARGIN_MS);
    if stop < start || stop - start < LIVE_CLIP_MIN_MS {
        Err(ClipError::TooShort)
    } else {
        Ok(Window { start_ms: start, duration_ms: stop - start })
    }
}

/// A live clip never reaches into the margin before the live edge, nor before the recording: what
/// it holds of the time after it was asked for is that time less the margin.
pub proof fn law_live_clip_stays_inside(
    started_at_ms: u64,
    press_ms: u64,
    edge_ms: u64,
    back_ms: u64,
)
    requires
        started_at_ms <= press_ms <= edge_ms,
        edge_ms - started_at_ms >= LIVE_CLIP_MARGIN_MS,
    ensures
        started_at_ms + live_stop(started_at_ms, edge_ms) == edge_ms - LIVE_CLIP_MARGIN_MS,
        started_at_ms + live_stop(started_at_ms, edge_ms) - press_ms == (edge_ms - press_ms)
            - LIVE_CLIP_MARGIN_MS,
        back_ms <= press_ms - started_at_ms ==> started_at_ms + live_start(
            started_at_ms,
            press_ms,
            back_ms,
        ) == press_ms - back_ms,
{
}

/// What is being recorded, for a live clip.
pub struct LiveSource {
    /// The name of the file.
    pub name: String,
    pub started_at_ms: u64,
}

/// Finds what is being recorded in the status; refused where nothing is, or where it has no name.
pub fn live_source(
    platform: Platform,
    file: Option<&str>,
    started_at_ms: Option<u64>,
) -> (r: Result<LiveSource, ClipError>)
    ensures
        match (file, started_at_ms) {
            (Some(path), Some(t)) => match (file_name_on(path@, platform), r) {
                (Some(name), Ok(s)) => s.name@ == name && s.started_at_ms == t,
                (None, Err(e)) => e == ClipError::UnreadableName,
                _ => false,
            },
            _ => r == Err::<LiveSource, ClipError>(ClipError::NothingLive),
        },
{
    match (file, started_at_ms) {
        (Some(path), Some(started_at_ms)) => {
            let chars = chars_of(path);
            match find_file_name_on(chars.as_slice(), platform) {
                Some((from, to)) => {
                    let name = string_of(
                        vstd::slice::slice_subrange(chars.as_slice(), from, to),
                    );
                    Ok(LiveSource { name, started_at_ms })
                },
                None => Err(ClipError::UnreadableName),
            }
        },
        _ => Err(ClipError::NothingLive),
    }
}

/// The directory in which a live clip is cut: that of the file being recorded, or else the output
/// directory.
pub open spec fn live_dir(platform: Platform, file: Seq<char>, output_dir: Seq<char>) -> Seq<char> {
    match parent_on(file, platform) {
        Some(dir) => dir,
        None => output_dir,
    }
}

/// Finds the directory in which a live clip is cut.
pub fn live_directory(platform: Platform, file: &str, output_dir: &str) -> (r: String)
    ensures
        r@ == live_dir(platform, file@, output_dir@),
{
    match parent(file, platform) {
        Some(dir) => dir,
        None => output_dir.to_owned(),
    }
}

} // verus!
