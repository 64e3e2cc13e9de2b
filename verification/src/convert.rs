//! Conversion of a Matroska recording to MP4 (H.264 and AAC): what the probe of the input says,
//! what is done to its tracks, and the `gst-launch-1.0` arguments that do it.
//!
//! The picture is copied where its resolution stays, and decoded, scaled and encoded again where
//! it shrinks; it never grows. Every Opus track becomes AAC. The input file is kept.

use vstd::prelude::*;
use vstd::utf8::{decode_utf8, valid_utf8};

use crate::config::{blank, is_blank};
use crate::encoder::VideoEncoder;
use crate::lossy::{lossy_text, read_text};
use crate::names::{stem, stem_or_self};
use crate::recorder::{even_below, round_to_even, size_caps, size_caps_token};
use crate::scan::{
    drop_prefixes, find, first_match, lemma_first_match, lines, occurs_at, slice_views,
    split_lines, strip_prefixes,
};
use crate::text::{
    chars_of, concat2, count_span, decimal, is_digit, is_white_space, law_decimal_reads_back,
    lemma_decimal_digits, lemma_span_is, parse_u32, parsed, push_chars, push_decimal, skip, span,
    take, with_number, Class,
};
use crate::text_laws::{law_first_match, law_strip_prefixes};
use crate::tokens::{push_all, push_owned, push_token, push_tokens, views};

verus! {

/// The number of audio tracks that are looked for at most.
pub const MAX_AUDIO_TRACKS: u32 = 16;

/// The rate of the AAC tracks, in kilobits per second.
pub const AAC_KBPS: u32 = 160;

/// What is known of an input file.
#[derive(Clone, Copy, Debug, PartialEq, Eq)]
pub struct Probe {
    pub has_video: bool,
    pub video_dims: Option<(u32, u32)>,
    pub audio_tracks: u32,
}

/// Why a conversion fails.
#[derive(Debug, PartialEq, Eq)]
pub enum ConvertError {
    /// The input file, named here, is not there.
    MissingFile(String),
    /// No track can be read.
    NoReadableTrack,
    /// No AAC encoder is installed.
    NoAacEncoder,
    /// `gst-launch-1.0` failed; the end of what it said.
    Failed(String),
}

impl ConvertError {
    /// The text of the error.
    pub open spec fn text(self) -> Seq<char> {
        match self {
            ConvertError::MissingFile(name) => "fichier introuvable : "@ + name@,
            ConvertError::NoReadableTrack =>
                "aucune piste lisible (fichier non MKV ou corrompu ?)"@,
            ConvertError::NoAacEncoder => "aucun encodeur AAC disponible (voaacenc / avenc_aac)"@,
            ConvertError::Failed(detail) => "la conversion a échoué : "@ + detail@,
        }
    }

    /// Gives the text of the error.
    pub fn message(&self) -> (r: String)
        ensures
            r@ == self.text(),
    {
        match self {
            ConvertError::MissingFile(name) => concat2("fichier introuvable : ", name.as_str()),
            ConvertError::NoReadableTrack =>
                "aucune piste lisible (fichier non MKV ou corrompu ?)".to_owned(),
            ConvertError::NoAacEncoder =>
                "aucun encodeur AAC disponible (voaacenc / avenc_aac)".to_owned(),
            ConvertError::Failed(detail) => concat2("la conversion a échoué : ", detail.as_str()),
        }
    }
}

/// The start of a probe: a bounded read of the input, taken apart. The list of tracks stands at
/// the beginning of the file, so a few megabytes show them all.
pub open spec fn probe_source(input_name: Seq<char>) -> Seq<Seq<char>> {
    seq![
        "filesrc"@,
        "location="@ + input_name,
        "blocksize=65536"@,
        "num-buffers=64"@,
        "!"@,
        "matroskademux"@,
        "name=d"@,
    ]
}

/// Builds the start of a probe.
pub fn probe_src(input_name: &str) -> (r: Vec<String>)
    ensures
        views(r@) == probe_source(input_name@),
{
    let mut r: Vec<String> = Vec::new();
    push_token(&mut r, "filesrc");
    push_owned(&mut r, concat2("location=", input_name));
    push_tokens(
        &mut r,
        &["blocksize=65536", "num-buffers=64", "!", "matroskademux", "name=d"],
    );
    assert(views(r@) =~= probe_source(input_name@));
    r
}

/// The probe of the video track.
pub open spec fn video_probe(input_name: Seq<char>) -> Seq<Seq<char>> {
    seq!["-v"@] + probe_source(input_name) + seq!["d.video_0"@, "!"@, "fakesink"@]
}

/// Builds the arguments that probe the video track: they succeed where there is one, and print
/// its caps.
pub fn video_probe_args(input_name: &str) -> (r: Vec<String>)
    ensures
        views(r@) == video_probe(input_name@),
{
    let mut r: Vec<String> = Vec::new();
    push_token(&mut r, "-v");
    push_all(&mut r, probe_src(input_name).as_slice());
    push_tokens(&mut r, &["d.video_0", "!", "fakesink"]);
    assert(views(r@) =~= video_probe(input_name@));
    r
}

/// The probe of an audio track.
pub open spec fn audio_probe(input_name: Seq<char>, index: nat) -> Seq<Seq<char>> {
    probe_source(input_name) + seq!["d.audio_"@ + decimal(index), "!"@, "fakesink"@]
}

/// Builds the arguments that probe an audio track: they succeed where there is one.
pub fn audio_probe_args(input_name: &str, index: u32) -> (r: Vec<String>)
    ensures
        views(r@) == audio_probe(input_name@, index as nat),
{
    let mut r = probe_src(input_name);
    push_owned(&mut r, with_number("d.audio_", index as u64));
    push_tokens(&mut r, &["!", "fakesink"]);
    assert(views(r@) =~= audio_probe(input_name@, index as nat));
    r
}

/// The search for audio tracks: one probe after the other, until one fails or enough are found.
#[derive(Clone, Copy, Debug, PartialEq, Eq, Structural)]
pub struct TrackSearch {
    pub found: u32,
    pub over: bool,
}

impl TrackSearch {
    /// Whether the search is in a state that can come about.
    pub open spec fn wf(self) -> bool {
        self.found <= MAX_AUDIO_TRACKS && (self.found == MAX_AUDIO_TRACKS ==> self.over)
    }

    /// Begins the search.
    pub fn new() -> (r: TrackSearch)
        ensures
            r.wf(),
            r.found == 0,
            !r.over,
    {
        TrackSearch { found: 0, over: false }
    }

    /// The next probe to run, where the search goes on.
    pub fn next(&self, input_name: &str) -> (r: Option<Vec<String>>)
        requires
            self.wf(),
        ensures
            r is Some <==> !self.over,
            r matches Some(args) ==> views(args@) == audio_probe(input_name@, self.found as nat),
    {
        if self.over {
            None
        } else {
            Some(audio_probe_args(input_name, self.found))
        }
    }

    /// The search after the probe that was due succeeded or not.
    pub open spec fn after(self, ok: bool) -> TrackSearch {
        if self.over {
            self
        } else if ok {
            TrackSearch {
                found: (self.found + 1) as u32,
                over: self.found + 1 == MAX_AUDIO_TRACKS,
            }
        } else {
            TrackSearch { found: self.found, over: true }
        }
    }

    /// Takes in whether the probe that was due succeeded.
    pub fn answer(&mut self, ok: bool)
        requires
            old(self).wf(),
        ensures
            final(self).wf(),
            *final(self) == old(self).after(ok),
    {
        if !self.over {
            if ok {
                self.found = self.found + 1;
                if self.found == MAX_AUDIO_TRACKS {
                    self.over = true;
                }
            } else {
                self.over = true;
            }
        }
    }
}

/// The number that follows the first `key` in `text`, past any `(int)` type notes.
pub open spec fn dimension(text: Seq<char>, key: Seq<char>) -> Option<nat> {
    match first_match(text, key, 0) {
        Some(i) => {
            let rest = strip_prefixes(text.skip(i + key.len()), "(int)"@);
            parsed(rest.take(span(rest, Class::Digit) as int), u32::MAX as nat)
        },
        None => None,
    }
}

/// Reads the number that follows the first `key` in `text`.
fn grab(text: &[char], key: &str) -> (r: Option<u32>)
    ensures
        r is Some <==> dimension(text@, key@) is Some,
        r matches Some(n) ==> dimension(text@, key@) == Some(n as nat),
{
    let pat = chars_of(key);
    let len: usize = text.len();
    match find(text, pat.as_slice()) {
        Some(i) => {
            let note = chars_of("(int)");
            proof {
                reveal_strlit("(int)");
            }
            assert(i + pat@.len() <= len);
            let rest = drop_prefixes(skip(text, i + pat.len()), note.as_slice());
            let n: usize = count_span(rest, Class::Digit);
            parse_u32(take(rest, n))
        },
        None => None,
    }
}

/// The width and the height that a text of caps gives first.
pub open spec fn dimensions(text: Seq<char>) -> Option<(nat, nat)> {
    match (dimension(text, "width="@), dimension(text, "height="@)) {
        (Some(w), Some(h)) => Some((w, h)),
        _ => None,
    }
}

/// Reads the first width and height of verbose caps (`width=(int)1280`, …).
pub fn parse_dims(text: &str) -> (r: Option<(u32, u32)>)
    ensures
        r is Some <==> dimensions(text@) is Some,
        r matches Some((w, h)) ==> dimensions(text@) == Some((w as nat, h as nat)),
{
    let chars = chars_of(text);
    let w = grab(chars.as_slice(), "width=");
    let h = grab(chars.as_slice(), "height=");
    match (w, h) {
        (Some(w), Some(h)) => Some((w, h)),
        _ => None,
    }
}

/// Whether `dims` are the dimensions that `text` gives first.
pub open spec fn reads_as(text: Seq<char>, dims: Option<(u32, u32)>) -> bool {
    match dims {
        Some((w, h)) => dimensions(text) == Some((w as nat, h as nat)),
        None => dimensions(text) is None,
    }
}

/// Concludes the probe of an input: `video_ok` says whether the probe of the video track
/// succeeded, and `caps` is what it printed. An input without any track is refused.
pub fn finish_probe(video_ok: bool, caps: &str, audio_tracks: u32) -> (r: Result<
    Probe,
    ConvertError,
>)
    ensures
        r is Err <==> !video_ok && audio_tracks == 0,
        r matches Err(e) ==> e == ConvertError::NoReadableTrack,
        r matches Ok(p) ==> p.has_video == video_ok && p.audio_tracks == audio_tracks && (
        if video_ok {
            reads_as(caps@, p.video_dims)
        } else {
            p.video_dims is None
        }),
{
    if !video_ok && audio_tracks == 0 {
        return Err(ConvertError::NoReadableTrack);
    }
    let video_dims = if video_ok {
        parse_dims(caps)
    } else {
        None
    };
    Ok(Probe { has_video: video_ok, video_dims, audio_tracks })
}

/// Concludes the probe of an input, given the raw output of the probe of its video track.
pub fn read_probe(video_ok: bool, stdout: &[u8], audio_tracks: u32) -> (r: Result<
    Probe,
    ConvertError,
>)
    ensures
        r is Err <==> !video_ok && audio_tracks == 0,
        r matches Err(e) ==> e == ConvertError::NoReadableTrack,
        r matches Ok(p) ==> p.has_video == video_ok && p.audio_tracks == audio_tracks && (
        if video_ok {
            reads_as(lossy_text(stdout@), p.video_dims)
        } else {
            p.video_dims is None
        }),
        r matches Ok(p) ==> video_ok && valid_utf8(stdout@) ==> reads_as(
            decode_utf8(stdout@),
            p.video_dims,
        ),
{
    finish_probe(video_ok, read_text(stdout).as_str(), audio_tracks)
}

/// The width that keeps the ratio of `src_w` to `src_h` at the height `target_h`, rounded down to
/// an even number but no less than 2. Where the source has no height, or the width would be too
/// large for the type, `target_h` stands in for it.
pub open spec fn ratio_width(src_w: u32, src_h: u32, target_h: u32) -> u32 {
    if src_h == 0 {
        even_below(target_h)
    } else {
        let exact = (src_w * target_h) / (src_h as int);
        let w = even_below(
            if exact <= u32::MAX {
                exact as u32
            } else {
                target_h
            },
        );
        if w < 2 {
            2
        } else {
            w
        }
    }
}

/// Computes the width that keeps the ratio at a target height, rounded to even (H.264 in 4:2:0
/// needs it).
pub fn scaled_width(src_w: u32, src_h: u32, target_h: u32) -> (r: u32)
    ensures
        r == ratio_width(src_w, src_h, target_h),
{
    if src_h == 0 {
        return round_to_even(target_h);
    }
    proof {
        assert(src_w * target_h <= u32::MAX * u32::MAX) by (nonlinear_arith)
            requires
                src_w <= u32::MAX,
                target_h <= u32::MAX,
        ;
    }
    let exact: u64 = src_w as u64 * target_h as u64 / src_h as u64;
    let w: u32 = round_to_even(
        if exact <= u32::MAX as u64 {
            exact as u32
        } else {
            target_h
        },
    );
    if w < 2 {
        2
    } else {
        w
    }
}

/// The rate for a picture of the given height, in kilobits per second.
pub open spec fn rate_for_height(height: u32) -> u32 {
    if height <= 480 {
        2500
    } else if height <= 720 {
        5000
    } else if height <= 1080 {
        8000
    } else {
        12000
    }
}

/// Gives the rate at which a picture of the given height is encoded again.
pub fn rescale_bitrate_kbps(height: u32) -> (r: u32)
    ensures
        r == rate_for_height(height),
{
    if height <= 480 {
        2500
    } else if height <= 720 {
        5000
    } else if height <= 1080 {
        8000
    } else {
        12000
    }
}

/// A queue without limits. The demuxer has a single thread and the muxer waits for every track,
/// so a bounded queue on one track would block them all.
pub open spec fn big_queue() -> Seq<Seq<char>> {
    seq!["queue"@, "max-size-time=0"@, "max-size-bytes=0"@, "max-size-buffers=0"@]
}

/// Appends a queue without limits.
pub fn push_big_queue(args: &mut Vec<String>)
    ensures
        views(final(args)@) == views(old(args)@) + big_queue(),
{
    push_tokens(args, &["queue", "max-size-time=0", "max-size-bytes=0", "max-size-buffers=0"]);
    assert(views(args@) =~= views(old(args)@) + big_queue());
}

/// The AAC encoder that is used, going by which of the two candidates is installed.
pub open spec fn aac_element(available: Seq<bool>) -> Option<Seq<char>> {
    if available.len() > 0 && available[0] {
        Some("voaacenc"@)
    } else if available.len() > 1 && available[1] {
        Some("avenc_aac"@)
    } else {
        None
    }
}

/// Names the AAC encoders that are looked for, the preferred one first.
pub fn aac_candidates() -> (r: Vec<&'static str>)
    ensures
        r@.len() == 2,
        r@[0]@ == "voaacenc"@,
        r@[1]@ == "avenc_aac"@,
{
    vec!["voaacenc", "avenc_aac"]
}

/// Chooses the AAC encoder: the first candidate that is installed. `available` says of each
/// candidate, in order, whether its element is installed; those past its end count as not.
pub fn aac_encoder_tokens(available: &[bool], bitrate_kbps: u32) -> (r: Result<
    Vec<String>,
    ConvertError,
>)
    ensures
        r is Ok <==> aac_element(available@) is Some,
        r matches Err(e) ==> e == ConvertError::NoAacEncoder,
        r matches Ok(aac) ==> views(aac@) == seq![
            aac_element(available@).unwrap(),
            "bitrate="@ + decimal((bitrate_kbps * 1000) as nat),
        ],
{
    let element: &str = if available.len() > 0 && available[0] {
        "voaacenc"
    } else if available.len() > 1 && available[1] {
        "avenc_aac"
    } else {
        return Err(ConvertError::NoAacEncoder);
    };
    let mut aac: Vec<String> = Vec::new();
    push_token(&mut aac, element);
    push_owned(&mut aac, with_number("bitrate=", bitrate_kbps as u64 * 1000));
    assert(views(aac@) =~= seq![
        aac_element(available@).unwrap(),
        "bitrate="@ + decimal((bitrate_kbps * 1000) as nat),
    ]);
    Ok(aac)
}

/// What is done to the video track.
#[derive(Clone, Copy, Debug, PartialEq, Eq, Structural)]
pub enum VideoPlan {
    /// There is none: a recording of sound alone.
    Absent,
    /// The H.264 stream is copied as it is: fast and without loss.
    Copy,
    /// The picture is decoded, scaled and encoded again.
    Rescale { width: u32, height: u32, encoder: VideoEncoder, bitrate_kbps: u32 },
}

/// Whether the picture shrinks: there is one, its size is known, and a smaller height is asked
/// for.
pub open spec fn shrinks(probe: Probe, target_height: Option<u32>) -> bool {
    probe.has_video && match (target_height, probe.video_dims) {
        (Some(h), Some((_, sh))) => h < sh,
        _ => false,
    }
}

/// Tests whether the picture is encoded again; only then is an encoder looked for.
pub fn needs_reencode(probe: &Probe, target_height: Option<u32>) -> (r: bool)
    ensures
        r == shrinks(*probe, target_height),
{
    if !probe.has_video {
        return false;
    }
    match (target_height, probe.video_dims) {
        (Some(h), Some((_, sh))) => h < sh,
        _ => false,
    }
}

/// The plan for the video track.
pub open spec fn plan_for(
    probe: Probe,
    target_height: Option<u32>,
    encoder: VideoEncoder,
) -> VideoPlan {
    if !probe.has_video {
        VideoPlan::Absent
    } else if shrinks(probe, target_height) {
        let h = target_height.unwrap();
        let (w, sh) = probe.video_dims.unwrap();
        VideoPlan::Rescale {
            width: ratio_width(w, sh, h),
            height: h,
            encoder,
            bitrate_kbps: rate_for_height(h),
        }
    } else {
        VideoPlan::Copy
    }
}

/// Decides what is done to the video track. It shrinks only, and only where its size is known.
pub fn video_plan(
    probe: &Probe,
    target_height: Option<u32>,
    encoder: VideoEncoder,
) -> (r: VideoPlan)
    ensures
        r == plan_for(*probe, target_height, encoder),
{
    if !probe.has_video {
        return VideoPlan::Absent;
    }
    if let (Some(h), Some((w, sh))) = (target_height, probe.video_dims) {
        if h < sh {
            return VideoPlan::Rescale {
                width: scaled_width(w, sh, h),
                height: h,
                encoder,
                bitrate_kbps: rescale_bitrate_kbps(h),
            };
        }
    }
    VideoPlan::Copy
}

/// The video track from the demuxer to the muxer.
pub open spec fn video_track(plan: VideoPlan) -> Seq<Seq<char>> {
    match plan {
        VideoPlan::Absent => seq![],
        VideoPlan::Copy => seq!["d.video_0"@, "!"@] + big_queue() + seq![
            "!"@,
            "h264parse"@,
            "!"@,
            "mux."@,
        ],
        VideoPlan::Rescale { width, height, encoder, bitrate_kbps } => seq!["d.video_0"@, "!"@]
            + big_queue() + seq![
            "!"@,
            "h264parse"@,
            "!"@,
            "avdec_h264"@,
            "!"@,
            "videoconvert"@,
            "!"@,
            "videoscale"@,
            "!"@,
            size_caps(width, height),
            "!"@,
        ] + encoder.launch_tokens(bitrate_kbps as nat) + seq!["!"@, "h264parse"@, "!"@, "mux."@],
    }
}

/// Appends the video track from the demuxer to the muxer.
pub fn push_video_branch(args: &mut Vec<String>, plan: &VideoPlan)
    ensures
        views(final(args)@) == views(old(args)@) + video_track(*plan),
{
    match plan {
        VideoPlan::Absent => {},
        VideoPlan::Copy => {
            push_tokens(args, &["d.video_0", "!"]);
            push_big_queue(args);
            push_tokens(args, &["!", "h264parse", "!", "mux."]);
        },
        VideoPlan::Rescale { width, height, encoder, bitrate_kbps } => {
            push_tokens(args, &["d.video_0", "!"]);
            push_big_queue(args);
            push_tokens(
                args,
                &[
                    "!",
                    "h264parse",
                    "!",
                    "avdec_h264",
                    "!",
                    "videoconvert",
                    "!",
                    "videoscale",
                    "!",
                ],
            );
            push_owned(args, size_caps_token(*width, *height));
            push_token(args, "!");
            encoder.push_args(args, *bitrate_kbps);
            push_tokens(args, &["!", "h264parse", "!", "mux."]);
        },
    }
    assert(views(args@) =~= views(old(args)@) + video_track(*plan));
}

/// An audio track from the demuxer to the muxer, as AAC.
pub open spec fn audio_track(index: nat, aac: Seq<Seq<char>>) -> Seq<Seq<char>> {
    seq!["d.audio_"@ + decimal(index), "!"@] + big_queue() + seq![
        "!"@,
        "opusdec"@,
        "!"@,
        "audioconvert"@,
        "!"@,
        "audioresample"@,
        "!"@,
    ] + aac + seq!["!"@, "aacparse"@, "!"@, "mux."@]
}

/// Appends an audio track from the demuxer to the muxer, as AAC.
pub fn push_audio_branch(args: &mut Vec<String>, index: u32, aac: &[String])
    ensures
        views(final(args)@) == views(old(args)@) + audio_track(index as nat, views(aac@)),
{
    push_owned(args, with_number("d.audio_", index as u64));
    push_token(args, "!");
    push_big_queue(args);
    push_tokens(args, &["!", "opusdec", "!", "audioconvert", "!", "audioresample", "!"]);
    push_all(args, aac);
    push_tokens(args, &["!", "aacparse", "!", "mux."]);
    assert(views(args@) =~= views(old(args)@) + audio_track(index as nat, views(aac@)));
}

/// The first `count` audio tracks, in order.
pub open spec fn audio_tracks_part(count: nat, aac: Seq<Seq<char>>) -> Seq<Seq<char>>
    decreases count,
{
    if count == 0 {
        seq![]
    } else {
        audio_tracks_part((count - 1) as nat, aac) + audio_track((count - 1) as nat, aac)
    }
}

/// The whole argument list of a conversion.
pub open spec fn conversion_tokens(
    input_name: Seq<char>,
    output_name: Seq<char>,
    plan: VideoPlan,
    audio_tracks: nat,
    aac: Seq<Seq<char>>,
) -> Seq<Seq<char>> {
    seq![
        "-e"@,
        "filesrc"@,
        "location="@ + input_name,
        "!"@,
        "matroskademux"@,
        "name=d"@,
    ] + video_track(plan) + audio_tracks_part(audio_tracks, aac) + seq![
        "qtmux"@,
        "name=mux"@,
        "!"@,
        "filesink"@,
        "location="@ + output_name,
    ]
}

/// Builds the whole argument list of a conversion.
pub fn build_args(
    input_name: &str,
    output_name: &str,
    plan: &VideoPlan,
    audio_tracks: u32,
    aac: &[String],
) -> (r: Vec<String>)
    ensures
        views(r@) == conversion_tokens(
            input_name@,
            output_name@,
            *plan,
            audio_tracks as nat,
            views(aac@),
        ),
{
    let mut args: Vec<String> = Vec::new();
    push_tokens(&mut args, &["-e", "filesrc"]);
    push_owned(&mut args, concat2("location=", input_name));
    push_tokens(&mut args, &["!", "matroskademux", "name=d"]);
    push_video_branch(&mut args, plan);
    let ghost head = views(args@);
    assert(head =~= seq![
        "-e"@,
        "filesrc"@,
        "location="@ + input_name@,
        "!"@,
        "matroskademux"@,
        "name=d"@,
    ] + video_track(*plan));
    let mut i: u32 = 0;
    assert(head + audio_tracks_part(0, views(aac@)) =~= head);
    while i < audio_tracks
        invariant
            i <= audio_tracks,
            views(args@) == head + audio_tracks_part(i as nat, views(aac@)),
        decreases audio_tracks - i,
    {
        push_audio_branch(&mut args, i, aac);
        i += 1;
        assert(views(args@) =~= head + audio_tracks_part(i as nat, views(aac@)));
    }
    push_tokens(&mut args, &["qtmux", "name=mux", "!", "filesink"]);
    push_owned(&mut args, concat2("location=", output_name));
    assert(views(args@) =~= conversion_tokens(
        input_name@,
        output_name@,
        *plan,
        audio_tracks as nat,
        views(aac@),
    ));
    args
}

/// The name of the MP4 file that a conversion writes.
pub open spec fn mp4_name_of(input_name: Seq<char>, target_height: Option<u32>) -> Seq<char> {
    match target_height {
        Some(h) => stem_or_self(input_name) + "_"@ + decimal(h as nat) + "p.mp4"@,
        None => stem_or_self(input_name) + ".mp4"@,
    }
}

/// Names the MP4 file that a conversion writes.
pub fn mp4_name(input_name: &str, target_height: Option<u32>) -> (r: String)
    ensures
        r@ == mp4_name_of(input_name@, target_height),
{
    let mut r = stem(input_name).to_owned();
    match target_height {
        Some(h) => {
            r.append("_");
            push_decimal(&mut r, h as u64);
            r.append("p.mp4");
        },
        None => {
            r.append(".mp4");
        },
    }
    r
}

/// A conversion that is ready to run.
#[derive(Debug, PartialEq, Eq)]
pub struct Conversion {
    /// The name of the file that it writes.
    pub output_name: String,
    /// The arguments of `gst-launch-1.0`.
    pub args: Vec<String>,
}

/// Plans the conversion of `input_name` to MP4 in the same directory. `encoder` matters only
/// where the picture is encoded again.
pub fn to_mp4(
    input_name: &str,
    probe: &Probe,
    target_height: Option<u32>,
    encoder: VideoEncoder,
    aac: &[String],
) -> (r: Conversion)
    ensures
        r.output_name@ == mp4_name_of(input_name@, target_height),
        views(r.args@) == conversion_tokens(
            input_name@,
            mp4_name_of(input_name@, target_height),
            plan_for(*probe, target_height, encoder),
            probe.audio_tracks as nat,
            views(aac@),
        ),
{
    let output_name = mp4_name(input_name, target_height);
    let plan = video_plan(probe, target_height, encoder);
    let args = build_args(input_name, output_name.as_str(), &plan, probe.audio_tracks, aac);
    Conversion { output_name, args }
}

/// The lines that hold more than white space.
pub open spec fn meaningful_lines(all: Seq<Seq<char>>) -> Seq<Seq<char>>
    decreases all.len(),
{
    if all.len() == 0 {
        seq![]
    } else if blank(all.last()) {
        meaningful_lines(all.drop_last())
    } else {
        meaningful_lines(all.drop_last()).push(all.last())
    }
}

/// The last two lines of `kept`, joined; fewer where there are fewer.
pub open spec fn tail_of(kept: Seq<Seq<char>>) -> Seq<char> {
    if kept.len() == 0 {
        seq![]
    } else if kept.len() == 1 {
        kept[0]
    } else {
        kept[kept.len() - 2] + " — "@ + kept.last()
    }
}

/// Gives the end of what a failed conversion said: its last two lines that are not blank.
pub fn failure_detail(stderr: &str) -> (r: String)
    ensures
        r@ == tail_of(meaningful_lines(lines(stderr@))),
{
    let chars = chars_of(stderr);
    let all = split_lines(chars.as_slice());
    let ghost every = lines(stderr@);
    let mut kept: Vec<&[char]> = Vec::new();
    let mut i: usize = 0;
    assert(slice_views(kept@) =~= meaningful_lines(every.take(0)));
    while i < all.len()
        invariant
            i <= all@.len(),
            slice_views(all@) == every,
            slice_views(kept@) == meaningful_lines(every.take(i as int)),
        decreases all@.len() - i,
    {
        let line = all[i];
        let ghost before = kept@;
        assert(line@ == every[i as int]);
        if !is_blank(line) {
            kept.push(line);
            assert(slice_views(kept@) =~= slice_views(before).push(line@));
        }
        i += 1;
        assert(every.take(i as int).drop_last() =~= every.take(i - 1));
    }
    assert(every.take(i as int) =~= every);
    let mut r = String::new();
    let n: usize = kept.len();
    let ghost texts = slice_views(kept@);
    if n > 1 {
        push_chars(&mut r, kept[n - 2]);
        r.append(" — ");
        assert(texts[n - 2] == kept@[n - 2]@);
    }
    if n > 0 {
        push_chars(&mut r, kept[n - 1]);
        assert(texts[n - 1] == kept@[n - 1]@);
    }
    assert(r@ =~= tail_of(texts));
    r
}

/// Checks that the input is there.
pub fn check_input(input_name: &str, is_file: bool) -> (r: Result<(), ConvertError>)
    ensures
        match r {
            Ok(_) => is_file,
            Err(ConvertError::MissingFile(name)) => !is_file && name@ == input_name@,
            Err(_) => false,
        },
{
    if is_file {
        Ok(())
    } else {
        Err(ConvertError::MissingFile(input_name.to_owned()))
    }
}

/// Concludes a conversion: gives the name of the file it wrote, or the end of what it said.
pub fn conclude(success: bool, stderr: &str, output_name: String) -> (r: Result<
    String,
    ConvertError,
>)
    ensures
        match r {
            Ok(name) => success && name == output_name,
            Err(ConvertError::Failed(detail)) => !success && detail@ == tail_of(
                meaningful_lines(lines(stderr@)),
            ),
            Err(_) => false,
        },
{
    if success {
        Ok(output_name)
    } else {
        Err(ConvertError::Failed(failure_detail(stderr)))
    }
}

/// Concludes a conversion, given the raw output of its errors.
pub fn finish(success: bool, stderr: &[u8], output_name: String) -> (r: Result<
    String,
    ConvertError,
>)
    ensures
        match r {
            Ok(name) => success && name == output_name,
            Err(ConvertError::Failed(detail)) => !success && detail@ == tail_of(
                meaningful_lines(lines(lossy_text(stderr@))),
            ) && (valid_utf8(stderr@) ==> detail@ == tail_of(
                meaningful_lines(lines(decode_utf8(stderr@))),
            )),
            Err(_) => false,
        },
{
    conclude(success, read_text(stderr).as_str(), output_name)
}

/// A number is read where it follows the first `key`, with or without its type note.
pub proof fn law_dimension_is_read(
    before: Seq<char>,
    key: Seq<char>,
    note: Seq<char>,
    n: u32,
    after: Seq<char>,
)
    requires
        note == "(int)"@ || note.len() == 0,
        after.len() > 0 ==> !('0' <= after[0] <= '9'),
        forall|j: int|
            0 <= j < before.len() ==> !#[trigger] occurs_at(
                before + key + note + decimal(n as nat) + after,
                key,
                j,
            ),
    ensures
        dimension(before + key + note + decimal(n as nat) + after, key) == Some(n as nat),
{
    reveal_strlit("(int)");
    let pat = "(int)"@;
    let digits = decimal(n as nat);
    let text = before + key + note + digits + after;
    let at = before.len() as int;
    assert(text.subrange(at, at + key.len()) =~= key);
    assert(occurs_at(text, key, at));
    law_first_match(text, key, at);
    let tail = digits + after;
    lemma_decimal_digits(n as nat);
    assert(tail[0] == digits[0]);
    assert(is_digit(digits[0]));
    assert(pat[0] == '(');
    if pat.is_prefix_of(tail) {
        assert(tail.subrange(0, pat.len() as int)[0] == tail[0]);
    }
    law_strip_prefixes(tail, pat);
    assert(text.skip(at + key.len()) =~= note + tail);
    if note.len() == 0 {
        assert(note + tail =~= tail);
    }
    let rest = strip_prefixes(text.skip(at + key.len()), pat);
    assert(rest == tail);
    assert forall|i: int| 0 <= i < digits.len() implies Class::Digit.has(#[trigger] tail[i]) by {
        assert(tail[i] == digits[i]);
        assert(is_digit(digits[i]));
    }
    if after.len() > 0 {
        assert(tail[digits.len() as int] == after[0]);
    }
    lemma_span_is(tail, Class::Digit, digits.len() as int);
    assert(tail.take(digits.len() as int) =~= digits);
    law_decimal_reads_back(n as nat, u32::MAX as nat);
}

/// A size is known where both the width and the height are.
pub proof fn law_both_dimensions(text: Seq<char>, w: nat, h: nat)
    ensures
        dimensions(text) == Some((w, h)) <==> dimension(text, "width="@) == Some(w) && dimension(
            text,
            "height="@,
        ) == Some(h),
        dimensions(text) is Some <==> dimension(text, "width="@) is Some && dimension(
            text,
            "height="@,
        ) is Some,
        (forall|j: int| !#[trigger] occurs_at(text, "width="@, j)) ==> dimensions(text) is None,
        (forall|j: int| !#[trigger] occurs_at(text, "height="@, j)) ==> dimensions(text) is None,
{
    lemma_first_match(text, "width="@, 0);
    lemma_first_match(text, "height="@, 0);
}

/// Lines that hold nothing but white space are left out, and the others kept in order.
pub proof fn law_blank_lines_are_left_out(all: Seq<Seq<char>>, line: Seq<char>)
    ensures
        (forall|i: int| 0 <= i < line.len() ==> is_white_space(#[trigger] line[i]))
            ==> meaningful_lines(all.push(line)) == meaningful_lines(all),
        (exists|i: int| 0 <= i < line.len() && !is_white_space(#[trigger] line[i]))
            ==> meaningful_lines(all.push(line)) == meaningful_lines(all).push(line),
        meaningful_lines(seq![]) == Seq::<Seq<char>>::empty(),
{
    assert(all.push(line).drop_last() =~= all);
    assert(all.push(line).last() == line);
}

/// What a failed conversion said ends in its last two lines, parted by a dash; in one where there
/// is but one, and in none where there is none.
pub proof fn law_last_two_lines_are_told(kept: Seq<Seq<char>>, a: Seq<char>, b: Seq<char>)
    ensures
        tail_of(kept.push(a).push(b)) == a + " — "@ + b,
        tail_of(seq![a]) == a,
        tail_of(seq![]) == Seq::<char>::empty(),
{
}

/// A width keeps the ratio to the height: at the new height it is within two pixels of what the
/// ratio asks for, and even. It grows with the width of the source.
pub proof fn law_width_keeps_the_ratio(w: u32, h: u32, target: u32)
    requires
        h > 0,
        w * target < h * 0x1_0000_0000,
    ensures
        ratio_width(w, h, target) % 2 == 0,
        w * target >= 2 * h ==> ratio_width(w, h, target) * h <= w * target < (ratio_width(
            w,
            h,
            target,
        ) + 2) * h,
        w * target < 2 * h ==> ratio_width(w, h, target) == 2,
{
    let exact = (w * target) / (h as int);
    let p = w * target;
    let d = h as int;
    assert(p >= 0) by (nonlinear_arith)
        requires
            p == w * target,
    ;
    assert(exact * d <= p < (exact + 1) * d && exact >= 0) by (nonlinear_arith)
        requires
            exact == p / d,
            d > 0,
            p >= 0,
    ;
    assert(exact <= u32::MAX) by (nonlinear_arith)
        requires
            exact * d <= p,
            p < d * 0x1_0000_0000,
            d > 0,
    ;
    let r = ratio_width(w, h, target) as int;
    if p >= 2 * d {
        assert(exact >= 2) by (nonlinear_arith)
            requires
                p < (exact + 1) * d,
                p >= 2 * d,
                d > 0,
        ;
        assert(r == exact - exact % 2);
        assert(r * d <= exact * d) by (nonlinear_arith)
            requires
                r <= exact,
                d > 0,
        ;
        assert((exact + 1) * d <= (r + 2) * d) by (nonlinear_arith)
            requires
                exact + 1 <= r + 2,
                d > 0,
        ;
    } else {
        assert(exact < 2) by (nonlinear_arith)
            requires
                exact * d <= p,
                p < 2 * d,
                d > 0,
        ;
    }
}

/// The dimensions that were read are those that the text gives, and none where it gives none.
pub proof fn law_dimensions_are_taken_over(text: Seq<char>, w: u32, h: u32)
    ensures
        reads_as(text, Some((w, h))) <==> dimensions(text) == Some((w as nat, h as nat)),
        reads_as(text, None) <==> dimensions(text) is None,
{
}

/// What went wrong is told in full at the end of the message.
pub proof fn law_details_are_told(detail: String)
    ensures
        detail@.is_suffix_of(ConvertError::MissingFile(detail).text()),
        detail@.is_suffix_of(ConvertError::Failed(detail).text()),
{
    let d = detail@;
    let a = ConvertError::MissingFile(detail).text();
    let b = ConvertError::Failed(detail).text();
    assert(a.subrange(a.len() - d.len(), a.len() as int) =~= d);
    assert(b.subrange(b.len() - d.len(), b.len() as int) =~= d);
}

} // verus!
