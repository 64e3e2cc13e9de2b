//! The recording pipeline: the arguments of the `gst-launch-1.0` process that muxes up to three
//! streams into a Matroska file (the Discord window in H.264, the sound of Discord in Opus, the
//! microphone in Opus), and the steps of its orderly stop.

use vstd::prelude::*;

use crate::config::Config;
use crate::encoder::VideoEncoder;
use crate::platform::Platform;
use crate::text::{concat2, decimal, push_decimal, with_number};
use crate::tokens::{push_all, push_owned, push_token, push_tokens, views};

verus! {

/// The file descriptor under which the child process finds the video stream of the portal.
pub const CHILD_VIDEO_FD: u32 = 3;

/// Where the picture comes from.
#[derive(Clone, Copy, Debug, PartialEq, Eq, Structural)]
pub enum VideoSpec {
    /// Direct capture of an X11 window. `width` and `height` are its size at the start, which
    /// pins the resolution of the pipeline: a later change of size is then absorbed by scaling.
    X11Window { xid: u64, framerate: u32, width: u32, height: u32 },
    /// The stream of the Wayland portal.
    Portal { node_id: u32 },
    /// A window through Windows Graphics Capture; its size is used as for X11.
    WinWindow { hwnd: u64, framerate: u32, width: u32, height: u32 },
}

/// The largest even number up to `n`.
pub open spec fn even_below(n: u32) -> u32 {
    (n - n % 2) as u32
}

/// Rounds down to an even number, as H.264 in 4:2:0 needs it.
pub fn round_to_even(n: u32) -> (r: u32)
    ensures
        r == even_below(n),
{
    n - n % 2
}

impl VideoSpec {
    /// The pinned resolution of the encoded picture, where the size of the source is known.
    pub open spec fn pinned(self) -> Option<(u32, u32)> {
        match self {
            VideoSpec::X11Window { width, height, .. } => Some(
                (even_below(width), even_below(height)),
            ),
            VideoSpec::Portal { .. } => None,
            VideoSpec::WinWindow { width, height, .. } => Some(
                (even_below(width), even_below(height)),
            ),
        }
    }

    /// Gives the pinned resolution of the encoded picture: even dimensions.
    pub fn pinned_size(&self) -> (r: Option<(u32, u32)>)
        ensures
            r == self.pinned(),
    {
        match self {
            VideoSpec::X11Window { width, height, .. } => Some(
                (round_to_even(*width), round_to_even(*height)),
            ),
            VideoSpec::Portal { .. } => None,
            VideoSpec::WinWindow { width, height, .. } => Some(
                (round_to_even(*width), round_to_even(*height)),
            ),
        }
    }
}

/// The source element for the sound of Discord (the other participants).
pub open spec fn discord_source(platform: Platform, target: u64) -> Seq<Seq<char>> {
    if platform == Platform::Windows {
        seq![
            "wasapi2src"@,
            "loopback=true"@,
            "loopback-mode=include-process-tree"@,
            "loopback-target-pid="@ + decimal(target as nat),
            "do-timestamp=true"@,
        ]
    } else {
        seq![
            "pipewiresrc"@,
            "target-object="@ + decimal(target as nat),
            "do-timestamp=true"@,
        ]
    }
}

/// Builds the source for the sound of Discord: the PipeWire stream with serial `target`, or on
/// Windows the loopback of the process tree of `target`.
pub fn discord_audio_tokens(platform: Platform, target: u64) -> (r: Vec<String>)
    ensures
        views(r@) == discord_source(platform, target),
{
    let mut r: Vec<String> = Vec::new();
    if platform == Platform::Windows {
        push_tokens(
            &mut r,
            &["wasapi2src", "loopback=true", "loopback-mode=include-process-tree"],
        );
        push_owned(&mut r, with_number("loopback-target-pid=", target));
    } else {
        push_token(&mut r, "pipewiresrc");
        push_owned(&mut r, with_number("target-object=", target));
    }
    push_token(&mut r, "do-timestamp=true");
    assert(views(r@) =~= discord_source(platform, target));
    r
}

/// The source element for the microphone.
pub open spec fn mic_source(platform: Platform, mic: Option<Seq<char>>) -> Seq<Seq<char>> {
    let element = if platform == Platform::Windows {
        "wasapi2src"@
    } else {
        "pipewiresrc"@
    };
    match mic {
        Some(id) => {
            let device = if platform == Platform::Windows {
                id
            } else {
                "target-object="@ + id
            };
            seq![element, device, "do-timestamp=true"@]
        },
        None => seq![element, "do-timestamp=true"@],
    }
}

/// Builds the source for the microphone: the chosen device, else the default of the system. The
/// identifier is in the form that the source element expects: a PipeWire serial, or on Windows
/// the whole `device="…"` token.
pub fn mic_audio_tokens(platform: Platform, mic: Option<&str>) -> (r: Vec<String>)
    ensures
        views(r@) == mic_source(
            platform,
            match mic {
                Some(id) => Some(id@),
                None => None,
            },
        ),
{
    let mut r: Vec<String> = Vec::new();
    if platform == Platform::Windows {
        push_token(&mut r, "wasapi2src");
        if let Some(id) = mic {
            push_token(&mut r, id);
        }
    } else {
        push_token(&mut r, "pipewiresrc");
        if let Some(id) = mic {
            push_owned(&mut r, concat2("target-object=", id));
        }
    }
    push_token(&mut r, "do-timestamp=true");
    assert(views(r@) =~= mic_source(
        platform,
        match mic {
            Some(id) => Some(id@),
            None => None,
        },
    ));
    r
}

/// An audio source and the filter that follows it; an empty filter is none.
pub struct AudioSource {
    pub src: Vec<String>,
    pub filter: Vec<String>,
}

/// The texts of an audio source.
pub struct SourceView {
    pub src: Seq<Seq<char>>,
    pub filter: Seq<Seq<char>>,
}

impl View for AudioSource {
    type V = SourceView;

    open spec fn view(&self) -> SourceView {
        SourceView { src: views(self.src@), filter: views(self.filter@) }
    }
}

/// The noise reduction for the microphone.
pub open spec fn denoise_filter() -> Seq<Seq<char>> {
    seq![
        "audio/x-raw,rate=48000"@,
        "!"@,
        "webrtcdsp"@,
        "echo-cancel=false"@,
        "noise-suppression=true"@,
        "noise-suppression-level=moderate"@,
        "high-pass-filter=true"@,
        "!"@,
        "audioconvert"@,
        "!"@,
        "audioresample"@,
    ]
}

/// Builds the noise reduction for the microphone. `webrtcdsp` takes only certain rates, so 48 kHz
/// is imposed before it; echo cancelling is off because it would need a probe.
pub fn denoise_tokens() -> (r: Vec<String>)
    ensures
        views(r@) == denoise_filter(),
{
    let mut r: Vec<String> = Vec::new();
    push_tokens(
        &mut r,
        &[
            "audio/x-raw,rate=48000",
            "!",
            "webrtcdsp",
            "echo-cancel=false",
            "noise-suppression=true",
            "noise-suppression-level=moderate",
            "high-pass-filter=true",
            "!",
            "audioconvert",
            "!",
            "audioresample",
        ],
    );
    assert(views(r@) =~= denoise_filter());
    r
}

/// A filter as it is inserted: after a link, or nothing where it is empty.
pub open spec fn inserted(filter: Seq<Seq<char>>) -> Seq<Seq<char>> {
    if filter.len() == 0 {
        seq![]
    } else {
        seq!["!"@] + filter
    }
}

/// Appends the filter of a source, where it has one.
pub fn push_filter(args: &mut Vec<String>, filter: &[String])
    ensures
        views(final(args)@) == views(old(args)@) + inserted(views(filter@)),
{
    if filter.len() > 0 {
        push_token(args, "!");
        push_all(args, filter);
    }
    assert(views(args@) =~= views(old(args)@) + inserted(views(filter@)));
}

/// A source up to the point where its sound is ready to be encoded or mixed.
pub open spec fn source_chain(source: SourceView) -> Seq<Seq<char>> {
    source.src + seq!["!"@, "queue"@, "!"@, "audioconvert"@, "!"@, "audioresample"@] + inserted(
        source.filter,
    )
}

/// Appends a source up to the point where its sound is ready to be encoded or mixed.
fn push_source_chain(args: &mut Vec<String>, source: &AudioSource)
    ensures
        views(final(args)@) == views(old(args)@) + source_chain(source@),
{
    push_all(args, source.src.as_slice());
    push_tokens(args, &["!", "queue", "!", "audioconvert", "!", "audioresample"]);
    push_filter(args, source.filter.as_slice());
    assert(views(args@) =~= views(old(args)@) + source_chain(source@));
}

/// The Opus encoder at `kbps` kilobits per second, and the way to the muxer.
pub open spec fn opus_to_mux(kbps: nat) -> Seq<Seq<char>> {
    seq![
        "opusenc"@,
        "bitrate="@ + decimal(kbps * 1000),
        "!"@,
        "queue"@,
        "!"@,
        "mux."@,
    ]
}

/// Appends the Opus encoder and the way to the muxer.
fn push_opus_to_mux(args: &mut Vec<String>, bitrate_kbps: u32)
    ensures
        views(final(args)@) == views(old(args)@) + opus_to_mux(bitrate_kbps as nat),
{
    push_token(args, "opusenc");
    push_owned(args, with_number("bitrate=", bitrate_kbps as u64 * 1000));
    push_tokens(args, &["!", "queue", "!", "mux."]);
    assert(views(args@) =~= views(old(args)@) + opus_to_mux(bitrate_kbps as nat));
}

/// A source with an encoder and a track of its own.
pub open spec fn separate_branch(source: SourceView, kbps: nat) -> Seq<Seq<char>> {
    source_chain(source) + seq!["!"@] + opus_to_mux(kbps)
}

/// Appends a source with an encoder and a track of its own.
pub fn audio_branch_separate(args: &mut Vec<String>, source: &AudioSource, bitrate_kbps: u32)
    ensures
        views(final(args)@) == views(old(args)@) + separate_branch(source@, bitrate_kbps as nat),
{
    push_source_chain(args, source);
    push_token(args, "!");
    push_opus_to_mux(args, bitrate_kbps);
    assert(views(args@) =~= views(old(args)@) + separate_branch(source@, bitrate_kbps as nat));
}

/// The texts of a list of audio sources.
pub open spec fn source_views(sources: Seq<AudioSource>) -> Seq<SourceView> {
    Seq::new(sources.len(), |i: int| sources[i]@)
}

/// Every source joined to the mixer, in order.
pub open spec fn mixer_inputs(sources: Seq<SourceView>) -> Seq<Seq<char>>
    decreases sources.len(),
{
    if sources.len() == 0 {
        seq![]
    } else {
        mixer_inputs(sources.drop_last()) + source_chain(sources.last()) + seq!["!"@, "amix."@]
    }
}

/// All sources mixed into one encoder and one track.
pub open spec fn mixed_branch(sources: Seq<SourceView>, kbps: nat) -> Seq<Seq<char>> {
    seq!["audiomixer"@, "name=amix"@, "!"@, "audioconvert"@, "!"@] + opus_to_mux(kbps)
        + mixer_inputs(sources)
}

/// Appends the mixer with its one encoder and track, then every source joined to it.
pub fn audio_branch_mixed(args: &mut Vec<String>, sources: &[AudioSource], bitrate_kbps: u32)
    ensures
        views(final(args)@) == views(old(args)@) + mixed_branch(
            source_views(sources@),
            bitrate_kbps as nat,
        ),
{
    push_tokens(args, &["audiomixer", "name=amix", "!", "audioconvert", "!"]);
    push_opus_to_mux(args, bitrate_kbps);
    let ghost head = views(args@);
    assert(head =~= views(old(args)@) + (seq![
        "audiomixer"@,
        "name=amix"@,
        "!"@,
        "audioconvert"@,
        "!"@,
    ] + opus_to_mux(bitrate_kbps as nat)));
    let ghost all = source_views(sources@);
    let mut i: usize = 0;
    assert(head + mixer_inputs(all.take(0)) =~= head);
    while i < sources.len()
        invariant
            i <= sources@.len(),
            all == source_views(sources@),
            views(args@) == head + mixer_inputs(all.take(i as int)),
        decreases sources@.len() - i,
    {
        let ghost before = views(args@);
        push_source_chain(args, &sources[i]);
        push_tokens(args, &["!", "amix."]);
        i += 1;
        proof {
            let done = all.take(i as int);
            assert(done.drop_last() =~= all.take(i - 1));
            assert(done.last() == sources@[i - 1]@);
            assert(views(args@) =~= head + mixer_inputs(done));
        }
    }
    assert(all.take(i as int) =~= all);
    assert(views(args@) =~= views(old(args)@) + mixed_branch(all, bitrate_kbps as nat));
}

/// The capture of the picture.
pub open spec fn video_source(spec: VideoSpec) -> Seq<Seq<char>> {
    match spec {
        VideoSpec::X11Window { xid, framerate, .. } => seq![
            "ximagesrc"@,
            "xid="@ + decimal(xid as nat),
            "use-damage=0"@,
            "!"@,
            "video/x-raw,framerate="@ + decimal(framerate as nat) + "/1"@,
        ],
        VideoSpec::Portal { node_id } => seq![
            "pipewiresrc"@,
            "fd="@ + decimal(CHILD_VIDEO_FD as nat),
            "path="@ + decimal(node_id as nat),
            "do-timestamp=true"@,
        ],
        VideoSpec::WinWindow { hwnd, framerate, .. } => seq![
            "d3d11screencapturesrc"@,
            "window-handle="@ + decimal(hwnd as nat),
            "show-cursor=true"@,
            "!"@,
            "video/x-raw,framerate="@ + decimal(framerate as nat) + "/1"@,
            "!"@,
            "d3d11download"@,
        ],
    }
}

/// The caps that fix a resolution with square pixels.
pub open spec fn size_caps(width: u32, height: u32) -> Seq<char> {
    "video/x-raw,width="@ + decimal(width as nat) + ",height="@ + decimal(height as nat)
        + ",pixel-aspect-ratio=1/1"@
}

/// Builds the caps that fix a resolution with square pixels. Square pixels are imposed because
/// rounding a size to even numbers changes its ratio, and the pixel ratio that scaling would
/// compute from that breaks the H.264 stream.
pub fn size_caps_token(width: u32, height: u32) -> (r: String)
    ensures
        r@ == size_caps(width, height),
{
    let mut r = with_number("video/x-raw,width=", width as u64);
    r.append(",height=");
    push_decimal(&mut r, height as u64);
    r.append(",pixel-aspect-ratio=1/1");
    r
}

/// The scaling to the pinned resolution, where there is one.
pub open spec fn pinning(spec: VideoSpec) -> Seq<Seq<char>> {
    match spec.pinned() {
        Some((width, height)) => seq!["videoscale"@, "!"@, size_caps(width, height), "!"@],
        None => seq![],
    }
}

/// The picture from its capture to the muxer.
pub open spec fn picture_branch(
    spec: VideoSpec,
    encoder: VideoEncoder,
    kbps: nat,
) -> Seq<Seq<char>> {
    video_source(spec) + seq!["!"@, "queue"@, "!"@, "videoconvert"@, "!"@] + pinning(spec)
        + encoder.launch_tokens(kbps) + seq!["!"@, "h264parse"@, "!"@, "queue"@, "!"@, "mux."@]
}

/// A frame rate as caps.
fn framerate_caps(framerate: u32) -> (r: String)
    ensures
        r@ == "video/x-raw,framerate="@ + decimal(framerate as nat) + "/1"@,
{
    let mut r = with_number("video/x-raw,framerate=", framerate as u64);
    r.append("/1");
    r
}

/// Appends the capture of the picture.
fn push_video_source(args: &mut Vec<String>, spec: &VideoSpec)
    ensures
        views(final(args)@) == views(old(args)@) + video_source(*spec),
{
    match spec {
        VideoSpec::X11Window { xid, framerate, .. } => {
            push_token(args, "ximagesrc");
            push_owned(args, with_number("xid=", *xid));
            push_tokens(args, &["use-damage=0", "!"]);
            push_owned(args, framerate_caps(*framerate));
        },
        VideoSpec::Portal { node_id } => {
            push_token(args, "pipewiresrc");
            push_owned(args, with_number("fd=", CHILD_VIDEO_FD as u64));
            push_owned(args, with_number("path=", *node_id as u64));
            push_token(args, "do-timestamp=true");
        },
        VideoSpec::WinWindow { hwnd, framerate, .. } => {
            push_token(args, "d3d11screencapturesrc");
            push_owned(args, with_number("window-handle=", *hwnd));
            push_tokens(args, &["show-cursor=true", "!"]);
            push_owned(args, framerate_caps(*framerate));
            push_tokens(args, &["!", "d3d11download"]);
        },
    }
    assert(views(args@) =~= views(old(args)@) + video_source(*spec));
}

/// Appends the picture from its capture to the muxer. Where the size of the source is known, the
/// resolution is pinned: a window that changes its size does not then break the encoder.
pub fn video_branch(
    args: &mut Vec<String>,
    spec: &VideoSpec,
    encoder: VideoEncoder,
    bitrate_kbps: u32,
)
    ensures
        views(final(args)@) == views(old(args)@) + picture_branch(
            *spec,
            encoder,
            bitrate_kbps as nat,
        ),
{
    push_video_source(args, spec);
    push_tokens(args, &["!", "queue", "!", "videoconvert", "!"]);
    if let Some((width, height)) = spec.pinned_size() {
        push_tokens(args, &["videoscale", "!"]);
        push_owned(args, size_caps_token(width, height));
        push_token(args, "!");
    }
    encoder.push_args(args, bitrate_kbps);
    push_tokens(args, &["!", "h264parse", "!", "queue", "!", "mux."]);
    assert(views(args@) =~= views(old(args)@) + picture_branch(
        *spec,
        encoder,
        bitrate_kbps as nat,
    ));
}

/// The muxer and the file it writes.
pub open spec fn muxer(file_name: Seq<char>) -> Seq<Seq<char>> {
    seq!["matroskamux"@, "name=mux"@, "!"@, "filesink"@, "location="@ + file_name]
}

/// Appends the muxer and the file it writes.
pub fn mux_tokens(args: &mut Vec<String>, file_name: &str)
    ensures
        views(final(args)@) == views(old(args)@) + muxer(file_name@),
{
    push_tokens(args, &["matroskamux", "name=mux", "!", "filesink"]);
    push_owned(args, concat2("location=", file_name));
    assert(views(args@) =~= views(old(args)@) + muxer(file_name@));
}

/// Why a recording cannot start.
#[derive(Clone, Copy, Debug, PartialEq, Eq, Structural)]
pub enum RecordError {
    /// There is neither sound nor a picture of Discord.
    NothingToRecord,
}

impl RecordError {
    /// The text of the error.
    pub open spec fn text(self) -> Seq<char> {
        "rien à enregistrer (aucun flux Discord trouvé)"@
    }

    /// Gives the text of the error.
    pub fn message(self) -> (r: &'static str)
        ensures
            r@ == self.text(),
    {
        "rien à enregistrer (aucun flux Discord trouvé)"
    }
}

/// A running recording, as far as the rest of the application looks at it.
#[derive(Debug, PartialEq, Eq)]
pub struct Recording {
    /// The path of the file.
    pub file: String,
    pub has_video: bool,
    pub encoder: VideoEncoder,
    /// Start, in milliseconds since the Unix epoch.
    pub started_at_ms: u64,
}

/// The choice of microphone in the settings, as text.
pub open spec fn mic_choice(cfg: Config) -> Option<Seq<char>> {
    match cfg.mic_target {
        Some(id) => Some(id@),
        None => None,
    }
}

/// The audio sources of a recording: the sound of Discord where it was found, unfiltered, then
/// the microphone, with noise reduction where asked for.
pub open spec fn sources_of(
    platform: Platform,
    cfg: Config,
    audio_target: Option<u64>,
    denoise: bool,
) -> Seq<SourceView> {
    let mic = SourceView {
        src: mic_source(platform, mic_choice(cfg)),
        filter: if denoise {
            denoise_filter()
        } else {
            seq![]
        },
    };
    match audio_target {
        Some(target) => seq![
            SourceView { src: discord_source(platform, target), filter: seq![] },
            mic,
        ],
        None => seq![mic],
    }
}

/// Each source with a track of its own, in order.
pub open spec fn separate_branches(sources: Seq<SourceView>, kbps: nat) -> Seq<Seq<char>>
    decreases sources.len(),
{
    if sources.len() == 0 {
        seq![]
    } else {
        separate_branches(sources.drop_last(), kbps) + separate_branch(sources.last(), kbps)
    }
}

/// The audio part of a recording.
pub open spec fn audio_part(
    platform: Platform,
    cfg: Config,
    audio_target: Option<u64>,
    denoise: bool,
) -> Seq<Seq<char>> {
    let sources = sources_of(platform, cfg, audio_target, denoise);
    if cfg.mix_audio {
        mixed_branch(sources, cfg.audio_bitrate_kbps as nat)
    } else {
        separate_branches(sources, cfg.audio_bitrate_kbps as nat)
    }
}

/// The video part of a recording.
pub open spec fn video_part(
    cfg: Config,
    video: Option<VideoSpec>,
    encoder: VideoEncoder,
) -> Seq<Seq<char>> {
    match video {
        Some(spec) => picture_branch(spec, encoder, cfg.video_bitrate_kbps as nat),
        None => seq![],
    }
}

/// The whole argument list of a recording.
pub open spec fn recording_tokens(
    platform: Platform,
    cfg: Config,
    file_name: Seq<char>,
    audio_target: Option<u64>,
    video: Option<VideoSpec>,
    encoder: VideoEncoder,
    denoise: bool,
) -> Seq<Seq<char>> {
    seq!["-e"@] + video_part(cfg, video, encoder) + audio_part(
        platform,
        cfg,
        audio_target,
        denoise,
    ) + muxer(file_name)
}

impl Recording {
    /// Plans a recording: the arguments with which `gst-launch-1.0` is to run in the output
    /// directory. The file name is relative and made by the recorder, and no shell reads it.
    /// Refused where there is neither sound nor a picture of Discord.
    pub fn start(
        platform: Platform,
        cfg: &Config,
        file_name: &str,
        audio_target: Option<u64>,
        video: Option<VideoSpec>,
        encoder: VideoEncoder,
        denoise: bool,
    ) -> (r: Result<Vec<String>, RecordError>)
        ensures
            r is Ok <==> audio_target is Some || video is Some,
            r matches Err(e) ==> e == RecordError::NothingToRecord,
            r matches Ok(args) ==> views(args@) == recording_tokens(
                platform,
                *cfg,
                file_name@,
                audio_target,
                video,
                encoder,
                denoise,
            ),
    {
        if audio_target.is_none() && video.is_none() {
            return Err(RecordError::NothingToRecord);
        }
        let mut args: Vec<String> = Vec::new();
        push_token(&mut args, "-e");
        if let Some(spec) = video {
            video_branch(&mut args, &spec, encoder, cfg.video_bitrate_kbps);
        }
        let ghost head = views(args@);
        assert(head =~= seq!["-e"@] + video_part(*cfg, video, encoder));
        let mut sources: Vec<AudioSource> = Vec::new();
        if let Some(target) = audio_target {
            sources.push(
                AudioSource { src: discord_audio_tokens(platform, target), filter: Vec::new() },
            );
        }
        let mic: Option<&str> = match &cfg.mic_target {
            Some(id) => Some(id.as_str()),
            None => None,
        };
        let filter: Vec<String> = if denoise {
            denoise_tokens()
        } else {
            Vec::new()
        };
        sources.push(AudioSource { src: mic_audio_tokens(platform, mic), filter });
        let ghost all = sources_of(platform, *cfg, audio_target, denoise);
        proof {
            assert(views(Seq::<String>::empty()) =~= seq![]);
            let got = source_views(sources@);
            assert(got.len() == all.len());
            assert forall|i: int| 0 <= i < all.len() implies got[i] == all[i] by {
                assert(got[i].src =~= all[i].src);
                assert(got[i].filter =~= all[i].filter);
            }
            assert(got =~= all);
        }
        if cfg.mix_audio {
            audio_branch_mixed(&mut args, sources.as_slice(), cfg.audio_bitrate_kbps);
        } else {
            let ghost kbps = cfg.audio_bitrate_kbps as nat;
            let mut i: usize = 0;
            assert(head + separate_branches(all.take(0), kbps) =~= head);
            while i < sources.len()
                invariant
                    i <= sources@.len(),
                    all == source_views(sources@),
                    kbps == cfg.audio_bitrate_kbps,
                    views(args@) == head + separate_branches(all.take(i as int), kbps),
                decreases sources@.len() - i,
            {
                audio_branch_separate(&mut args, &sources[i], cfg.audio_bitrate_kbps);
                i += 1;
                proof {
                    let done = all.take(i as int);
                    assert(done.drop_last() =~= all.take(i - 1));
                    assert(done.last() == sources@[i - 1]@);
                    assert(views(args@) =~= head + separate_branches(done, kbps));
                }
            }
            assert(all.take(i as int) =~= all);
        }
        mux_tokens(&mut args, file_name);
        assert(views(args@) =~= recording_tokens(
            platform,
            *cfg,
            file_name@,
            audio_target,
            video,
            encoder,
            denoise,
        ));
        Ok(args)
    }
}

} // verus!
