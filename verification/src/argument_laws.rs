//! What the argument lists of `gst-launch-1.0` hold, whatever the settings: where each source
//! comes from, where it goes, at which rate, and which files are read and written.

use vstd::prelude::*;

use crate::config::Config;
use crate::convert::{
    audio_probe, audio_track, audio_tracks_part, conversion_tokens, plan_for, probe_source,
    rate_for_height, ratio_width, shrinks, video_probe, video_track, Probe, TrackSearch, VideoPlan,
    MAX_AUDIO_TRACKS,
};
use crate::encoder::{any_yes, candidates, pair_views, VideoEncoder};
use crate::platform::Platform;
use crate::recorder::{
    audio_part, mixed_branch, mixer_inputs, picture_branch, recording_tokens, separate_branch,
    separate_branches, source_chain, source_views, sources_of, video_part, AudioSource, SourceView,
    VideoSpec,
};
use crate::text::decimal;
use crate::tokens::{str_views, views};

verus! {

/// Whether `piece` stands in `args` from position `i` on.
pub open spec fn stands_at(args: Seq<Seq<char>>, piece: Seq<Seq<char>>, i: int) -> bool {
    0 <= i && i + piece.len() <= args.len() && args.subrange(i, i + piece.len()) == piece
}

/// Whether `piece` stands somewhere in `args`.
pub open spec fn holds(args: Seq<Seq<char>>, piece: Seq<Seq<char>>) -> bool {
    exists|i: int| stands_at(args, piece, i)
}

proof fn lemma_stands(a: Seq<Seq<char>>, piece: Seq<Seq<char>>, b: Seq<Seq<char>>)
    ensures
        stands_at(a + piece + b, piece, a.len() as int),
{
    assert((a + piece + b).subrange(a.len() as int, (a.len() + piece.len()) as int) =~= piece);
}

/// Each encoder is told the rate it is asked for, in kilobits per second, and otherwise set up the
/// same at every rate: a key frame every 120 frames at most, which Media Foundation sees to
/// itself, and x264 quick and without delay.
pub proof fn law_encoder_is_told_its_rate(encoder: VideoEncoder, kbps: nat)
    ensures
        ({
            let t = encoder.launch_tokens(kbps);
            &&& t.len() >= 2
            &&& t[0] == match encoder {
                VideoEncoder::Nvenc => "nvh264enc"@,
                VideoEncoder::Vaapi => "vah264enc"@,
                VideoEncoder::Qsv => "qsvh264enc"@,
                VideoEncoder::Amf => "amfh264enc"@,
                VideoEncoder::MediaFoundation => "mfh264enc"@,
                VideoEncoder::X264 => "x264enc"@,
            }
            &&& t[0] == encoder.element_text()
            &&& t[1] == "bitrate="@ + decimal(kbps)
            &&& t.skip(2) == match encoder {
                VideoEncoder::MediaFoundation => seq![],
                VideoEncoder::Vaapi => seq!["key-int-max=120"@],
                VideoEncoder::X264 => seq![
                    "speed-preset=veryfast"@,
                    "tune=zerolatency"@,
                    "key-int-max=120"@,
                ],
                _ => seq!["gop-size=120"@],
            }
        }),
{
    let t = encoder.launch_tokens(kbps);
    assert(t.skip(2) =~= match encoder {
        VideoEncoder::MediaFoundation => seq![],
        VideoEncoder::Vaapi => seq!["key-int-max=120"@],
        VideoEncoder::X264 => seq![
            "speed-preset=veryfast"@,
            "tune=zerolatency"@,
            "key-int-max=120"@,
        ],
        _ => seq!["gop-size=120"@],
    });
}

/// Encoders that the user sees under different names are different encoders, with different
/// elements.
pub proof fn law_encoders_are_told_apart(a: VideoEncoder, b: VideoEncoder)
    requires
        a != b,
    ensures
        a.label_text() != b.label_text(),
        a.element_text() != b.element_text(),
{
    reveal_strlit("NVENC (GPU NVIDIA)");
    reveal_strlit("VA-API (GPU)");
    reveal_strlit("Quick Sync (GPU Intel)");
    reveal_strlit("AMF (GPU AMD)");
    reveal_strlit("Media Foundation");
    reveal_strlit("x264 (CPU)");
    reveal_strlit("nvh264enc");
    reveal_strlit("vah264enc");
    reveal_strlit("qsvh264enc");
    reveal_strlit("amfh264enc");
    reveal_strlit("mfh264enc");
    reveal_strlit("x264enc");
    assert(a.label_text()[0] == b.label_text()[0] ==> a.label_text().len() != b.label_text().len());
    assert(a.element_text()[0] == b.element_text()[0] ==> a.element_text().len()
        != b.element_text().len());
}

/// Looked for are the hardware encoders of the platform and no others, that of NVIDIA first and
/// on Windows that of the system last.
pub proof fn law_candidates(platform: Platform)
    ensures
        candidates(platform).no_duplicates(),
        candidates(platform).first() == VideoEncoder::Nvenc,
        forall|e: VideoEncoder|
            candidates(platform).contains(e) <==> match e {
                VideoEncoder::Nvenc => true,
                VideoEncoder::Vaapi => platform != Platform::Windows,
                VideoEncoder::Qsv | VideoEncoder::Amf | VideoEncoder::MediaFoundation => platform
                    == Platform::Windows,
                VideoEncoder::X264 => false,
            },
        platform == Platform::Windows ==> candidates(platform).last()
            == VideoEncoder::MediaFoundation && candidates(platform)[1] == VideoEncoder::Qsv,
{
    let c = candidates(platform);
    if platform == Platform::Windows {
        assert(c[0] == VideoEncoder::Nvenc && c[1] == VideoEncoder::Qsv && c[2]
            == VideoEncoder::Amf && c[3] == VideoEncoder::MediaFoundation);
    } else {
        assert(c[0] == VideoEncoder::Nvenc && c[1] == VideoEncoder::Vaapi);
    }
}

/// A recording ends its file in good order when it is interrupted, and is muxed into the file of
/// the given name.
pub proof fn law_recording_is_written(
    platform: Platform,
    cfg: Config,
    file_name: Seq<char>,
    audio_target: Option<u64>,
    video: Option<VideoSpec>,
    encoder: VideoEncoder,
    denoise: bool,
)
    ensures
        ({
            let args = recording_tokens(
                platform,
                cfg,
                file_name,
                audio_target,
                video,
                encoder,
                denoise,
            );
            let n = args.len() as int;
            &&& n >= 6
            &&& args[0] == "-e"@
            &&& args[n - 5] == "matroskamux"@
            &&& args[n - 4] == "name=mux"@
            &&& args[n - 3] == "!"@
            &&& args[n - 2] == "filesink"@
            &&& args[n - 1] == "location="@ + file_name
        }),
{
}

/// The way of a picture of known size to the muxer: scaled to even dimensions with square pixels,
/// at most one pixel smaller each, and encoded at the given rate.
pub open spec fn scaled_way(
    width: u32,
    height: u32,
    encoder: VideoEncoder,
    kbps: nat,
) -> Seq<Seq<char>> {
    seq![
        "!"@,
        "queue"@,
        "!"@,
        "videoconvert"@,
        "!"@,
        "videoscale"@,
        "!"@,
        "video/x-raw,width="@ + decimal((width - width % 2) as nat) + ",height="@ + decimal(
            (height - height % 2) as nat,
        ) + ",pixel-aspect-ratio=1/1"@,
        "!"@,
    ] + encoder.launch_tokens(kbps) + seq!["!"@, "h264parse"@, "!"@, "queue"@, "!"@, "mux."@]
}

/// The picture is taken from the very window or stream that was found, at the frame rate that was
/// asked for, and encoded at the rate of the settings. It stands first.
pub proof fn law_picture_is_recorded(
    platform: Platform,
    cfg: Config,
    file_name: Seq<char>,
    audio_target: Option<u64>,
    spec: VideoSpec,
    encoder: VideoEncoder,
    denoise: bool,
)
    ensures
        ({
            let args = recording_tokens(
                platform,
                cfg,
                file_name,
                audio_target,
                Some(spec),
                encoder,
                denoise,
            );
            let kbps = cfg.video_bitrate_kbps as nat;
            match spec {
                VideoSpec::X11Window { xid, framerate, width, height } => stands_at(
                    args,
                    seq![
                        "ximagesrc"@,
                        "xid="@ + decimal(xid as nat),
                        "use-damage=0"@,
                        "!"@,
                        "video/x-raw,framerate="@ + decimal(framerate as nat) + "/1"@,
                    ] + scaled_way(width, height, encoder, kbps),
                    1,
                ),
                VideoSpec::WinWindow { hwnd, framerate, width, height } => stands_at(
                    args,
                    seq![
                        "d3d11screencapturesrc"@,
                        "window-handle="@ + decimal(hwnd as nat),
                        "show-cursor=true"@,
                        "!"@,
                        "video/x-raw,framerate="@ + decimal(framerate as nat) + "/1"@,
                        "!"@,
                        "d3d11download"@,
                    ] + scaled_way(width, height, encoder, kbps),
                    1,
                ),
                VideoSpec::Portal { node_id } => stands_at(
                    args,
                    seq![
                        "pipewiresrc"@,
                        "fd="@ + decimal(3),
                        "path="@ + decimal(node_id as nat),
                        "do-timestamp=true"@,
                        "!"@,
                        "queue"@,
                        "!"@,
                        "videoconvert"@,
                        "!"@,
                    ] + encoder.launch_tokens(kbps) + seq![
                        "!"@,
                        "h264parse"@,
                        "!"@,
                        "queue"@,
                        "!"@,
                        "mux."@,
                    ],
                    1,
                ),
            }
        }),
{
    let args = recording_tokens(
        platform,
        cfg,
        file_name,
        audio_target,
        Some(spec),
        encoder,
        denoise,
    );
    let kbps = cfg.video_bitrate_kbps as nat;
    let picture = picture_branch(spec, encoder, kbps);
    let rest = audio_part(platform, cfg, audio_target, denoise) + crate::recorder::muxer(file_name);
    assert(args =~= seq!["-e"@] + picture + rest);
    lemma_stands(seq!["-e"@], picture, rest);
    match spec {
        VideoSpec::X11Window { xid, framerate, width, height } => {
            assert(picture =~= seq![
                "ximagesrc"@,
                "xid="@ + decimal(xid as nat),
                "use-damage=0"@,
                "!"@,
                "video/x-raw,framerate="@ + decimal(framerate as nat) + "/1"@,
            ] + scaled_way(width, height, encoder, kbps));
        },
        VideoSpec::WinWindow { hwnd, framerate, width, height } => {
            assert(picture =~= seq![
                "d3d11screencapturesrc"@,
                "window-handle="@ + decimal(hwnd as nat),
                "show-cursor=true"@,
                "!"@,
                "video/x-raw,framerate="@ + decimal(framerate as nat) + "/1"@,
                "!"@,
                "d3d11download"@,
            ] + scaled_way(width, height, encoder, kbps));
        },
        VideoSpec::Portal { node_id } => {
            assert(picture =~= seq![
                "pipewiresrc"@,
                "fd="@ + decimal(3),
                "path="@ + decimal(node_id as nat),
                "do-timestamp=true"@,
                "!"@,
                "queue"@,
                "!"@,
                "videoconvert"@,
                "!"@,
            ] + encoder.launch_tokens(kbps) + seq![
                "!"@,
                "h264parse"@,
                "!"@,
                "queue"@,
                "!"@,
                "mux."@,
            ]);
        },
    }
}

/// The element that plays back what Discord plays.
pub open spec fn discord_element(platform: Platform, target: u64) -> Seq<Seq<char>> {
    if platform == Platform::Windows {
        seq![
            "wasapi2src"@,
            "loopback=true"@,
            "loopback-mode=include-process-tree"@,
            "loopback-target-pid="@ + decimal(target as nat),
            "do-timestamp=true"@,
        ]
    } else {
        seq!["pipewiresrc"@, "target-object="@ + decimal(target as nat), "do-timestamp=true"@]
    }
}

/// The element that reads the microphone: the chosen one, or that of the system.
pub open spec fn mic_element(platform: Platform, mic: Option<String>) -> Seq<Seq<char>> {
    match (platform == Platform::Windows, mic) {
        (true, Some(id)) => seq!["wasapi2src"@, id@, "do-timestamp=true"@],
        (true, None) => seq!["wasapi2src"@, "do-timestamp=true"@],
        (false, Some(id)) => seq!["pipewiresrc"@, "target-object="@ + id@, "do-timestamp=true"@],
        (false, None) => seq!["pipewiresrc"@, "do-timestamp=true"@],
    }
}

/// The way of a sound source: made fit, filtered where noise is to be reduced, and led to the
/// mixer, or to an encoder and a track of its own.
pub open spec fn sound_way(denoise: bool, mixed: bool, kbps: nat) -> Seq<Seq<char>> {
    seq!["!"@, "queue"@, "!"@, "audioconvert"@, "!"@, "audioresample"@, "!"@] + (if denoise {
        seq![
            "audio/x-raw,rate=48000"@,
            "!"@,
            "webrtcdsp"@,
            "echo-cancel=false"@,
            "noise-suppression=true"@,
            "noise-suppression-level=moderate"@,
            "high-pass-filter=true"@,
            "!"@,
            "audioconvert"@,
            "!"@,
            "audioresample"@,
            "!"@,
        ]
    } else {
        seq![]
    }) + if mixed {
        seq!["amix."@]
    } else {
        seq!["opusenc"@, "bitrate="@ + decimal(kbps * 1000), "!"@, "queue"@, "!"@, "mux."@]
    }
}

/// The way of mixed sound to the file.
pub open spec fn mixer_way(kbps: nat) -> Seq<Seq<char>> {
    seq![
        "audiomixer"@,
        "name=amix"@,
        "!"@,
        "audioconvert"@,
        "!"@,
        "opusenc"@,
        "bitrate="@ + decimal(kbps * 1000),
        "!"@,
        "queue"@,
        "!"@,
        "mux."@,
    ]
}

/// The sound of Discord as it is recorded; nothing where it was not found.
pub open spec fn discord_branch(
    platform: Platform,
    cfg: Config,
    audio_target: Option<u64>,
) -> Seq<Seq<char>> {
    match audio_target {
        Some(target) => discord_element(platform, target) + sound_way(
            false,
            cfg.mix_audio,
            cfg.audio_bitrate_kbps as nat,
        ),
        None => seq![],
    }
}

/// The microphone as it is recorded.
pub open spec fn mic_branch(platform: Platform, cfg: Config, denoise: bool) -> Seq<Seq<char>> {
    mic_element(platform, cfg.mic_target) + sound_way(
        denoise,
        cfg.mix_audio,
        cfg.audio_bitrate_kbps as nat,
    )
}

proof fn lemma_one_source(source: SourceView, element: Seq<Seq<char>>, denoise: bool, kbps: nat)
    requires
        source.src == element,
        source.filter == if denoise {
            crate::recorder::denoise_filter()
        } else {
            seq![]
        },
    ensures
        source_chain(source) + seq!["!"@, "amix."@] == element + sound_way(denoise, true, kbps),
        separate_branch(source, kbps) == element + sound_way(denoise, false, kbps),
{
    assert(source_chain(source) + seq!["!"@, "amix."@] =~= element + sound_way(
        denoise,
        true,
        kbps,
    ));
    assert(separate_branch(source, kbps) =~= element + sound_way(denoise, false, kbps));
}

proof fn lemma_sound(platform: Platform, cfg: Config, audio_target: Option<u64>, denoise: bool)
    ensures
        audio_part(platform, cfg, audio_target, denoise) == (if cfg.mix_audio {
            mixer_way(cfg.audio_bitrate_kbps as nat)
        } else {
            seq![]
        }) + discord_branch(platform, cfg, audio_target) + mic_branch(platform, cfg, denoise),
{
    let kbps = cfg.audio_bitrate_kbps as nat;
    let sources = sources_of(platform, cfg, audio_target, denoise);
    let mic = sources.last();
    assert(mic.src =~= mic_element(platform, cfg.mic_target));
    lemma_one_source(mic, mic_element(platform, cfg.mic_target), denoise, kbps);
    reveal_with_fuel(mixer_inputs, 3);
    reveal_with_fuel(separate_branches, 3);
    if let Some(target) = audio_target {
        let first = sources.drop_last();
        assert(first =~= seq![sources[0]]);
        assert(first.drop_last() =~= seq![]);
        assert(sources[0].src =~= discord_element(platform, target));
        lemma_one_source(sources[0], discord_element(platform, target), false, kbps);
    } else {
        assert(sources.drop_last() =~= seq![]);
    }
    if cfg.mix_audio {
        assert(mixed_branch(sources, kbps) =~= mixer_way(kbps) + discord_branch(
            platform,
            cfg,
            audio_target,
        ) + mic_branch(platform, cfg, denoise));
    } else {
        assert(separate_branches(sources, kbps) =~= Seq::<Seq<char>>::empty() + discord_branch(
            platform,
            cfg,
            audio_target,
        ) + mic_branch(platform, cfg, denoise));
    }
}

/// The sound is recorded from the stream that was found, where one was, and from the microphone
/// that was chosen, else that of the system: mixed or not, with or without a picture, and in this
/// order. Noise is reduced in the microphone alone. Mixed sound has one encoder, which stands
/// before its sources; otherwise each source has its own. Nothing else is recorded.
pub proof fn law_sound_is_recorded(
    platform: Platform,
    cfg: Config,
    file_name: Seq<char>,
    audio_target: Option<u64>,
    video: Option<VideoSpec>,
    encoder: VideoEncoder,
    denoise: bool,
)
    ensures
        ({
            let args = recording_tokens(
                platform,
                cfg,
                file_name,
                audio_target,
                video,
                encoder,
                denoise,
            );
            let mic = mic_branch(platform, cfg, denoise);
            let discord = discord_branch(platform, cfg, audio_target);
            let at = args.len() - 5 - mic.len();
            &&& stands_at(args, mic, at)
            &&& stands_at(args, discord, at - discord.len())
            &&& cfg.mix_audio ==> stands_at(
                args,
                mixer_way(cfg.audio_bitrate_kbps as nat),
                at - discord.len() - 11,
            )
            &&& video is None ==> at - discord.len() == if cfg.mix_audio {
                12int
            } else {
                1
            }
        }),
{
    let picture = video_part(cfg, video, encoder);
    let mic = mic_branch(platform, cfg, denoise);
    let discord = discord_branch(platform, cfg, audio_target);
    let mixer = if cfg.mix_audio {
        mixer_way(cfg.audio_bitrate_kbps as nat)
    } else {
        seq![]
    };
    let end = crate::recorder::muxer(file_name);
    let args = recording_tokens(
        platform,
        cfg,
        file_name,
        audio_target,
        video,
        encoder,
        denoise,
    );
    let head = seq!["-e"@] + picture;
    lemma_sound(platform, cfg, audio_target, denoise);
    assert(args =~= head + mixer + discord + mic + end);
    lemma_stands(head + mixer + discord, mic, end);
    lemma_stands(head + mixer, discord, mic + end);
    assert(args =~= head + mixer + discord + (mic + end));
    lemma_stands(head, mixer, discord + mic + end);
    assert(args =~= head + mixer + (discord + mic + end));
}

/// Whatever else is set, the device that the user chose is the one that the microphone's source
/// is told, and none is where the user chose none.
pub proof fn law_chosen_microphone_is_used(
    platform: Platform,
    cfg: Config,
    file_name: Seq<char>,
    audio_target: Option<u64>,
    video: Option<VideoSpec>,
    encoder: VideoEncoder,
    denoise: bool,
    id: String,
)
    requires
        cfg.mic_target == Some(id),
    ensures
        ({
            let args = recording_tokens(
                platform,
                cfg,
                file_name,
                audio_target,
                video,
                encoder,
                denoise,
            );
            holds(
                args,
                if platform == Platform::Windows {
                    seq!["wasapi2src"@, id@, "do-timestamp=true"@]
                } else {
                    seq!["pipewiresrc"@, "target-object="@ + id@, "do-timestamp=true"@]
                },
            )
        }),
{
    law_sound_is_recorded(platform, cfg, file_name, audio_target, video, encoder, denoise);
    let args = recording_tokens(
        platform,
        cfg,
        file_name,
        audio_target,
        video,
        encoder,
        denoise,
    );
    let mic = mic_branch(platform, cfg, denoise);
    let at = args.len() - 5 - mic.len();
    let element = mic_element(platform, cfg.mic_target);
    assert(args.subrange(at, at + 3) =~= args.subrange(at, at + mic.len()).subrange(0, 3));
    assert(mic.subrange(0, 3) =~= element);
    assert(stands_at(args, element, at));
}

/// Mixed and separate recordings of the same settings have the same sources, in the same order.
pub proof fn law_mixing_changes_no_source(
    platform: Platform,
    a: Config,
    b: Config,
    audio_target: Option<u64>,
    denoise: bool,
)
    requires
        a.mic_target == b.mic_target,
    ensures
        sources_of(platform, a, audio_target, denoise) == sources_of(
            platform,
            b,
            audio_target,
            denoise,
        ),
        sources_of(platform, a, audio_target, denoise).last().src == mic_element(
            platform,
            a.mic_target,
        ),
        sources_of(platform, a, audio_target, denoise).len() == if audio_target is Some {
            2int
        } else {
            1
        },
{
    assert(sources_of(platform, a, audio_target, denoise) =~= sources_of(
        platform,
        b,
        audio_target,
        denoise,
    ));
    assert(sources_of(platform, a, audio_target, denoise).last().src =~= mic_element(
        platform,
        a.mic_target,
    ));
}

/// A conversion reads the input, takes it apart, and writes the output as MP4.
pub proof fn law_conversion_reads_and_writes(
    input_name: Seq<char>,
    output_name: Seq<char>,
    plan: VideoPlan,
    audio_tracks: nat,
    aac: Seq<Seq<char>>,
)
    ensures
        ({
            let args = conversion_tokens(input_name, output_name, plan, audio_tracks, aac);
            let n = args.len() as int;
            &&& n >= 11
            &&& args[0] == "-e"@
            &&& args[1] == "filesrc"@
            &&& args[2] == "location="@ + input_name
            &&& args[3] == "!"@
            &&& args[4] == "matroskademux"@
            &&& args[5] == "name=d"@
            &&& args[n - 5] == "qtmux"@
            &&& args[n - 4] == "name=mux"@
            &&& args[n - 3] == "!"@
            &&& args[n - 2] == "filesink"@
            &&& args[n - 1] == "location="@ + output_name
        }),
{
}

/// The way of a track out of the input, past a queue without limits.
pub open spec fn unlimited() -> Seq<Seq<char>> {
    seq![
        "!"@,
        "queue"@,
        "max-size-time=0"@,
        "max-size-bytes=0"@,
        "max-size-buffers=0"@,
        "!"@,
    ]
}

/// The picture of the input is left out where it has none, copied as it is where it keeps its
/// size, and decoded, scaled to the planned size with square pixels and encoded at the planned
/// rate where it shrinks.
pub proof fn law_picture_is_converted(
    input_name: Seq<char>,
    output_name: Seq<char>,
    plan: VideoPlan,
    audio_tracks: nat,
    aac: Seq<Seq<char>>,
)
    ensures
        ({
            let args = conversion_tokens(input_name, output_name, plan, audio_tracks, aac);
            &&& audio_tracks == 0 ==> args.len() == 11 + match plan {
                VideoPlan::Absent => 0,
                VideoPlan::Copy => 10,
                VideoPlan::Rescale { encoder, bitrate_kbps, .. } => 21 + encoder.launch_tokens(
                    bitrate_kbps as nat,
                ).len(),
            }
            &&& match plan {
                VideoPlan::Absent => true,
                VideoPlan::Copy => stands_at(
                    args,
                    seq!["d.video_0"@] + unlimited() + seq!["h264parse"@, "!"@, "mux."@],
                    6,
                ),
                VideoPlan::Rescale { width, height, encoder, bitrate_kbps } => stands_at(
                    args,
                    seq!["d.video_0"@] + unlimited() + seq![
                        "h264parse"@,
                        "!"@,
                        "avdec_h264"@,
                        "!"@,
                        "videoconvert"@,
                        "!"@,
                        "videoscale"@,
                        "!"@,
                        "video/x-raw,width="@ + decimal(width as nat) + ",height="@ + decimal(
                            height as nat,
                        ) + ",pixel-aspect-ratio=1/1"@,
                        "!"@,
                    ] + encoder.launch_tokens(bitrate_kbps as nat) + seq![
                        "!"@,
                        "h264parse"@,
                        "!"@,
                        "mux."@,
                    ],
                    6,
                ),
            }
        }),
{
    let args = conversion_tokens(input_name, output_name, plan, audio_tracks, aac);
    let head = args.take(6);
    let rest = args.skip(6 + video_track(plan).len() as int);
    assert(args =~= head + video_track(plan) + rest);
    lemma_stands(head, video_track(plan), rest);
    match plan {
        VideoPlan::Absent => {},
        VideoPlan::Copy => {
            assert(video_track(plan) =~= seq!["d.video_0"@] + unlimited() + seq![
                "h264parse"@,
                "!"@,
                "mux."@,
            ]);
        },
        VideoPlan::Rescale { width, height, encoder, bitrate_kbps } => {
            assert(video_track(plan) =~= seq!["d.video_0"@] + unlimited() + seq![
                "h264parse"@,
                "!"@,
                "avdec_h264"@,
                "!"@,
                "videoconvert"@,
                "!"@,
                "videoscale"@,
                "!"@,
                "video/x-raw,width="@ + decimal(width as nat) + ",height="@ + decimal(
                    height as nat,
                ) + ",pixel-aspect-ratio=1/1"@,
                "!"@,
            ] + encoder.launch_tokens(bitrate_kbps as nat) + seq![
                "!"@,
                "h264parse"@,
                "!"@,
                "mux."@,
            ]);
        },
    }
}

proof fn lemma_audio_part(count: nat, aac: Seq<Seq<char>>, index: nat)
    requires
        index < count,
    ensures
        audio_tracks_part(count, aac).len() == count * (17 + aac.len()),
        stands_at(
            audio_tracks_part(count, aac),
            audio_track(index, aac),
            (index * (17 + aac.len())) as int,
        ),
    decreases count,
{
    let last = (count - 1) as nat;
    let size = 17 + aac.len();
    let before = audio_tracks_part(last, aac);
    let own = audio_track(last, aac);
    assert(own.len() == size);
    if last > 0 {
        lemma_audio_part(last, aac, (last - 1) as nat);
    } else {
        assert(before.len() == 0);
        assert(0 * size == 0);
    }
    assert(count * size == last * size + size) by (nonlinear_arith)
        requires
            count == last + 1,
    ;
    if index == last {
        lemma_stands(before, own, seq![]);
        assert(before + own + seq![] =~= before + own);
    } else {
        lemma_audio_part(last, aac, index);
        let at = (index * size) as int;
        let track = audio_track(index, aac);
        assert((before + own).subrange(at, at + track.len()) =~= before.subrange(
            at,
            at + track.len(),
        ));
    }
}

/// Every audio track of the input, from the first to the last, is decoded, encoded as AAC and put
/// into the file, each on its own; and that is all that is done to the sound.
pub proof fn law_every_track_is_converted(
    input_name: Seq<char>,
    output_name: Seq<char>,
    plan: VideoPlan,
    audio_tracks: nat,
    aac: Seq<Seq<char>>,
    index: nat,
)
    requires
        index < audio_tracks,
    ensures
        ({
            let args = conversion_tokens(input_name, output_name, plan, audio_tracks, aac);
            let none = conversion_tokens(input_name, output_name, plan, 0, aac);
            &&& args.len() == none.len() + audio_tracks * (17 + aac.len())
            &&& stands_at(
                args,
                seq!["d.audio_"@ + decimal(index)] + unlimited() + seq![
                    "opusdec"@,
                    "!"@,
                    "audioconvert"@,
                    "!"@,
                    "audioresample"@,
                    "!"@,
                ] + aac + seq!["!"@, "aacparse"@, "!"@, "mux."@],
                none.len() - 5 + index * (17 + aac.len()),
            )
        }),
{
    let args = conversion_tokens(input_name, output_name, plan, audio_tracks, aac);
    let none = conversion_tokens(input_name, output_name, plan, 0, aac);
    let sound = audio_tracks_part(audio_tracks, aac);
    let track = audio_track(index, aac);
    let head = none.take(none.len() - 5);
    let end = none.skip(none.len() - 5);
    let at = (index * (17 + aac.len())) as int;
    lemma_audio_part(audio_tracks, aac, index);
    lemma_sound_is_inserted(input_name, output_name, plan, audio_tracks, aac);
    lemma_track(index, aac);
    lemma_stands_inside(head, sound, end, track, at);
}

proof fn lemma_stands_inside(
    a: Seq<Seq<char>>,
    b: Seq<Seq<char>>,
    c: Seq<Seq<char>>,
    piece: Seq<Seq<char>>,
    at: int,
)
    requires
        stands_at(b, piece, at),
    ensures
        stands_at(a + b + c, piece, a.len() + at),
{
    let from = a.len() + at;
    assert((a + b + c).subrange(from, from + piece.len()) =~= b.subrange(at, at + piece.len()));
}

proof fn lemma_sound_is_inserted(
    input_name: Seq<char>,
    output_name: Seq<char>,
    plan: VideoPlan,
    audio_tracks: nat,
    aac: Seq<Seq<char>>,
)
    ensures
        ({
            let args = conversion_tokens(input_name, output_name, plan, audio_tracks, aac);
            let none = conversion_tokens(input_name, output_name, plan, 0, aac);
            &&& none.len() >= 11
            &&& args == none.take(none.len() - 5) + audio_tracks_part(audio_tracks, aac)
                + none.skip(none.len() - 5)
        }),
{
    let none = conversion_tokens(input_name, output_name, plan, 0, aac);
    assert(audio_tracks_part(0, aac) =~= seq![]);
    assert(conversion_tokens(input_name, output_name, plan, audio_tracks, aac) =~= none.take(
        none.len() - 5,
    ) + audio_tracks_part(audio_tracks, aac) + none.skip(none.len() - 5));
}

proof fn lemma_track(index: nat, aac: Seq<Seq<char>>)
    ensures
        audio_track(index, aac) == seq!["d.audio_"@ + decimal(index)] + unlimited() + seq![
            "opusdec"@,
            "!"@,
            "audioconvert"@,
            "!"@,
            "audioresample"@,
            "!"@,
        ] + aac + seq!["!"@, "aacparse"@, "!"@, "mux."@],
{
    assert(audio_track(index, aac) =~= seq!["d.audio_"@ + decimal(index)] + unlimited() + seq![
        "opusdec"@,
        "!"@,
        "audioconvert"@,
        "!"@,
        "audioresample"@,
        "!"@,
    ] + aac + seq!["!"@, "aacparse"@, "!"@, "mux."@]);
}

/// A smaller height that is asked for is always honoured, with the width that keeps the ratio, by
/// the encoder that was found and at the rate of the new height; and nothing else has the picture
/// encoded again: it is copied where it is there, and left out where it is not.
pub proof fn law_smaller_height_is_honoured(
    probe: Probe,
    target_height: Option<u32>,
    encoder: VideoEncoder,
)
    ensures
        ({
            let plan = plan_for(probe, target_height, encoder);
            match (probe.has_video, probe.video_dims, target_height) {
                (true, Some((w, sh)), Some(h)) if h < sh => plan matches VideoPlan::Rescale {
                    width,
                    height,
                    encoder: by,
                    bitrate_kbps,
                } && {
                    &&& height == h
                    &&& width % 2 == 0
                    &&& width >= 2
                    &&& width == 2 || width * sh <= w * h < (width + 2) * sh
                    &&& by == encoder
                    &&& bitrate_kbps == if h <= 480 {
                        2500int
                    } else if h <= 720 {
                        5000
                    } else if h <= 1080 {
                        8000
                    } else {
                        12000
                    }
                },
                (true, _, _) => plan == VideoPlan::Copy,
                (false, _, _) => plan == VideoPlan::Absent,
            }
        }),
        shrinks(probe, target_height) <==> plan_for(probe, target_height, encoder) is Rescale,
{
    if let (Some((w, sh)), Some(h)) = (probe.video_dims, target_height) {
        if h < sh {
            let exact = (w * h) / (sh as int);
            assert(0 <= exact <= w && exact * sh <= w * h < exact * sh + sh) by (nonlinear_arith)
                requires
                    0 <= h < sh,
                    0 <= w,
                    exact == (w * h) / (sh as int),
            ;
            let width = exact - exact % 2;
            assert(width * sh <= exact * sh && exact * sh + sh <= (width + 2) * sh)
                by (nonlinear_arith)
                requires
                    width <= exact < width + 2,
                    0 < sh,
            ;
        }
    }
}

/// The rate of a picture that is encoded again goes by its height alone, in four steps.
pub proof fn law_rate_steps(height: u32)
    ensures
        rate_for_height(height) == if height <= 480 {
            2500int
        } else if height <= 720 {
            5000
        } else if height <= 1080 {
            8000
        } else {
            12000
        },
{
}

/// Where the source has no height, or the width would be too large to write, the target height
/// stands in for the width, rounded down to even.
pub proof fn law_odd_sources_get_the_target_height(src_w: u32, src_h: u32, target_h: u32)
    ensures
        src_h == 0 ==> ratio_width(src_w, src_h, target_h) == target_h - target_h % 2,
        src_h > 0 && (src_w * target_h) / (src_h as int) > u32::MAX && target_h >= 2
            ==> ratio_width(src_w, src_h, target_h) == target_h - target_h % 2,
{
}

/// All probes read the beginning of the input alone, and differ in nothing but the input and the
/// track that is looked for.
pub proof fn law_probes(a: Seq<char>, b: Seq<char>, i: nat, j: nat)
    ensures
        probe_source(a).len() == 7,
        probe_source(a)[1] == "location="@ + a,
        probe_source(a).contains("num-buffers=64"@),
        forall|k: int|
            0 <= k < 7 && k != 1 ==> #[trigger] probe_source(a)[k] == probe_source(b)[k],
        audio_probe(a, i).len() == 10,
        audio_probe(a, i).take(7) == probe_source(a),
        audio_probe(a, i)[7] == "d.audio_"@ + decimal(i),
        audio_probe(a, i).skip(8) == audio_probe(b, j).skip(8),
        video_probe(a).len() == 11,
        video_probe(a)[0] == "-v"@,
        video_probe(a).subrange(1, 8) == probe_source(a),
        video_probe(a)[8] == "d.video_0"@,
        video_probe(a).skip(9) == audio_probe(a, i).skip(8),
{
    assert(probe_source(a)[3] == "num-buffers=64"@);
    assert(audio_probe(a, i).take(7) =~= probe_source(a));
    assert(audio_probe(a, i).skip(8) =~= audio_probe(b, j).skip(8));
    assert(video_probe(a).subrange(1, 8) =~= probe_source(a));
    assert(video_probe(a).skip(9) =~= audio_probe(a, i).skip(8));
}

/// The search for tracks after some answers.
pub open spec fn searched(s: TrackSearch, answers: Seq<bool>) -> TrackSearch
    decreases answers.len(),
{
    if answers.len() == 0 {
        s
    } else {
        searched(s, answers.drop_last()).after(answers.last())
    }
}

/// The search finds as many tracks as probes succeed in a row, sixteen at most, and goes on until
/// one fails or sixteen are found.
pub proof fn law_search_counts_tracks(answers: Seq<bool>, n: int)
    requires
        0 <= n <= answers.len(),
        forall|i: int| 0 <= i < n ==> #[trigger] answers[i],
        n < answers.len() ==> !answers[n],
    ensures
        MAX_AUDIO_TRACKS == 16,
        ({
            let s = searched(TrackSearch { found: 0, over: false }, answers);
            &&& s.found == if n <= 16 {
                n
            } else {
                16
            }
            &&& s.over <==> n >= 16 || n < answers.len()
        }),
    decreases answers.len(),
{
    if answers.len() > 0 {
        let before = answers.drop_last();
        let m = if n <= before.len() {
            n
        } else {
            before.len() as int
        };
        law_search_counts_tracks(before, m);
    }
}

/// A probe reads the first 64 blocks of 65536 bytes of the input, takes them apart, and throws away
/// what it finds.
pub proof fn law_probe_reads_the_beginning(name: Seq<char>, index: nat)
    ensures
        probe_source(name) == seq![
            "filesrc"@,
            "location="@ + name,
            "blocksize=65536"@,
            "num-buffers=64"@,
            "!"@,
            "matroskademux"@,
            "name=d"@,
        ],
        audio_probe(name, index)[8] == "!"@,
        audio_probe(name, index)[9] == "fakesink"@,
{
}

/// Every encoder is shown under its own name.
pub proof fn law_encoder_names(encoder: VideoEncoder)
    ensures
        encoder.label_text() == match encoder {
            VideoEncoder::Nvenc => "NVENC (GPU NVIDIA)"@,
            VideoEncoder::Vaapi => "VA-API (GPU)"@,
            VideoEncoder::Qsv => "Quick Sync (GPU Intel)"@,
            VideoEncoder::Amf => "AMF (GPU AMD)"@,
            VideoEncoder::MediaFoundation => "Media Foundation"@,
            VideoEncoder::X264 => "x264 (CPU)"@,
        },
{
}

/// An answer more is a yes where it is one, or there was one before; no answers are none.
pub proof fn law_any_yes(answers: Seq<bool>, more: bool)
    ensures
        any_yes(answers.push(more)) <==> any_yes(answers) || more,
        !any_yes(seq![]),
{
    let all = answers.push(more);
    if any_yes(answers) {
        let i = choose|i: int| 0 <= i < answers.len() && #[trigger] answers[i];
        assert(all[i]);
    }
    if more {
        assert(all[answers.len() as int]);
    }
    if any_yes(all) {
        let i = choose|i: int| 0 <= i < all.len() && #[trigger] all[i];
        if i < answers.len() {
            assert(answers[i]);
        }
    }
}

/// Argument lists, and sources, are read one by one, in order.
pub proof fn law_arguments_are_read(
    args: Seq<String>,
    words: Seq<&str>,
    pairs: Seq<(&str, String)>,
    sources: Seq<AudioSource>,
    i: int,
)
    ensures
        views(args).len() == args.len(),
        str_views(words).len() == words.len(),
        pair_views(pairs).len() == pairs.len(),
        source_views(sources).len() == sources.len(),
        0 <= i < args.len() ==> views(args)[i] == args[i]@,
        0 <= i < words.len() ==> str_views(words)[i] == words[i]@,
        0 <= i < pairs.len() ==> pair_views(pairs)[i] == (pairs[i].0@, pairs[i].1@),
        0 <= i < sources.len() ==> source_views(sources)[i].src == views(sources[i].src@)
            && source_views(sources)[i].filter == views(sources[i].filter@),
{
}

} // verus!
