//! Laws of the pipelines: every argument list that the recorder or the converter builds is well
//! linked, puts as many tracks into the file as there are, and holds no control character, which
//! `gst-launch-1.0` would take for pipeline syntax.

use vstd::prelude::*;

use crate::config::Config;
use crate::convert::{
    aac_element, audio_track, audio_tracks_part, big_queue, conversion_tokens, mp4_name_of,
    plan_for, rate_for_height, ratio_width, shrinks, video_track, Probe, VideoPlan,
};
use crate::encoder::VideoEncoder;
use crate::names::{convertible_name, stem_or_self};
use crate::naming::lemma_stem_is_safe;
use crate::platform::Platform;
use crate::recorder::{
    audio_part, denoise_filter, discord_source, mic_choice, mic_source, mixed_branch, mixer_inputs,
    muxer, opus_to_mux, picture_branch, recording_tokens, separate_branch, separate_branches,
    size_caps, source_chain, sources_of, video_part, video_source, SourceView, VideoSpec,
};
use crate::text::decimal;
use crate::tokens::{lemma_links_join, lemma_links_linked, linked, links_sound};
use crate::words::{
    all_printable, firm, lemma_denoise_words, lemma_encoder_words, lemma_file_words,
    lemma_picture_words, lemma_sound_words, lemma_words, printable,
};

verus! {

/// How many tracks an argument list puts into the file: as many as join the muxer.
pub open spec fn tracks(args: Seq<Seq<char>>) -> nat
    decreases args.len(),
{
    if args.len() == 0 {
        0
    } else {
        tracks(args.drop_last()) + if args.last() == "mux."@ {
            1nat
        } else {
            0
        }
    }
}

/// Whether an argument list is a sound part of a pipeline that puts `n` tracks into the file.
spec fn part(args: Seq<Seq<char>>, n: nat) -> bool {
    args.len() > 0 && links_sound(args) && tracks(args) == n
}

proof fn lemma_tracks_join(a: Seq<Seq<char>>, b: Seq<Seq<char>>)
    ensures
        tracks(a + b) == tracks(a) + tracks(b),
    decreases b.len(),
{
    if b.len() == 0 {
        assert(a + b =~= a);
    } else {
        lemma_tracks_join(a, b.drop_last());
        assert((a + b).drop_last() =~= a + b.drop_last());
    }
}

proof fn lemma_no_tracks(args: Seq<Seq<char>>)
    requires
        forall|i: int| 0 <= i < args.len() ==> #[trigger] args[i] != "mux."@,
    ensures
        tracks(args) == 0,
    decreases args.len(),
{
    if args.len() > 0 {
        assert(args[args.len() - 1] != "mux."@);
        lemma_no_tracks(args.drop_last());
    }
}

/// Tokens of which none joins the muxer, followed by the one that does.
proof fn lemma_one_track(args: Seq<Seq<char>>)
    requires
        args.len() > 0,
        args.last() == "mux."@,
        forall|i: int| 0 <= i < args.len() - 1 ==> #[trigger] args[i] != "mux."@,
    ensures
        tracks(args) == 1,
{
    lemma_no_tracks(args.drop_last());
}

/// Argument lists that follow each other, or have a link between them, bring their tracks with
/// them, and hold no control character where neither does.
proof fn lemma_join(a: Seq<Seq<char>>, b: Seq<Seq<char>>)
    ensures
        tracks(a + b) == tracks(a) + tracks(b),
        tracks(linked(a, b)) == tracks(a) + tracks(b),
        links_sound(a) && links_sound(b) ==> links_sound(a + b),
        links_sound(a) && links_sound(b) && a.len() > 0 && b.len() > 0 ==> links_sound(
            linked(a, b),
        ),
        all_printable(a) && all_printable(b) ==> all_printable(a + b),
        all_printable(a) && all_printable(b) ==> all_printable(linked(a, b)),
{
    lemma_words();
    lemma_no_tracks(seq!["!"@]);
    lemma_tracks_join(a, b);
    lemma_tracks_join(a, seq!["!"@]);
    lemma_tracks_join(a + seq!["!"@], b);
    if links_sound(a) && links_sound(b) {
        lemma_links_join(a, b);
        if a.len() > 0 && b.len() > 0 {
            lemma_links_linked(a, b);
        }
    }
    if all_printable(a) && all_printable(b) {
        lemma_all_printable_join(a, b);
        lemma_all_printable_join(a, seq!["!"@]);
        lemma_all_printable_join(a + seq!["!"@], b);
    }
}

proof fn lemma_all_printable_join(a: Seq<Seq<char>>, b: Seq<Seq<char>>)
    requires
        all_printable(a),
        all_printable(b),
    ensures
        all_printable(a + b),
{
    let s = a + b;
    assert forall|i: int| 0 <= i < s.len() implies printable(#[trigger] s[i]) by {
        if i < a.len() {
            assert(s[i] == a[i]);
        } else {
            assert(s[i] == b[i - a.len()]);
        }
    }
}

proof fn lemma_encoder(encoder: VideoEncoder, kbps: nat)
    ensures
        part(encoder.launch_tokens(kbps), 0),
        all_printable(encoder.launch_tokens(kbps)),
{
    lemma_words();
    lemma_encoder_words();
    lemma_no_tracks(encoder.launch_tokens(kbps));
}

proof fn lemma_size_caps(width: u32, height: u32)
    ensures
        firm(size_caps(width, height)),
        printable(size_caps(width, height)),
{
    lemma_words();
    lemma_picture_words();
}

proof fn lemma_video_source(spec: VideoSpec)
    ensures
        part(video_source(spec), 0),
        all_printable(video_source(spec)),
{
    lemma_words();
    lemma_picture_words();
    lemma_no_tracks(video_source(spec));
}

proof fn lemma_picture(spec: VideoSpec, encoder: VideoEncoder, kbps: nat)
    ensures
        part(picture_branch(spec, encoder, kbps), 1),
        all_printable(picture_branch(spec, encoder, kbps)),
{
    let source = video_source(spec);
    let middle = seq!["queue"@, "!"@, "videoconvert"@];
    let coded = encoder.launch_tokens(kbps);
    let end = seq!["h264parse"@, "!"@, "queue"@, "!"@, "mux."@];
    lemma_words();
    lemma_picture_words();
    lemma_no_tracks(middle);
    lemma_one_track(end);
    lemma_video_source(spec);
    lemma_encoder(encoder, kbps);
    lemma_join(source, middle);
    let ready = linked(source, middle);
    let sized = match spec.pinned() {
        Some((width, height)) => {
            let caps = seq!["videoscale"@, "!"@, size_caps(width, height)];
            lemma_size_caps(width, height);
            lemma_no_tracks(caps);
            lemma_join(ready, caps);
            linked(ready, caps)
        },
        None => ready,
    };
    lemma_join(sized, coded);
    lemma_join(linked(sized, coded), end);
    assert(picture_branch(spec, encoder, kbps) =~= linked(linked(sized, coded), end));
}

proof fn lemma_opus(kbps: nat)
    ensures
        part(opus_to_mux(kbps), 1),
        all_printable(opus_to_mux(kbps)),
{
    lemma_words();
    lemma_sound_words();
    lemma_one_track(opus_to_mux(kbps));
}

/// Whether a source and its filter are sound by themselves.
spec fn source_sound(source: SourceView) -> bool {
    links_sound(source.src) && source.src.len() > 0 && links_sound(source.filter)
}

/// How many tracks a source and its filter bring with them.
spec fn own_tracks(source: SourceView) -> nat {
    tracks(source.src) + tracks(source.filter)
}

/// Whether neither a source nor its filter holds a control character.
spec fn source_printable(source: SourceView) -> bool {
    all_printable(source.src) && all_printable(source.filter)
}

/// How many tracks some sources bring with them.
spec fn sum_tracks(sources: Seq<SourceView>) -> nat
    decreases sources.len(),
{
    if sources.len() == 0 {
        0
    } else {
        sum_tracks(sources.drop_last()) + own_tracks(sources.last())
    }
}

/// Whether all sources are sound by themselves.
spec fn all_sound(sources: Seq<SourceView>) -> bool {
    forall|i: int| 0 <= i < sources.len() ==> source_sound(#[trigger] sources[i])
}

/// Whether no source holds a control character.
spec fn sources_printable(sources: Seq<SourceView>) -> bool {
    forall|i: int| 0 <= i < sources.len() ==> source_printable(#[trigger] sources[i])
}

proof fn lemma_chain(source: SourceView)
    requires
        source_sound(source),
    ensures
        part(source_chain(source), own_tracks(source)),
        source_printable(source) ==> all_printable(source_chain(source)),
{
    lemma_words();
    lemma_sound_words();
    let middle = seq!["queue"@, "!"@, "audioconvert"@, "!"@, "audioresample"@];
    lemma_no_tracks(middle);
    lemma_join(source.src, middle);
    if source.filter.len() == 0 {
        assert(source_chain(source) =~= linked(source.src, middle));
    } else {
        lemma_join(linked(source.src, middle), source.filter);
        assert(source_chain(source) =~= linked(linked(source.src, middle), source.filter));
    }
}

proof fn lemma_separate(sources: Seq<SourceView>, kbps: nat)
    requires
        all_sound(sources),
    ensures
        links_sound(separate_branches(sources, kbps)),
        tracks(separate_branches(sources, kbps)) == sum_tracks(sources) + sources.len(),
        sources_printable(sources) ==> all_printable(separate_branches(sources, kbps)),
    decreases sources.len(),
{
    if sources.len() > 0 {
        let before = separate_branches(sources.drop_last(), kbps);
        let own = separate_branch(sources.last(), kbps);
        let chain = source_chain(sources.last());
        lemma_separate(sources.drop_last(), kbps);
        assert(source_sound(sources[sources.len() - 1]));
        lemma_chain(sources.last());
        lemma_opus(kbps);
        lemma_join(chain, opus_to_mux(kbps));
        assert(own =~= linked(chain, opus_to_mux(kbps)));
        lemma_join(before, own);
        if sources_printable(sources) {
            assert(source_printable(sources[sources.len() - 1]));
        }
    }
}

proof fn lemma_mixer(sources: Seq<SourceView>)
    requires
        all_sound(sources),
    ensures
        links_sound(mixer_inputs(sources)),
        tracks(mixer_inputs(sources)) == sum_tracks(sources),
        sources_printable(sources) ==> all_printable(mixer_inputs(sources)),
    decreases sources.len(),
{
    if sources.len() > 0 {
        let before = mixer_inputs(sources.drop_last());
        let chain = source_chain(sources.last());
        let end = seq!["amix."@];
        lemma_mixer(sources.drop_last());
        assert(source_sound(sources[sources.len() - 1]));
        lemma_chain(sources.last());
        lemma_words();
        lemma_sound_words();
        lemma_no_tracks(end);
        lemma_join(chain, end);
        lemma_join(before, linked(chain, end));
        assert(mixer_inputs(sources) =~= before + linked(chain, end));
        if sources_printable(sources) {
            assert(source_printable(sources[sources.len() - 1]));
        }
    }
}

/// Whether the choice of microphone holds no control character.
pub open spec fn mic_printable(cfg: Config) -> bool {
    mic_choice(cfg) matches Some(id) ==> printable(id)
}

proof fn lemma_mic(platform: Platform, cfg: Config)
    ensures
        links_sound(mic_source(platform, mic_choice(cfg))),
        mic_source(platform, mic_choice(cfg)).len() > 0,
        mic_choice(cfg) != Some("mux."@) ==> tracks(mic_source(platform, mic_choice(cfg))) == 0,
        mic_printable(cfg) ==> all_printable(mic_source(platform, mic_choice(cfg))),
{
    lemma_words();
    lemma_sound_words();
    if mic_choice(cfg) != Some("mux."@) {
        lemma_no_tracks(mic_source(platform, mic_choice(cfg)));
    }
}

proof fn lemma_sources(
    platform: Platform,
    cfg: Config,
    audio_target: Option<u64>,
    denoise: bool,
)
    ensures
        all_sound(sources_of(platform, cfg, audio_target, denoise)),
        mic_choice(cfg) != Some("mux."@) ==> sum_tracks(
            sources_of(platform, cfg, audio_target, denoise),
        ) == 0,
        mic_printable(cfg) ==> sources_printable(
            sources_of(platform, cfg, audio_target, denoise),
        ),
{
    lemma_words();
    lemma_sound_words();
    lemma_denoise_words();
    lemma_no_tracks(denoise_filter());
    lemma_mic(platform, cfg);
    assert(all_printable(denoise_filter()));
    assert(links_sound(denoise_filter()));
    if let Some(target) = audio_target {
        lemma_no_tracks(discord_source(platform, target));
        assert(links_sound(discord_source(platform, target)));
        assert(all_printable(discord_source(platform, target)));
    }
    let sources = sources_of(platform, cfg, audio_target, denoise);
    reveal_with_fuel(sum_tracks, 3);
    if audio_target is Some {
        assert(sources.drop_last() =~= seq![sources[0]]);
        assert(sources.drop_last().drop_last() =~= seq![]);
    } else {
        assert(sources.drop_last() =~= seq![]);
    }
}

proof fn lemma_sound(
    platform: Platform,
    cfg: Config,
    audio_target: Option<u64>,
    denoise: bool,
)
    ensures
        links_sound(audio_part(platform, cfg, audio_target, denoise)),
        mic_choice(cfg) != Some("mux."@) ==> tracks(
            audio_part(platform, cfg, audio_target, denoise),
        ) == if cfg.mix_audio || audio_target is None {
            1nat
        } else {
            2
        },
        mic_printable(cfg) ==> all_printable(audio_part(platform, cfg, audio_target, denoise)),
{
    let sources = sources_of(platform, cfg, audio_target, denoise);
    let kbps = cfg.audio_bitrate_kbps as nat;
    lemma_sources(platform, cfg, audio_target, denoise);
    if cfg.mix_audio {
        let head = seq!["audiomixer"@, "name=amix"@, "!"@, "audioconvert"@];
        lemma_words();
        lemma_sound_words();
        lemma_no_tracks(head);
        lemma_opus(kbps);
        lemma_join(head, opus_to_mux(kbps));
        lemma_mixer(sources);
        lemma_join(linked(head, opus_to_mux(kbps)), mixer_inputs(sources));
        assert(mixed_branch(sources, kbps) =~= linked(head, opus_to_mux(kbps)) + mixer_inputs(
            sources,
        ));
    } else {
        lemma_separate(sources, kbps);
    }
}

proof fn lemma_recording(
    platform: Platform,
    cfg: Config,
    file_name: Seq<char>,
    audio_target: Option<u64>,
    video: Option<VideoSpec>,
    encoder: VideoEncoder,
    denoise: bool,
)
    ensures
        ({
            let args = recording_tokens(
                platform,
                cfg,
                file_name,
                audio_target,
                video,
                encoder,
                denoise,
            );
            &&& links_sound(args)
            &&& tracks(args) == tracks(video_part(cfg, video, encoder)) + tracks(
                audio_part(platform, cfg, audio_target, denoise),
            )
            &&& tracks(video_part(cfg, video, encoder)) == if video is Some {
                1nat
            } else {
                0
            }
            &&& printable(file_name) && mic_printable(cfg) ==> all_printable(args)
        }),
{
    let first = seq!["-e"@];
    let picture = video_part(cfg, video, encoder);
    let sound = audio_part(platform, cfg, audio_target, denoise);
    lemma_words();
    lemma_file_words();
    lemma_no_tracks(first);
    lemma_no_tracks(muxer(file_name));
    if let Some(spec) = video {
        lemma_picture(spec, encoder, cfg.video_bitrate_kbps as nat);
    }
    lemma_sound(platform, cfg, audio_target, denoise);
    lemma_join(first, picture);
    lemma_join(first + picture, sound);
    lemma_join(first + picture + sound, muxer(file_name));
    assert(links_sound(muxer(file_name)));
    if printable(file_name) {
        assert(all_printable(muxer(file_name)));
    }
}

/// In the arguments of every recording, each link stands between two tokens that are no links:
/// no branch misses an element.
pub proof fn law_recording_links_sound(
    platform: Platform,
    cfg: Config,
    file_name: Seq<char>,
    audio_target: Option<u64>,
    video: Option<VideoSpec>,
    encoder: VideoEncoder,
    denoise: bool,
)
    ensures
        links_sound(
            recording_tokens(
                platform,
                cfg,
                file_name,
                audio_target,
                video,
                encoder,
                denoise,
            ),
        ),
{
    lemma_recording(platform, cfg, file_name, audio_target, video, encoder, denoise);
}

/// The file has a track for the picture, where there is one, and for the sound either a single
/// mixed track or one for each source: that of Discord, where it was found, and the microphone.
/// (The name of the muxer itself is no microphone.)
pub proof fn law_tracks(
    platform: Platform,
    cfg: Config,
    file_name: Seq<char>,
    audio_target: Option<u64>,
    video: Option<VideoSpec>,
    encoder: VideoEncoder,
    denoise: bool,
)
    requires
        mic_choice(cfg) != Some("mux."@),
    ensures
        tracks(
            recording_tokens(platform, cfg, file_name, audio_target, video, encoder, denoise),
        ) == (if video is Some {
            1int
        } else {
            0
        }) + (if cfg.mix_audio || audio_target is None {
            1int
        } else {
            2
        }),
{
    lemma_recording(platform, cfg, file_name, audio_target, video, encoder, denoise);
    lemma_sound(platform, cfg, audio_target, denoise);
}

/// No argument of a recording holds a control character, where neither the name of its file nor
/// the choice of microphone does.
pub proof fn law_recording_is_printable(
    platform: Platform,
    cfg: Config,
    file_name: Seq<char>,
    audio_target: Option<u64>,
    video: Option<VideoSpec>,
    encoder: VideoEncoder,
    denoise: bool,
)
    requires
        printable(file_name),
        mic_printable(cfg),
    ensures
        all_printable(
            recording_tokens(
                platform,
                cfg,
                file_name,
                audio_target,
                video,
                encoder,
                denoise,
            ),
        ),
{
    lemma_recording(platform, cfg, file_name, audio_target, video, encoder, denoise);
}

proof fn lemma_big_queue()
    ensures
        part(big_queue(), 0),
        all_printable(big_queue()),
{
    lemma_words();
    lemma_picture_words();
    lemma_file_words();
    lemma_no_tracks(big_queue());
}

proof fn lemma_video_track(plan: VideoPlan)
    ensures
        links_sound(video_track(plan)),
        tracks(video_track(plan)) == if plan == VideoPlan::Absent {
            0nat
        } else {
            1
        },
        all_printable(video_track(plan)),
{
    let first = seq!["d.video_0"@];
    let end = seq!["h264parse"@, "!"@, "mux."@];
    lemma_words();
    lemma_picture_words();
    lemma_file_words();
    lemma_no_tracks(first);
    lemma_one_track(end);
    lemma_big_queue();
    lemma_join(first, big_queue());
    let queued = linked(first, big_queue());
    match plan {
        VideoPlan::Absent => {},
        VideoPlan::Copy => {
            lemma_join(queued, end);
            assert(video_track(plan) =~= linked(queued, end));
        },
        VideoPlan::Rescale { width, height, encoder, bitrate_kbps } => {
            let sized = seq![
                "h264parse"@,
                "!"@,
                "avdec_h264"@,
                "!"@,
                "videoconvert"@,
                "!"@,
                "videoscale"@,
                "!"@,
                size_caps(width, height),
            ];
            let coded = encoder.launch_tokens(bitrate_kbps as nat);
            lemma_size_caps(width, height);
            lemma_no_tracks(sized);
            lemma_encoder(encoder, bitrate_kbps as nat);
            lemma_join(queued, sized);
            lemma_join(linked(queued, sized), coded);
            lemma_join(linked(linked(queued, sized), coded), end);
            assert(video_track(plan) =~= linked(linked(linked(queued, sized), coded), end));
        },
    }
}

proof fn lemma_audio_track(index: nat, aac: Seq<Seq<char>>)
    ensures
        aac.len() > 0 && links_sound(aac) ==> links_sound(audio_track(index, aac)),
        tracks(audio_track(index, aac)) == tracks(aac) + 1,
        all_printable(aac) ==> all_printable(audio_track(index, aac)),
{
    let first = seq!["d.audio_"@ + decimal(index)];
    let middle = seq!["opusdec"@, "!"@, "audioconvert"@, "!"@, "audioresample"@];
    let end = seq!["aacparse"@, "!"@, "mux."@];
    let queued = linked(first, big_queue());
    let coded = linked(linked(queued, middle), aac);
    assert(part(first, 0) && part(middle, 0) && part(end, 1) && all_printable(first)
        && all_printable(middle) && all_printable(end)) by {
        lemma_words();
        lemma_sound_words();
        lemma_file_words();
        lemma_no_tracks(first);
        lemma_no_tracks(middle);
        lemma_one_track(end);
    }
    lemma_big_queue();
    lemma_join(first, big_queue());
    lemma_join(queued, middle);
    lemma_join(linked(queued, middle), aac);
    lemma_join(coded, end);
    assert(audio_track(index, aac) =~= linked(coded, end));
}

proof fn lemma_audio_tracks(count: nat, aac: Seq<Seq<char>>)
    ensures
        aac.len() > 0 && links_sound(aac) ==> links_sound(audio_tracks_part(count, aac)),
        tracks(aac) == 0 ==> tracks(audio_tracks_part(count, aac)) == count,
        all_printable(aac) ==> all_printable(audio_tracks_part(count, aac)),
    decreases count,
{
    if count > 0 {
        let index = (count - 1) as nat;
        lemma_audio_tracks(index, aac);
        lemma_audio_track(index, aac);
        lemma_join(audio_tracks_part(index, aac), audio_track(index, aac));
    }
}

proof fn lemma_conversion(
    input_name: Seq<char>,
    output_name: Seq<char>,
    plan: VideoPlan,
    audio_tracks: nat,
    aac: Seq<Seq<char>>,
)
    ensures
        ({
            let args = conversion_tokens(input_name, output_name, plan, audio_tracks, aac);
            &&& aac.len() > 0 && links_sound(aac) ==> links_sound(args)
            &&& tracks(aac) == 0 ==> tracks(args) == audio_tracks + if plan == VideoPlan::Absent {
                0nat
            } else {
                1
            }
            &&& printable(input_name) && printable(output_name) && all_printable(aac)
                ==> all_printable(args)
        }),
{
    let head = seq![
        "-e"@,
        "filesrc"@,
        "location="@ + input_name,
        "!"@,
        "matroskademux"@,
        "name=d"@,
    ];
    let end = seq!["qtmux"@, "name=mux"@, "!"@, "filesink"@, "location="@ + output_name];
    let sound = audio_tracks_part(audio_tracks, aac);
    lemma_words();
    lemma_file_words();
    lemma_no_tracks(head);
    lemma_no_tracks(end);
    assert(links_sound(head));
    assert(links_sound(end));
    lemma_video_track(plan);
    lemma_audio_tracks(audio_tracks, aac);
    lemma_join(head, video_track(plan));
    lemma_join(head + video_track(plan), sound);
    lemma_join(head + video_track(plan) + sound, end);
    if printable(input_name) && printable(output_name) {
        assert(all_printable(head));
        assert(all_printable(end));
    }
}

/// In the arguments of every conversion, each link stands between two tokens that are no links,
/// whatever is done to the video and however many audio tracks there are.
pub proof fn law_conversion_links_sound(
    input_name: Seq<char>,
    output_name: Seq<char>,
    plan: VideoPlan,
    audio_tracks: nat,
    aac: Seq<Seq<char>>,
)
    requires
        aac.len() > 0,
        links_sound(aac),
    ensures
        links_sound(conversion_tokens(input_name, output_name, plan, audio_tracks, aac)),
{
    lemma_conversion(input_name, output_name, plan, audio_tracks, aac);
}

/// A conversion loses no track: the file has one for the picture, where there is one, and one for
/// each audio track of the input.
pub proof fn law_conversion_tracks(
    input_name: Seq<char>,
    output_name: Seq<char>,
    plan: VideoPlan,
    audio_tracks: nat,
    aac: Seq<Seq<char>>,
)
    requires
        tracks(aac) == 0,
    ensures
        tracks(conversion_tokens(input_name, output_name, plan, audio_tracks, aac)) == audio_tracks
            + if plan == VideoPlan::Absent {
            0nat
        } else {
            1
        },
{
    lemma_conversion(input_name, output_name, plan, audio_tracks, aac);
}

/// The name of the file that a conversion writes holds no control character where that of its
/// input holds none.
pub proof fn law_converted_name_is_printable(input_name: Seq<char>, target_height: Option<u32>)
    requires
        convertible_name(input_name),
    ensures
        printable(mp4_name_of(input_name, target_height)),
{
    reveal_strlit("_");
    reveal_strlit("p.mp4");
    reveal_strlit(".mp4");
    assert(printable("_"@));
    assert(printable("p.mp4"@));
    assert(printable(".mp4"@));
    lemma_stem_is_safe(input_name);
    assert(printable(stem_or_self(input_name)));
    lemma_words();
}

/// No argument of a conversion holds a control character, where its input has a name that is
/// accepted.
pub proof fn law_conversion_is_printable(
    input_name: Seq<char>,
    target_height: Option<u32>,
    plan: VideoPlan,
    audio_tracks: nat,
    aac: Seq<Seq<char>>,
)
    requires
        convertible_name(input_name),
        all_printable(aac),
    ensures
        all_printable(
            conversion_tokens(
                input_name,
                mp4_name_of(input_name, target_height),
                plan,
                audio_tracks,
                aac,
            ),
        ),
{
    let output_name = mp4_name_of(input_name, target_height);
    law_converted_name_is_printable(input_name, target_height);
    assert(printable(input_name));
    lemma_conversion(input_name, output_name, plan, audio_tracks, aac);
}

/// The AAC encoder that a conversion is given is sound by itself, puts no track into the file and
/// holds no control character.
pub proof fn law_aac_is_sound(available: Seq<bool>, kbps: nat)
    requires
        aac_element(available) is Some,
    ensures
        links_sound(seq![aac_element(available)->0, "bitrate="@ + decimal(kbps)]),
        tracks(seq![aac_element(available)->0, "bitrate="@ + decimal(kbps)]) == 0,
        all_printable(seq![aac_element(available)->0, "bitrate="@ + decimal(kbps)]),
{
    lemma_words();
    lemma_sound_words();
    lemma_no_tracks(seq![aac_element(available)->0, "bitrate="@ + decimal(kbps)]);
}

/// The pinned resolution of a capture has even dimensions, each at most one pixel smaller than
/// the window.
pub proof fn law_pinned_size_is_even(spec: VideoSpec)
    ensures
        match spec {
            VideoSpec::X11Window { width, height, .. } => spec.pinned() matches Some((w, h)) && w
                % 2 == 0 && h % 2 == 0 && w <= width <= w + 1 && h <= height <= h + 1,
            VideoSpec::WinWindow { width, height, .. } => spec.pinned() matches Some((w, h)) && w
                % 2 == 0 && h % 2 == 0 && w <= width <= w + 1 && h <= height <= h + 1,
            VideoSpec::Portal { .. } => spec.pinned() is None,
        },
{
}

/// A scaled width is even; it is at least 2 where the source has a height; and where the exact
/// width fits the type and is at least 2, it is the exact width rounded down to even.
pub proof fn law_scaled_width(src_w: u32, src_h: u32, target_h: u32)
    ensures
        ratio_width(src_w, src_h, target_h) % 2 == 0,
        src_h > 0 ==> ratio_width(src_w, src_h, target_h) >= 2,
        src_h > 0 && 2 <= (src_w * target_h) / (src_h as int) <= u32::MAX ==> {
            let exact = (src_w * target_h) / (src_h as int);
            exact - 1 <= ratio_width(src_w, src_h, target_h) <= exact
        },
{
}

/// The picture never grows: a plan that scales has a smaller height than the source, and no more
/// width than the source (or the least width there is); and it scales only a picture whose size
/// is known.
pub proof fn law_picture_never_grows(
    probe: Probe,
    target_height: Option<u32>,
    encoder: VideoEncoder,
)
    ensures
        plan_for(probe, target_height, encoder) matches VideoPlan::Rescale { width, height, .. }
            ==> probe.has_video && target_height == Some(height) && {
            &&& probe.video_dims matches Some((w, h))
            &&& height < h
            &&& width <= w || width == 2
        },
{
    if shrinks(probe, target_height) {
        let h = target_height.unwrap();
        let (w, sh) = probe.video_dims.unwrap();
        assert((w * h) / (sh as int) <= w) by (nonlinear_arith)
            requires
                h < sh,
                0 <= w,
        ;
    }
}

/// The rate never falls as the picture grows.
pub proof fn law_rate_grows_with_height(a: u32, b: u32)
    requires
        a <= b,
    ensures
        rate_for_height(a) <= rate_for_height(b),
{
}

} // verus!
