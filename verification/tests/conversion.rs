use discord_rec::convert::{
    aac_candidates, aac_encoder_tokens, build_args, check_input, conclude, failure_detail, finish,
    finish_probe, mp4_name, needs_reencode, parse_dims, read_probe, rescale_bitrate_kbps,
    scaled_width, to_mp4, video_plan, video_probe_args, ConvertError, Probe, TrackSearch,
    VideoPlan,
};
use discord_rec::encoder::VideoEncoder;
use discord_rec::names::stem;

fn aac() -> Vec<String> {
    vec!["voaacenc".to_owned(), "bitrate=160000".to_owned()]
}

#[test]
fn build_args_remux_copies_video_and_transcodes_each_audio() {
    let p = build_args("in.mkv", "in.mp4", &VideoPlan::Copy, 2, &aac()).join(" ");
    assert!(p.starts_with("-e filesrc location=in.mkv ! matroskademux name=d"));
    assert!(p.contains("d.video_0 ! queue max-size-time=0 max-size-bytes=0 max-size-buffers=0 ! h264parse ! mux."));
    assert!(p.contains(
        "d.audio_0 ! queue max-size-time=0 max-size-bytes=0 max-size-buffers=0 ! opusdec ! audioconvert ! audioresample ! voaacenc bitrate=160000 ! aacparse ! mux."
    ));
    assert!(p.contains("d.audio_1 !"));
    assert!(p.ends_with("qtmux name=mux ! filesink location=in.mp4"));
    assert!(!p.contains("! !"), "pipeline mal formé : {p}");
}

#[test]
fn build_args_rescale_reencodes_with_square_pixels() {
    let plan = VideoPlan::Rescale {
        width: 1280,
        height: 720,
        encoder: VideoEncoder::X264,
        bitrate_kbps: 5000,
    };
    let p = build_args("in.mkv", "in_720p.mp4", &plan, 1, &aac()).join(" ");
    assert!(p.contains(
        "h264parse ! avdec_h264 ! videoconvert ! videoscale ! video/x-raw,width=1280,height=720,pixel-aspect-ratio=1/1 ! x264enc bitrate=5000"
    ));
    assert!(p.contains("x264enc bitrate=5000 speed-preset=veryfast tune=zerolatency"));
    assert!(p.contains("! h264parse ! mux."));
    assert!(!p.contains("! !"), "pipeline mal formé : {p}");
}

#[test]
fn build_args_audio_only_has_no_video_branch() {
    let p = build_args("in.mkv", "in.mp4", &VideoPlan::Absent, 1, &aac()).join(" ");
    assert!(!p.contains("video"));
    assert!(p.contains("d.audio_0 !"));
    assert!(!p.contains("! !"), "pipeline mal formé : {p}");
}

#[test]
fn parse_dims_reads_first_pair() {
    let caps = "caps = video/x-h264, width=(int)2646, height=(int)1684, framerate=(fraction)30/1";
    assert_eq!(parse_dims(caps), Some((2646, 1684)));
}

#[test]
fn parse_dims_none_when_absent() {
    assert_eq!(parse_dims("could not link d to fakesink0"), None);
}

#[test]
fn parse_dims_refuses_what_is_no_number() {
    assert_eq!(parse_dims("width=(int)abc, height=(int)10"), None);
    assert_eq!(parse_dims("width=4294967296, height=10"), None);
    assert_eq!(parse_dims("width=4294967295 height=(int)(int)7x"), Some((4_294_967_295, 7)));
}

#[test]
fn convert_scaled_width_keeps_ratio_and_even() {
    assert_eq!(scaled_width(1920, 1080, 720), 1280);
    assert_eq!(scaled_width(2647, 1685, 480) % 2, 0);
}

#[test]
fn scaled_width_edge_cases() {
    assert_eq!(scaled_width(1280, 0, 481), 480);
    assert_eq!(scaled_width(1, 1000, 10), 2);
    assert_eq!(scaled_width(u32::MAX, 1, u32::MAX), u32::MAX - 1);
}

#[test]
fn rates_by_height() {
    assert_eq!(rescale_bitrate_kbps(480), 2500);
    assert_eq!(rescale_bitrate_kbps(481), 5000);
    assert_eq!(rescale_bitrate_kbps(720), 5000);
    assert_eq!(rescale_bitrate_kbps(1080), 8000);
    assert_eq!(rescale_bitrate_kbps(1081), 12000);
}

#[test]
fn stem_strips_extension() {
    assert_eq!(
        stem("discord-2026-06-22_03-06-47.mkv"),
        "discord-2026-06-22_03-06-47"
    );
}

#[test]
fn stem_of_other_names() {
    assert_eq!(stem("archive.tar.gz"), "archive.tar");
    assert_eq!(stem(".hidden"), ".hidden");
    assert_eq!(stem("plain"), "plain");
    assert_eq!(stem(".."), "..");
    assert_eq!(stem("dir/file.mkv"), "file");
}

#[test]
fn mp4_names() {
    assert_eq!(mp4_name("discord-a.mkv", None), "discord-a.mp4");
    assert_eq!(mp4_name("discord-a.mkv", Some(720)), "discord-a_720p.mp4");
}

#[test]
fn the_picture_only_shrinks() {
    let probe = Probe { has_video: true, video_dims: Some((1920, 1080)), audio_tracks: 1 };
    assert!(needs_reencode(&probe, Some(720)));
    assert!(!needs_reencode(&probe, Some(1080)));
    assert!(!needs_reencode(&probe, None));
    assert_eq!(
        video_plan(&probe, Some(720), VideoEncoder::Nvenc),
        VideoPlan::Rescale {
            width: 1280,
            height: 720,
            encoder: VideoEncoder::Nvenc,
            bitrate_kbps: 5000
        }
    );
    assert_eq!(video_plan(&probe, Some(2160), VideoEncoder::X264), VideoPlan::Copy);
    let unknown = Probe { has_video: true, video_dims: None, audio_tracks: 1 };
    assert_eq!(video_plan(&unknown, Some(720), VideoEncoder::X264), VideoPlan::Copy);
    let silent = Probe { has_video: false, video_dims: None, audio_tracks: 1 };
    assert_eq!(video_plan(&silent, Some(720), VideoEncoder::X264), VideoPlan::Absent);
}

#[test]
fn a_whole_conversion() {
    let probe = finish_probe(true, "width=(int)1920, height=(int)1080", 2).unwrap();
    assert_eq!(probe.video_dims, Some((1920, 1080)));
    let plan = to_mp4("a.mkv", &probe, Some(480), VideoEncoder::Vaapi, &aac());
    assert_eq!(plan.output_name, "a_480p.mp4");
    let line = plan.args.join(" ");
    assert!(line.contains("video/x-raw,width=852,height=480,pixel-aspect-ratio=1/1 ! vah264enc bitrate=2500 key-int-max=120 ! h264parse ! mux."));
    assert!(line.ends_with("filesink location=a_480p.mp4"));
    assert_eq!(plan.args.iter().filter(|t| t.as_str() == "mux.").count(), 3);
    assert!(!line.chars().any(char::is_control));
}

#[test]
fn an_input_without_tracks_is_refused() {
    let e = finish_probe(false, "", 0).unwrap_err();
    assert_eq!(e.message(), "aucune piste lisible (fichier non MKV ou corrompu ?)");
    assert!(finish_probe(false, "", 1).is_ok());
    assert!(finish_probe(true, "", 0).is_ok());
    let raw = read_probe(true, b"\xff width=(int)1920, height=(int)1080\xe9", 1).unwrap();
    assert_eq!((raw.video_dims, raw.audio_tracks), (Some((1920, 1080)), 1));
    assert!(read_probe(false, b"", 0).is_err());
}

#[test]
fn tracks_are_probed_until_one_is_missing() {
    let mut search = TrackSearch::new();
    assert_eq!(search.next("a.mkv").unwrap().join(" "), "filesrc location=a.mkv blocksize=65536 num-buffers=64 ! matroskademux name=d d.audio_0 ! fakesink");
    search.answer(true);
    assert!(search.next("a.mkv").unwrap().join(" ").ends_with("d.audio_1 ! fakesink"));
    search.answer(false);
    assert!(search.next("a.mkv").is_none());
    assert_eq!(search.found, 1);
    let mut many = TrackSearch::new();
    while many.next("a.mkv").is_some() {
        many.answer(true);
    }
    assert_eq!(many.found, 16);
}

#[test]
fn the_first_aac_encoder_is_taken() {
    assert_eq!(aac_candidates(), vec!["voaacenc", "avenc_aac"]);
    assert_eq!(aac_encoder_tokens(&[true, true], 160).unwrap(), aac());
    assert_eq!(
        aac_encoder_tokens(&[false, true], 160).unwrap(),
        vec!["avenc_aac".to_owned(), "bitrate=160000".to_owned()]
    );
    let e = aac_encoder_tokens(&[false, false], 160).unwrap_err();
    assert_eq!(e, ConvertError::NoAacEncoder);
    assert_eq!(e.message(), "aucun encodeur AAC disponible (voaacenc / avenc_aac)");
}

#[test]
fn a_failed_conversion_tells_its_last_two_lines() {
    assert_eq!(failure_detail("first\n\n  \nsecond\r\nthird\n"), "second — third");
    assert_eq!(failure_detail("only\n"), "only");
    assert_eq!(failure_detail("\n \n"), "");
    let e = conclude(false, "a\nb\nc", "x.mp4".to_owned()).unwrap_err();
    assert_eq!(e.message(), "la conversion a échoué : b — c");
    assert_eq!(conclude(true, "", "x.mp4".to_owned()).unwrap(), "x.mp4");
    let raw = finish(false, b"a\nb\xff\nc\n", "x.mp4".to_owned()).unwrap_err();
    let said = conclude(false, "a\nb\u{fffd}\nc\n", "x.mp4".to_owned()).unwrap_err();
    assert_eq!(raw.message(), said.message());
    assert_eq!(finish(true, b"\xff", "x.mp4".to_owned()).unwrap(), "x.mp4");
}

#[test]
fn a_missing_input_is_named() {
    assert!(check_input("a.mkv", true).is_ok());
    let e = check_input("a.mkv", false).unwrap_err();
    assert_eq!(e.message(), "fichier introuvable : a.mkv");
}

#[test]
fn the_video_track_is_probed_first() {
    assert_eq!(
        video_probe_args("a.mkv").join(" "),
        "-v filesrc location=a.mkv blocksize=65536 num-buffers=64 ! matroskademux name=d d.video_0 ! fakesink"
    );
}
