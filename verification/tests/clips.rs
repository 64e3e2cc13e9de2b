use discord_rec::clip::{
    build_audio_encode_branch, build_video_encode_branch, check_preroll, drain_error, elapsed_ms,
    live_directory, live_source, live_window, media_duration, plan_clip, wait_for_completion, BusMessage, ClipError,
    Progress, Rebase, Stage, StreamKind, Times, Trim, Verdict, Window,
};
use discord_rec::convert::{rescale_bitrate_kbps, scaled_width};
use discord_rec::encoder::VideoEncoder;
use discord_rec::platform::Platform;

#[test]
fn clip_scaled_width_keeps_ratio_and_even() {
    assert_eq!(scaled_width(1920, 1080, 720), 1280);
    assert_eq!(scaled_width(2647, 1685, 480) % 2, 0);
    assert_eq!(scaled_width(1280, 0, 480), 480);
}

#[test]
fn bitrate_grows_with_height() {
    assert!(rescale_bitrate_kbps(480) < rescale_bitrate_kbps(1080));
    assert_eq!(rescale_bitrate_kbps(2160), 12000);
}

fn shown(stages: &[Stage]) -> String {
    let one = |s: &Stage| match s {
        Stage::Plain(name) => (*name).to_owned(),
        Stage::With(name, properties) => {
            let mut text = (*name).to_owned();
            for (key, value) in properties {
                text.push_str(&format!(" {key}={value}"));
            }
            text
        }
        Stage::RawSize { width, height } => format!("{width}x{height}"),
        Stage::Avc => "avc".to_owned(),
    };
    stages.iter().map(one).collect::<Vec<String>>().join(" ! ")
}

#[test]
fn the_picture_is_reduced_only() {
    let chain = |w, h, t| shown(&build_video_encode_branch(w, h, t, VideoEncoder::Nvenc));
    assert_eq!(
        chain(Some(1920), Some(1080), Some(720)),
        "queue ! videoconvert ! videoscale ! 1280x720 ! nvh264enc bitrate=5000 gop-size=120 ! h264parse ! avc"
    );
    assert_eq!(
        chain(Some(1920), Some(1080), Some(1080)),
        "queue ! videoconvert ! nvh264enc bitrate=8000 gop-size=120 ! h264parse ! avc"
    );
    assert_eq!(
        chain(Some(1920), Some(1080), Some(0)),
        "queue ! videoconvert ! nvh264enc bitrate=8000 gop-size=120 ! h264parse ! avc"
    );
    assert_eq!(
        chain(None, Some(-5), Some(720)),
        "queue ! videoconvert ! nvh264enc bitrate=2500 gop-size=120 ! h264parse ! avc"
    );
}

#[test]
fn the_sound_is_encoded() {
    assert_eq!(
        shown(&build_audio_encode_branch(&[true, true]).ok().unwrap()),
        "queue ! audioconvert ! audioresample ! voaacenc bitrate=160000 ! aacparse"
    );
    assert!(shown(&build_audio_encode_branch(&[false, true]).ok().unwrap()).contains("avenc_aac"));
    assert!(matches!(build_audio_encode_branch(&[]), Err(ClipError::NoAacEncoder)));
}

#[test]
fn kinds_of_streams() {
    assert_eq!(StreamKind::of("video/x-raw"), StreamKind::Video);
    assert_eq!(StreamKind::of("audio/x-raw"), StreamKind::Audio);
    assert_eq!(StreamKind::of("text/x-raw"), StreamKind::Other);
    assert_eq!(StreamKind::Video.inlet(), Some("video_%u"));
    assert_eq!(StreamKind::Audio.inlet(), Some("audio_%u"));
    assert_eq!(StreamKind::Other.inlet(), None);
}

fn times(pts: Option<u64>, dts: Option<u64>) -> Times {
    Times { pts, dts }
}

#[test]
fn streams_are_moved_to_zero() {
    let mut r = Rebase::new(5_000_000_000);
    assert_eq!(r.pass(times(None, None)), None);
    assert_eq!(r.pass(times(Some(1_000_100), Some(1_000_000))), Some(times(Some(100), Some(0))));
    assert_eq!(r.pass(times(Some(1_000_500), None)), Some(times(Some(500), None)));
    assert_eq!(r.pass(times(Some(5), Some(4))), None);
    assert_eq!(r.pass(times(Some(999_999), None)), None);
    assert_eq!(r.pass(times(Some(1_000_000), None)), Some(times(Some(0), None)));
    assert_eq!(r.pass(times(None, Some(9))), None);
    assert_eq!(
        r.pass(times(Some(15_001_000_000), None)),
        Some(times(Some(15_000_000_000), None))
    );
    assert_eq!(r.pass(times(Some(15_001_000_001), None)), None);
    let mut other = Rebase::new(0);
    assert_eq!(other.pass(times(Some(7), None)), Some(times(Some(0), None)));
}

#[test]
fn only_the_window_passes() {
    let mut t = Trim::new(10, 20);
    assert_eq!(t.see(None), Verdict::Pass);
    assert_eq!(t.see(Some(9)), Verdict::Drop);
    assert_eq!(t.see(Some(10)), Verdict::Pass);
    assert_eq!(t.see(Some(19)), Verdict::Pass);
    assert_eq!(t.see(Some(20)), Verdict::DropAndEnd);
    assert_eq!(t.see(Some(21)), Verdict::Drop);
    assert_eq!(t.see(Some(15)), Verdict::Pass);
}

fn error(text: &str) -> BusMessage {
    BusMessage::Error { error: text.to_owned(), debug: Some("d".to_owned()) }
}

fn failed(p: Progress) -> String {
    match p {
        Progress::Failed(e) => e.message(),
        _ => panic!("no failure"),
    }
}

#[test]
fn failures_of_decoding_come_first() {
    assert!(matches!(wait_for_completion(&[], &None), Progress::Running));
    assert!(matches!(wait_for_completion(&[BusMessage::Eos, BusMessage::Other], &Some(BusMessage::Other)), Progress::Running));
    assert!(matches!(wait_for_completion(&[], &Some(BusMessage::Eos)), Progress::Done));
    assert_eq!(failed(wait_for_completion(&[], &Some(error("m")))), "muxage : m (d)");
    assert_eq!(
        failed(wait_for_completion(&[BusMessage::Other, error("x"), error("y")], &Some(BusMessage::Eos))),
        "décodage : x (d)"
    );
    assert_eq!(
        failed(wait_for_completion(&[BusMessage::BridgeError(Some("b".to_owned()))], &None)),
        "b"
    );
    assert_eq!(failed(wait_for_completion(&[BusMessage::BridgeError(None)], &None)), "");
}

#[test]
fn the_first_failure_is_told() {
    assert_eq!(drain_error(&[BusMessage::Eos, error("x"), error("y")]), Some("x (d)".to_owned()));
    let bare = BusMessage::Error { error: "x".to_owned(), debug: None };
    assert_eq!(drain_error(&[bare]), Some("x ()".to_owned()));
    assert_eq!(drain_error(&[BusMessage::Other]), None);
}

fn refused(r: Result<(), ClipError>) -> String {
    match r {
        Ok(()) => panic!("accepted"),
        Err(e) => e.message(),
    }
}

#[test]
fn decoding_has_to_begin() {
    assert!(check_preroll(true, true, 1, None).is_ok());
    assert_eq!(refused(check_preroll(false, true, 1, None)), "décodage → PAUSED : passage à PAUSED échoué");
    assert_eq!(refused(check_preroll(false, true, 1, Some("x".to_owned()))), "décodage → PAUSED : x");
    assert_eq!(refused(check_preroll(true, false, 1, None)), "préroll impossible (fichier illisible ?)");
    assert_eq!(refused(check_preroll(true, false, 1, Some("x".to_owned()))), "x");
    assert_eq!(
        refused(check_preroll(true, true, 0, None)),
        "aucune piste lisible (fichier non média ou corrompu ?)"
    );
}

#[test]
fn clips_are_planned() {
    let plan = |from, to, height, live| {
        plan_clip("discord-a.mkv", true, true, from, to, height, live).ok().unwrap()
    };
    let whole = plan(8_000_000_000, 13_000_000_000, None, false);
    assert_eq!(whole.output_name, "discord-a_clip_8-13s.mp4");
    assert!(whole.seek);
    let live = plan(1_200_000_000, 4_200_000_000, Some(720), true);
    assert_eq!(live.output_name, "discord-a_clip_720p_1.2-4.2s.mp4");
    assert!(!live.seek);
    let missing = plan_clip("a.mkv", false, false, 0, 1, None, false).err().unwrap();
    assert_eq!(missing.message(), "fichier introuvable : a.mkv");
    let short = plan_clip("a.mkv", true, false, 0, 1, None, true).err().unwrap();
    assert_eq!(short.message(), "durée de clip invalide");
}

#[test]
fn lengths_of_files() {
    assert_eq!(media_duration(true, Some(5)).ok(), Some(5));
    assert_eq!(media_duration(false, Some(5)).err().unwrap().message(), "durée inconnue");
    assert_eq!(media_duration(true, None).err().unwrap().message(), "durée inconnue");
}

#[test]
fn live_clips_stop_short_of_the_edge() {
    let w = live_window(1_000, 61_000, 61_000, 30_000).ok().unwrap();
    assert_eq!(w, Window { start_ms: 30_000, duration_ms: 27_000 });
    let after = live_window(1_000, 61_000, 71_000, 30_000).ok().unwrap();
    assert_eq!(after, Window { start_ms: 30_000, duration_ms: 37_000 });
    let whole = live_window(1_000, 11_000, 11_000, 600_000).ok().unwrap();
    assert_eq!(whole, Window { start_ms: 0, duration_ms: 7_000 });
    assert!(live_window(0, 4_000, 4_000, 60_000).is_ok());
    let e = live_window(0, 3_999, 3_999, 60_000).err().unwrap();
    assert_eq!(
        e.message(),
        "enregistrement trop court pour ce clip (réessaie dans quelques secondes)"
    );
    assert!(live_window(0, 60_000, 60_000, 1_000).is_err());
    assert_eq!(elapsed_ms(10, 4), 0);
    assert_eq!(elapsed_ms(4, 10), 6);
}

#[test]
fn live_clips_need_a_recording() {
    let s = live_source(Platform::Linux, Some("/v/a.mkv"), Some(3)).ok().unwrap();
    assert_eq!((s.name.as_str(), s.started_at_ms), ("a.mkv", 3));
    let none = live_source(Platform::Linux, None, Some(3)).err().unwrap();
    assert_eq!(none.message(), "aucun enregistrement en cours à clipper");
    assert!(matches!(live_source(Platform::Linux, Some("/v/a.mkv"), None), Err(ClipError::NothingLive)));
    let odd = live_source(Platform::Linux, Some("/"), Some(3)).err().unwrap();
    assert_eq!(odd.message(), "nom de l'enregistrement en cours illisible");
}

#[test]
fn live_clips_stand_beside_their_recording() {
    assert_eq!(live_directory(Platform::Linux, "/v/a.mkv", "/r"), "/v");
    assert_eq!(live_directory(Platform::Linux, "/a.mkv", "/r"), "/");
    assert_eq!(live_directory(Platform::Linux, "/", "/r"), "/r");
    assert_eq!(live_directory(Platform::Windows, "C:\\v\\a.mkv", "C:\\r"), "C:\\v");
}
