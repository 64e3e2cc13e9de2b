use discord_rec::config::Config;
use discord_rec::encoder::VideoEncoder;
use discord_rec::platform::Platform;
use discord_rec::portal::{acquire, Answer, Granted};
use discord_rec::recorder::{Recording, VideoSpec};
use discord_rec::service::{
    choose_portal, choose_window, choose_x11, now_unix_ms, observe, plan_recording, saved,
    start_recording, unix_ms, Action, Input, Quit, Shared, Watch,
};
use discord_rec::voice::Snapshot;
use discord_rec::win::WinWindow;
use discord_rec::x11::DiscordWindow;

fn recording() -> Recording {
    Recording {
        file: "/v/discord-a.mkv".to_owned(),
        has_video: true,
        encoder: VideoEncoder::Nvenc,
        started_at_ms: 5,
    }
}

fn input(in_voice: bool, enabled: bool, force: bool) -> Input {
    Input { in_voice, enabled, force, stop_debounce_s: 3 }
}

fn recording_watch(manual: bool) -> Watch {
    Watch { current: Some(recording()), manual, absent_ticks: 0, cooldown: 0 }
}

const VOICE: Snapshot = Snapshot { in_voice: true, audio_target: Some(3) };

#[test]
fn a_voice_session_begins_a_recording() {
    let mut w = Watch::new();
    assert!(matches!(w.step(&input(false, true, false)), Action::Wait));
    assert!(matches!(w.step(&input(true, false, false)), Action::Wait));
    assert!(matches!(w.step(&input(true, true, false)), Action::Start { manual: false }));
    assert!(matches!(w.step(&input(true, true, true)), Action::Start { manual: false }));
    assert!(matches!(w.step(&input(false, true, true)), Action::Start { manual: true }));
    assert!(matches!(w.step(&input(true, false, true)), Action::Start { manual: true }));
}

#[test]
fn the_end_of_a_voice_session_is_waited_out() {
    let mut w = recording_watch(false);
    assert!(matches!(w.step(&input(false, true, false)), Action::Wait));
    assert!(matches!(w.step(&input(false, true, false)), Action::Wait));
    assert!(matches!(w.step(&input(true, true, false)), Action::Wait));
    assert!(matches!(w.step(&input(false, true, false)), Action::Wait));
    assert!(matches!(w.step(&input(false, true, false)), Action::Wait));
    let last = w.step(&input(false, true, false));
    assert!(matches!(last, Action::Stop(rec) if rec == recording()));
    assert!(w.current.is_none());
    assert!(matches!(w.step(&input(false, true, false)), Action::Wait));
}

#[test]
fn every_return_starts_the_wait_anew() {
    let mut w = recording_watch(false);
    for here in [false, false, true, false, true, true, false, false] {
        assert!(matches!(w.step(&input(here, true, false)), Action::Wait));
        assert_eq!(w.current, Some(recording()));
    }
    assert_eq!(w.absent_ticks, 2);
    let patient = Input { stop_debounce_s: 4, ..input(false, true, false) };
    assert!(matches!(w.step(&patient), Action::Wait));
    assert!(matches!(w.step(&patient), Action::Stop(rec) if rec == recording()));
    assert_eq!(w.current, None);
    let mut off = recording_watch(false);
    assert!(matches!(off.step(&input(false, true, false)), Action::Wait));
    assert!(matches!(off.step(&input(true, false, false)), Action::Stop(_)));
}

#[test]
fn letting_go_ends_at_once() {
    let mut manual = recording_watch(true);
    assert!(matches!(manual.step(&input(false, true, false)), Action::Stop(_)));
    assert!(!manual.manual);
    let mut disabled = recording_watch(false);
    assert!(matches!(disabled.step(&input(true, false, false)), Action::Stop(_)));
}

#[test]
fn a_failure_is_followed_by_a_pause() {
    let mut shared = Shared::new(Config::default());
    let mut w = Watch::new();
    w.start_failed(&mut shared, "x");
    assert_eq!(shared.status.last_error.as_deref(), Some("démarrage impossible : x"));
    for _ in 0..10 {
        assert!(matches!(w.step(&input(true, true, false)), Action::Wait));
    }
    assert!(matches!(w.step(&input(true, true, false)), Action::Start { .. }));
}

#[test]
fn an_end_by_itself_is_an_error() {
    let mut shared = Shared::new(Config::default());
    let mut w = recording_watch(true);
    let t = w.tick(&mut shared, Ok(VOICE), Some("exit status: 1".to_owned()));
    assert!(t.interrupted);
    assert!(matches!(t.action, Action::Wait));
    assert!(w.current.is_none());
    assert_eq!(w.cooldown, 9);
    assert_eq!(
        shared.status.last_error.as_deref(),
        Some("l'enregistreur s'est arrêté de façon inattendue (exit status: 1) — voir .gstreamer.log")
    );
    let mut idle = Watch::new();
    let t = idle.tick(&mut shared, Ok(VOICE), Some("x".to_owned()));
    assert!(!t.interrupted);
    assert!(matches!(t.action, Action::Start { manual: false }));
}

#[test]
fn an_unreadable_voice_state_is_none() {
    let mut shared = Shared::new(Config::default());
    let mut w = Watch::new();
    let t = w.tick(&mut shared, Err("bad".to_owned()), None);
    assert_eq!(t.snap, Snapshot::default());
    assert!(matches!(t.action, Action::Wait));
    assert_eq!(shared.status.last_error.as_deref(), Some("détection vocale : bad"));
    assert_eq!(observe(&mut shared, Ok(VOICE)), VOICE);
}

#[test]
fn quitting_hands_out_the_recording() {
    let mut shared = Shared::new(Config::default());
    let mut w = recording_watch(false);
    assert!(matches!(w.check_quit(&shared), Quit::GoOn));
    shared.quit_app();
    assert!(matches!(w.check_quit(&shared), Quit::Exit(Some(_))));
    assert!(matches!(w.check_quit(&shared), Quit::Exit(None)));
}

#[test]
fn what_follows_a_start_and_an_end() {
    let mut shared = Shared::new(Config { keep_only_last: true, auto_mp4: true, ..Config::default() });
    let mut w = Watch::new();
    let begun = w.started(&shared, Platform::Linux, recording(), true);
    assert_eq!(begun.title, "discord-a.mkv");
    assert!(begun.replaces);
    assert!(w.manual && w.current == Some(recording()));
    shared.set_error(Some("e".to_owned()));
    let end = saved(&mut shared, Platform::Linux, "/v/discord-a.mkv");
    assert_eq!(end.title, "discord-a.mkv");
    assert_eq!(end.convert.as_deref(), Some("discord-a.mkv"));
    assert_eq!(shared.status.last_error, None);
    shared.config.auto_mp4 = false;
    assert_eq!(saved(&mut shared, Platform::Linux, "/v/discord-a.mkv").convert, None);
}

#[test]
fn the_status_follows() {
    let mut shared = Shared::new(Config { enabled: false, ..Config::default() });
    assert!(!shared.enabled && !shared.force && !shared.quit);
    shared.set_enabled(true);
    assert!(shared.config.enabled);
    assert!(shared.get_status().enabled);
    assert!(!shared.status.enabled);
    shared.set_force_recording(true);
    shared.set_error(Some("e".to_owned()));
    let rec = recording();
    let status = shared.publish(&VOICE, Some(&rec));
    assert!(status.enabled && status.forced && status.in_voice && status.recording && status.video_active);
    assert_eq!(status.encoder.as_deref(), Some("NVENC (GPU NVIDIA)"));
    assert_eq!(status.file.as_deref(), Some("/v/discord-a.mkv"));
    assert_eq!(status.started_at_ms, Some(5));
    assert_eq!(status.last_error.as_deref(), Some("e"));
    assert_eq!(status.output_dir, "./discord-rec");
    let silent = Recording { has_video: false, ..recording() };
    let status = shared.publish(&VOICE, Some(&silent));
    assert!(status.recording && !status.video_active);
    assert_eq!(status.encoder, None);
    let status = shared.publish(&Snapshot::default(), None);
    assert!(!status.recording && !status.in_voice);
    assert_eq!((status.file, status.started_at_ms), (None, None));
    assert_eq!(shared.config_snapshot(), shared.config);
}

#[test]
fn times_in_milliseconds() {
    assert_eq!(unix_ms(Some(12)), 12);
    assert_eq!(unix_ms(Some(u128::MAX)), u64::MAX);
    assert_eq!(unix_ms(None), 0);
    assert_eq!(now_unix_ms(Some(12)), Some(12));
    assert_eq!(now_unix_ms(Some(u128::MAX)), None);
    assert_eq!(now_unix_ms(None), None);
}

#[test]
fn the_x11_window_comes_first() {
    let cfg = Config::default();
    let mut shared = Shared::new(cfg.clone());
    let win = DiscordWindow { xid: 8, width: 100, height: 50 };
    shared.set_error(Some("e".to_owned()));
    assert_eq!(
        choose_x11(&mut shared, &cfg, Ok(Some(win))),
        Some(VideoSpec::X11Window { xid: 8, framerate: 30, width: 100, height: 50 })
    );
    assert_eq!(shared.status.last_error, None);
    assert_eq!(choose_x11(&mut shared, &cfg, Ok(None)), None);
    assert_eq!(shared.status.last_error, None);
    assert_eq!(choose_x11(&mut shared, &cfg, Err("no".to_owned())), None);
    assert_eq!(shared.status.last_error.as_deref(), Some("recherche fenêtre X11 : no"));
}

#[test]
fn the_portal_gives_a_token() {
    let cfg = Config::default();
    let mut shared = Shared::new(cfg.clone());
    let granted = Granted { node_id: 4, restore_token: Some("t".to_owned()) };
    let choice = choose_portal(&mut shared, &cfg, Ok(granted));
    assert_eq!(choice.picture, Some(VideoSpec::Portal { node_id: 4 }));
    assert!(choice.save);
    assert_eq!(shared.config.restore_token.as_deref(), Some("t"));
    let cfg = shared.config_snapshot();
    let again = Granted { node_id: 5, restore_token: Some("t".to_owned()) };
    assert!(!choose_portal(&mut shared, &cfg, Ok(again)).save);
    let refused = choose_portal(&mut shared, &cfg, Err("refus".to_owned()));
    assert_eq!(refused.picture, None);
    assert_eq!(
        shared.status.last_error.as_deref(),
        Some("vidéo indisponible (refus) — audio seul")
    );
}

#[test]
fn answers_of_the_portal() {
    let text = |a| match acquire(a) {
        Ok(_) => panic!("granted"),
        Err(e) => e,
    };
    let cause = || "c".to_owned();
    assert_eq!(text(Answer::TimedOut(cause())), "popup du portail restée sans réponse (120 s): c");
    assert_eq!(text(Answer::Interrupted(cause())), "la tâche du portail s'est interrompue: c");
    assert_eq!(text(Answer::Refused(cause())), "le portail ScreenCast a refusé: c");
    assert_eq!(
        text(Answer::Streams { nodes: vec![], restore_token: None }),
        "le portail ScreenCast a refusé: aucune fenêtre sélectionnée"
    );
    let granted = acquire(Answer::Streams { nodes: vec![7, 8], restore_token: None }).ok().unwrap();
    assert_eq!(granted.node_id, 7);
}

#[test]
fn the_window_on_windows() {
    let cfg = Config::default();
    let mut shared = Shared::new(cfg.clone());
    let win = WinWindow { hwnd: 8, width: 100, height: 50 };
    assert_eq!(
        choose_window(&mut shared, &cfg, Ok(Some(win))),
        Some(VideoSpec::WinWindow { hwnd: 8, framerate: 30, width: 100, height: 50 })
    );
    assert_eq!(choose_window(&mut shared, &cfg, Ok(None)), None);
    assert_eq!(
        shared.status.last_error.as_deref(),
        Some("fenêtre Discord introuvable — audio seul")
    );
    assert_eq!(choose_window(&mut shared, &cfg, Err("x".to_owned())), None);
    assert_eq!(shared.status.last_error.as_deref(), Some("recherche fenêtre Discord : x"));
}

#[test]
fn a_recording_is_planned() {
    let cfg = Config { mic_denoise: true, ..Config::default() };
    let mut shared = Shared::new(cfg.clone());
    let launch = start_recording(
        &mut shared, Platform::Linux, &cfg, &VOICE, None, VideoEncoder::X264, false,
    ).ok().unwrap();
    assert!(launch.file_name.starts_with("discord-") && launch.file_name.ends_with(".mkv"));
    let line = launch.args.join(" ");
    assert!(line.ends_with(&format!("location={}", launch.file_name)));
    assert!(!line.contains("webrtcdsp"));
    assert_eq!(
        shared.status.last_error.as_deref(),
        Some("réduction de bruit indisponible (plugin webrtcdsp absent) — micro non filtré")
    );
    let launch = plan_recording(
        &mut shared, Platform::Linux, &cfg, "a.mkv".to_owned(), &VOICE, None, VideoEncoder::X264, true,
    ).ok().unwrap();
    assert!(launch.args.join(" ").contains("webrtcdsp"));
    let nothing = plan_recording(
        &mut shared, Platform::Linux, &cfg, "a.mkv".to_owned(), &Snapshot::default(), None, VideoEncoder::X264, true,
    );
    assert!(nothing.is_err());
}
