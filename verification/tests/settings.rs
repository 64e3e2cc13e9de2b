use discord_rec::config::{default_videos_dir, Config, ConfigError};
use discord_rec::platform::Platform;

#[test]
fn sanitize_clamps_user_values() {
    let mut cfg = Config {
        video_bitrate_kbps: 1,
        audio_bitrate_kbps: 9999,
        framerate: 0,
        stop_debounce_s: 0,
        ..Config::default()
    };
    cfg.sanitize();
    assert_eq!(cfg.video_bitrate_kbps, 500);
    assert_eq!(cfg.audio_bitrate_kbps, 510);
    assert_eq!(cfg.framerate, 5);
    assert_eq!(cfg.stop_debounce_s, 1);
}

#[test]
fn defaults_are_already_sane() {
    let mut cfg = Config::default();
    let before = cfg.clone();
    cfg.sanitize();
    assert_eq!(before, cfg);
}

#[test]
fn upper_bounds_and_blank_microphones() {
    let mut cfg = Config {
        video_bitrate_kbps: 1_000_000,
        audio_bitrate_kbps: 0,
        framerate: 61,
        stop_debounce_s: 121,
        mic_target: Some(" \t".to_owned()),
        ..Config::default()
    };
    cfg.sanitize();
    assert_eq!(cfg.video_bitrate_kbps, 20_000);
    assert_eq!(cfg.audio_bitrate_kbps, 32);
    assert_eq!(cfg.framerate, 60);
    assert_eq!(cfg.stop_debounce_s, 120);
    assert_eq!(cfg.mic_target, None);
    let once = cfg.clone();
    cfg.sanitize();
    assert_eq!(cfg, once);
}

#[test]
fn default_values() {
    let cfg = Config::default();
    assert_eq!(cfg.output_dir, "./discord-rec");
    assert!(cfg.video && cfg.mix_audio && cfg.enabled);
    assert_eq!(
        (cfg.video_bitrate_kbps, cfg.audio_bitrate_kbps, cfg.framerate, cfg.stop_debounce_s),
        (8000, 128, 30, 3)
    );
    assert_eq!(cfg.mic_target, None);
    assert_eq!(cfg.restore_token, None);
}

#[test]
fn videos_directory() {
    let some = |s: &str| Some(s.to_owned());
    assert_eq!(default_videos_dir(some("/v"), some("/h/Videos")), "/v");
    assert_eq!(default_videos_dir(None, some("/h/Videos")), "/h/Videos");
    assert_eq!(default_videos_dir(None, None), ".");
}

#[test]
fn saved_settings_are_loaded_and_sanitized() {
    let saved = Config { framerate: 500, ..Config::default() };
    assert_eq!(Config::load(Some(saved), "/x".to_owned()).framerate, 60);
    let fresh = Config::load(None, "/x".to_owned());
    assert_eq!(fresh.output_dir, "/x");
    assert_eq!(fresh.framerate, 30);
}

#[test]
fn the_interface_keeps_the_token() {
    let mut cfg = Config { restore_token: Some("t".to_owned()), ..Config::default() };
    let mut ui = cfg.get_config();
    ui.framerate = 1000;
    ui.output_dir = "/abs".to_owned();
    assert!(cfg.set_config(Platform::Linux, ui).is_ok());
    assert_eq!(cfg.framerate, 60);
    assert_eq!(cfg.output_dir, "/abs");
    assert_eq!(cfg.restore_token, Some("t".to_owned()));
    cfg.reset_window_token();
    assert_eq!(cfg.restore_token, None);
}

#[test]
fn unchanged_settings_stay() {
    let mut cfg = Config { output_dir: "C:\\v".to_owned(), ..Config::default() };
    let before = cfg.clone();
    let ui = cfg.get_config();
    assert!(cfg.set_config(Platform::Windows, ui).is_ok());
    assert_eq!(cfg, before);
}

#[test]
fn a_relative_directory_is_refused() {
    let mut cfg = Config::default();
    let before = cfg.clone();
    let mut ui = cfg.get_config();
    ui.framerate = 12;
    ui.output_dir = "videos".to_owned();
    let e = cfg.set_config(Platform::Linux, ui).unwrap_err();
    assert_eq!(e, ConfigError::RelativeOutputDir);
    assert_eq!(e.message(), "le dossier de sortie doit être un chemin absolu");
    assert_eq!(cfg, before);
}
