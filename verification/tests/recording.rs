use discord_rec::config::Config;
use discord_rec::encoder::{detect_encoder, encoder_candidates, next_candidate, VideoEncoder};
use discord_rec::platform::Platform;
use discord_rec::process::{
    begin_stop, continue_stop, gst_tool, gst_tool_places, inherit_video, Inherit, StopPhase,
};
use discord_rec::process::StopPhase::{Drain, Interrupt, Kill, Over, Wait};
use discord_rec::recorder::{RecordError, Recording, VideoSpec};

fn line(
    platform: Platform,
    cfg: &Config,
    audio: Option<u64>,
    video: Option<VideoSpec>,
    encoder: VideoEncoder,
    denoise: bool,
) -> String {
    Recording::start(platform, cfg, "a.mkv", audio, video, encoder, denoise).unwrap().join(" ")
}

#[test]
fn a_mixed_recording_of_an_x11_window() {
    let cfg = Config::default();
    let video = VideoSpec::X11Window { xid: 7, framerate: 30, width: 1921, height: 1081 };
    assert_eq!(
        line(Platform::Linux, &cfg, Some(42), Some(video), VideoEncoder::Nvenc, false),
        "-e ximagesrc xid=7 use-damage=0 ! video/x-raw,framerate=30/1 ! queue ! videoconvert ! videoscale ! video/x-raw,width=1920,height=1080,pixel-aspect-ratio=1/1 ! nvh264enc bitrate=8000 gop-size=120 ! h264parse ! queue ! mux. audiomixer name=amix ! audioconvert ! opusenc bitrate=128000 ! queue ! mux. pipewiresrc target-object=42 do-timestamp=true ! queue ! audioconvert ! audioresample ! amix. pipewiresrc do-timestamp=true ! queue ! audioconvert ! audioresample ! amix. matroskamux name=mux ! filesink location=a.mkv"
    );
}

#[test]
fn separate_tracks_with_noise_reduction() {
    let cfg = Config { mix_audio: false, mic_target: Some("5".to_owned()), ..Config::default() };
    assert_eq!(
        line(Platform::Linux, &cfg, Some(42), None, VideoEncoder::X264, true),
        "-e pipewiresrc target-object=42 do-timestamp=true ! queue ! audioconvert ! audioresample ! opusenc bitrate=128000 ! queue ! mux. pipewiresrc target-object=5 do-timestamp=true ! queue ! audioconvert ! audioresample ! audio/x-raw,rate=48000 ! webrtcdsp echo-cancel=false noise-suppression=true noise-suppression-level=moderate high-pass-filter=true ! audioconvert ! audioresample ! opusenc bitrate=128000 ! queue ! mux. matroskamux name=mux ! filesink location=a.mkv"
    );
}

#[test]
fn the_portal_and_windows() {
    let cfg = Config::default();
    let portal = line(
        Platform::Linux, &cfg, None, Some(VideoSpec::Portal { node_id: 9 }), VideoEncoder::Vaapi, false,
    );
    assert!(portal.starts_with("-e pipewiresrc fd=3 path=9 do-timestamp=true ! queue ! videoconvert ! vah264enc bitrate=8000 key-int-max=120 ! h264parse"));
    let win = VideoSpec::WinWindow { hwnd: 3, framerate: 60, width: 100, height: 50 };
    let text = line(Platform::Windows, &cfg, Some(8), Some(win), VideoEncoder::MediaFoundation, false);
    assert!(text.starts_with("-e d3d11screencapturesrc window-handle=3 show-cursor=true ! video/x-raw,framerate=60/1 ! d3d11download ! queue ! videoconvert ! videoscale ! video/x-raw,width=100,height=50,pixel-aspect-ratio=1/1 ! mfh264enc bitrate=8000 ! h264parse"));
    assert!(text.contains("wasapi2src loopback=true loopback-mode=include-process-tree loopback-target-pid=8 do-timestamp=true"));
    for args in [portal, text] {
        assert!(!args.contains("! !"));
    }
}

#[test]
fn nothing_to_record() {
    let e = Recording::start(
        Platform::Linux, &Config::default(), "a.mkv", None, None, VideoEncoder::X264, false,
    ).unwrap_err();
    assert_eq!(e, RecordError::NothingToRecord);
    assert_eq!(e.message(), "rien à enregistrer (aucun flux Discord trouvé)");
}

#[test]
fn sizes_are_pinned_to_even_numbers() {
    let x11 = VideoSpec::X11Window { xid: 1, framerate: 30, width: 2647, height: 1685 };
    assert_eq!(x11.pinned_size(), Some((2646, 1684)));
    assert_eq!(VideoSpec::Portal { node_id: 1 }.pinned_size(), None);
}

#[test]
fn the_best_encoder_is_taken() {
    assert_eq!(
        encoder_candidates(Platform::Linux),
        vec![VideoEncoder::Nvenc, VideoEncoder::Vaapi]
    );
    assert_eq!(encoder_candidates(Platform::Windows).len(), 4);
    assert_eq!(detect_encoder(Platform::Linux, &[false, true]), VideoEncoder::Vaapi);
    assert_eq!(detect_encoder(Platform::Linux, &[true, true]), VideoEncoder::Nvenc);
    assert_eq!(detect_encoder(Platform::Linux, &[false, false]), VideoEncoder::X264);
    assert_eq!(
        detect_encoder(Platform::Windows, &[false, false, true, true]),
        VideoEncoder::Amf
    );
}

#[test]
fn labels_and_settings_of_encoders() {
    for (encoder, label, element, settings) in [
        (VideoEncoder::Nvenc, "NVENC (GPU NVIDIA)", "nvh264enc", "bitrate=9 gop-size=120"),
        (VideoEncoder::Vaapi, "VA-API (GPU)", "vah264enc", "bitrate=9 key-int-max=120"),
        (VideoEncoder::Qsv, "Quick Sync (GPU Intel)", "qsvh264enc", "bitrate=9 gop-size=120"),
        (VideoEncoder::Amf, "AMF (GPU AMD)", "amfh264enc", "bitrate=9 gop-size=120"),
        (VideoEncoder::MediaFoundation, "Media Foundation", "mfh264enc", "bitrate=9"),
        (VideoEncoder::X264, "x264 (CPU)", "x264enc", "bitrate=9 speed-preset=veryfast tune=zerolatency key-int-max=120"),
    ] {
        assert_eq!(encoder.label(), label);
        let set: Vec<String> =
            encoder.properties(9).iter().map(|(k, v)| format!("{k}={v}")).collect();
        assert_eq!(set.join(" "), settings);
        let mut args: Vec<String> = Vec::new();
        encoder.push_args(&mut args, 9);
        assert_eq!(args.join(" "), format!("{element} {settings}"));
    }
}

#[test]
fn programs_are_looked_for() {
    let env = [Some("D:\\gst\\".to_owned()), None, Some("E:\\g".to_owned())];
    let places = gst_tool_places(Platform::Windows, "gst-launch-1.0", &env);
    assert_eq!(
        places,
        vec![
            "D:\\gst\\bin\\gst-launch-1.0.exe",
            "E:\\g\\bin\\gst-launch-1.0.exe",
            "C:\\gstreamer\\1.0\\msvc_x86_64\\bin\\gst-launch-1.0.exe",
            "C:\\gstreamer\\1.0\\mingw_x86_64\\bin\\gst-launch-1.0.exe",
        ]
    );
    assert!(gst_tool_places(Platform::Linux, "gst-launch-1.0", &env).is_empty());
    assert_eq!(gst_tool("x", &places, &[false, true, true]), places[1]);
    assert_eq!(gst_tool("x", &places, &[false, false, false, false]), "x");
    assert_eq!(gst_tool("x", &[], &[]), "x");
}

#[test]
fn the_stream_of_the_portal_is_inherited() {
    assert_eq!(inherit_video(None), Inherit::Nothing);
    assert_eq!(inherit_video(Some(3)), Inherit::KeepOpen);
    assert_eq!(inherit_video(Some(7)), Inherit::Duplicate);
}

#[test]
fn an_orderly_end_comes_first() {
    let run = |platform: Platform, running: bool, answers: &[bool]| {
        let mut seen: Vec<StopPhase> = vec![begin_stop(platform, running)];
        for ok in answers {
            let last = seen[seen.len() - 1];
            seen.push(continue_stop(platform, last, *ok));
        }
        seen
    };
    assert_eq!(run(Platform::Linux, true, &[true, true]), vec![Interrupt, Wait, Over]);
    assert_eq!(run(Platform::Linux, true, &[false, false, true]), vec![Interrupt, Wait, Kill, Over]);
    assert_eq!(run(Platform::Linux, false, &[]), vec![Over]);
    assert_eq!(run(Platform::Windows, true, &[true, true]), vec![Interrupt, Wait, Over]);
    assert_eq!(
        run(Platform::Windows, true, &[true, false, true, true]),
        vec![Interrupt, Wait, Kill, Drain, Over]
    );
    assert_eq!(
        run(Platform::Windows, true, &[false, true, false]),
        vec![Interrupt, Kill, Drain, Over]
    );
    assert_eq!(run(Platform::Windows, false, &[true, true]), vec![Kill, Drain, Over]);
}

#[test]
fn tracks_of_a_recording() {
    let tracks = |cfg: &Config, audio: Option<u64>, video: Option<VideoSpec>| {
        Recording::start(Platform::Linux, cfg, "a.mkv", audio, video, VideoEncoder::X264, true)
            .unwrap()
            .iter()
            .filter(|t| t.as_str() == "mux.")
            .count()
    };
    let mixed = Config::default();
    let apart = Config { mix_audio: false, ..Config::default() };
    let portal = Some(VideoSpec::Portal { node_id: 1 });
    assert_eq!(tracks(&mixed, Some(1), portal), 2);
    assert_eq!(tracks(&mixed, Some(1), None), 1);
    assert_eq!(tracks(&apart, Some(1), portal), 3);
    assert_eq!(tracks(&apart, None, portal), 2);
}

#[test]
fn candidates_are_asked_for_until_one_is_there() {
    assert_eq!(next_candidate(2, &[]), Some(0));
    assert_eq!(next_candidate(2, &[false]), Some(1));
    assert_eq!(next_candidate(2, &[false, false]), None);
    assert_eq!(next_candidate(3, &[false, true]), None);
    assert_eq!(next_candidate(0, &[]), None);
    for more in [vec![], vec![false, true], vec![true, true]] {
        let all = [vec![false, true], more].concat();
        assert_eq!(detect_encoder(Platform::Windows, &all), VideoEncoder::Qsv);
    }
}

#[test]
fn no_control_character_is_handed_on() {
    let cfg = Config { mic_target: Some("61".to_owned()), mix_audio: false, ..Config::default() };
    let video = VideoSpec::WinWindow { hwnd: 5, framerate: 60, width: 9, height: 9 };
    for platform in [Platform::Linux, Platform::Windows] {
        let args = line(platform, &cfg, Some(4), Some(video), VideoEncoder::X264, true);
        assert!(!args.chars().any(char::is_control));
    }
}
