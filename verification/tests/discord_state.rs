use discord_rec::json::parse_items;
use discord_rec::mics::{
    extract_device_token, list, list_devices, parse_device_monitor, parse_pw_sources,
};
use discord_rec::pw;
use discord_rec::voice;
use discord_rec::win;
use discord_rec::x11::{find_discord_window, parse_xwininfo_tree, DiscordWindow};

#[test]
fn lists_only_audio_sources() {
    let objects = parse_items(
        br#"[
            {"type":"PipeWire:Interface:Node","info":{"props":{
                "media.class":"Audio/Source","object.serial":61,
                "node.description":"Micro USB Blue Yeti"}}},
            {"type":"PipeWire:Interface:Node","info":{"props":{
                "media.class":"Audio/Sink","object.serial":62,
                "node.description":"Casque"}}},
            {"type":"PipeWire:Interface:Port","info":{"props":{}}}
        ]"#,
    )
    .expect("json");
    let mics = parse_pw_sources(&objects);
    assert_eq!(mics.len(), 1);
    assert_eq!(mics[0].id, "61");
    assert_eq!(mics[0].label, "Micro USB Blue Yeti");
}

#[test]
fn sources_are_labelled_by_what_is_there() {
    let mics = list(
        br#"[
            {"type":"PipeWire:Interface:Node","info":{"props":{
                "media.class":"Audio/Source","object.serial":18446744073709551615,
                "node.nick":"Nick","node.name":"name"}}},
            {"type":"PipeWire:Interface:Node","info":{"props":{
                "media.class":"Audio/Source","object.serial":2,"node.name":"name"}}},
            {"type":"PipeWire:Interface:Node","info":{"props":{
                "media.class":"Audio/Source","object.serial":3}}},
            {"type":"PipeWire:Interface:Node","info":{"props":{
                "media.class":"Audio/Source","object.serial":-4}}},
            {"type":"PipeWire:Interface:Node","info":{"props":{
                "media.class":"Audio/Source","object.serial":"5"}}},
            {"type":"PipeWire:Interface:Node","info":null},
            7, null, true, [1.5, {}]
        ]"#,
    );
    let seen: Vec<(&str, &str)> = mics.iter().map(|m| (m.id.as_str(), m.label.as_str())).collect();
    assert_eq!(
        seen,
        vec![("18446744073709551615", "Nick"), ("2", "name"), ("3", "Source audio")]
    );
}

#[test]
fn an_unreadable_list_holds_no_microphone() {
    assert!(list(b"not json").is_empty());
    assert!(list(b"{}").is_empty());
}

#[test]
fn unreadable_json_says_why() {
    let e = match parse_items(b"[1,") {
        Ok(_) => panic!("accepted"),
        Err(e) => e,
    };
    assert_eq!(e, "EOF while parsing a value at line 1 column 3");
}

#[test]
fn parses_wasapi_devices() {
    let sample = r#"
Device found:

	name  : Microphone (USB Audio Device)
	class : Audio/Source
	caps  : audio/x-raw, format=F32LE
	properties:
		device.api = wasapi2
	gst-launch-1.0 wasapi2src device="\\?\SWD#MMDEVAPI#\{0.0.1.00000000\}.\{abc\}" ! ...
"#;
    let mics = parse_device_monitor(sample);
    assert_eq!(mics.len(), 1);
    assert_eq!(mics[0].label, "Microphone (USB Audio Device)");
    assert!(mics[0].id.starts_with("device=\""));
    assert!(mics[0].id.ends_with('"'));
}

#[test]
fn a_label_is_used_once() {
    let sample = "name : A\ngst-launch-1.0 wasapi2src device=\"x\" ! y\n gst-launch-1.0 wasapi2src device=\"z\"\nname : B\ngst-launch-1.0 pulsesrc device=\"q\"\n";
    let mics = parse_device_monitor(sample);
    let seen: Vec<(&str, &str)> = mics.iter().map(|m| (m.id.as_str(), m.label.as_str())).collect();
    assert_eq!(seen, vec![("device=\"x\"", "A"), ("device=\"z\"", "Micro")]);
}

#[test]
fn device_tokens_end_at_the_first_free_quote() {
    let chars = |s: &str| s.chars().collect::<Vec<char>>();
    assert_eq!(
        extract_device_token(&chars("a device=\"b\\\"c\" d\"")),
        Some("device=\"b\\\"c\"".to_owned())
    );
    assert_eq!(extract_device_token(&chars("device=\"open")), None);
    assert_eq!(extract_device_token(&chars("nothing")), None);
    assert_eq!(extract_device_token(&chars("device=\"\"")), Some("device=\"\"".to_owned()));
    assert_eq!(
        extract_device_token(&chars("device=\"C:\\\\\" ! x \"y\"")),
        Some("device=\"C:\\\\\"".to_owned())
    );
    assert_eq!(
        extract_device_token(&chars("device=\"a\\\\\\\"b\" c")),
        Some("device=\"a\\\\\\\"b\"".to_owned())
    );
}

fn node(class: &str, state: &str, serial: u64, binary: &str) -> String {
    format!(
        "{{\"type\":\"PipeWire:Interface:Node\",\"info\":{{\"state\":\"{state}\",\"props\":{{\"media.class\":\"{class}\",\"object.serial\":{serial},\"application.process.binary\":\"{binary}\"}}}}}}"
    )
}

fn dump(nodes: &[String]) -> Vec<u8> {
    format!("[{}]", nodes.join(",")).into_bytes()
}

#[test]
fn a_running_capture_is_a_voice_session() {
    let on = dump(&[
        node("Stream/Input/Audio", "running", 1, "Discord"),
        node("Stream/Output/Audio", "running", 2, "Discord"),
    ]);
    let snap = pw::snapshot(true, &on).ok().unwrap();
    assert_eq!(snap, pw::Snapshot { in_voice: true, discord_out_serial: Some(2) });
    let off = dump(&[node("Stream/Input/Audio", "idle", 1, "Discord")]);
    let snap = pw::snapshot(true, &off).ok().unwrap();
    assert_eq!(snap, pw::Snapshot { in_voice: false, discord_out_serial: None });
    let other = dump(&[node("Stream/Input/Audio", "running", 1, "firefox")]);
    assert!(!pw::snapshot(true, &other).ok().unwrap().in_voice);
}

#[test]
fn a_running_playback_is_preferred() {
    let serial = |nodes: &[String]| {
        pw::snapshot(true, &dump(nodes)).ok().unwrap().discord_out_serial
    };
    let idle = |n| node("Stream/Output/Audio", "idle", n, "DISCORD");
    let live = |n| node("Stream/Output/Audio", "running", n, "discord-canary");
    assert_eq!(serial(&[idle(1), live(2), idle(3)]), Some(2));
    assert_eq!(serial(&[live(1), idle(2), live(3)]), Some(3));
    assert_eq!(serial(&[idle(1), idle(2)]), Some(1));
    assert_eq!(serial(&[idle(4), idle(5), live(6), live(7), idle(8)]), Some(7));
    assert_eq!(serial(&[]), None);
}

#[test]
fn a_graph_that_cannot_be_read_is_an_error() {
    let e = match pw::snapshot(false, b"[]") {
        Ok(_) => panic!("accepted"),
        Err(e) => e.message(),
    };
    assert_eq!(e, "pw-dump a retourné une erreur");
    let e = match pw::snapshot(true, b"") {
        Ok(_) => panic!("accepted"),
        Err(e) => e.message(),
    };
    assert_eq!(e, "sortie pw-dump illisible: EOF while parsing a value at line 1 column 0");
}

#[test]
fn the_graph_becomes_a_voice_state() {
    let graph = pw::Snapshot { in_voice: true, discord_out_serial: Some(9) };
    assert_eq!(
        voice::Snapshot::of_graph(graph),
        voice::Snapshot { in_voice: true, audio_target: Some(9) }
    );
    assert_eq!(
        voice::Snapshot::default(),
        voice::Snapshot { in_voice: false, audio_target: None }
    );
}

const SAMPLE: &str = r#"
xwininfo: Window id: 1320 (the root window) (has no name)

  Root window id: 1320 (the root window) (has no name)
  Parent window id: 0 (none)
     20 children:
     8388618 "scattered media, dakom - Discord": ("discord" "discord")  3840x2160+0+0  +0+0
     12582923 "discord": ("discord" "Discord")  200x200+0+0  +0+0
     12582915 "discord": ("discord" "Discord")  16x16+0+0  +0+0
     12582913 "discord": ("discord" "Discord")  10x10+10+10  +10+10
     6291467 "Mozilla Firefox": ("Navigator" "firefox")  2560x1380+0+0  +0+0
"#;

#[test]
fn picks_largest_discord_window_with_geometry() {
    assert_eq!(
        parse_xwininfo_tree(SAMPLE),
        Some(DiscordWindow {
            xid: 8_388_618,
            width: 3840,
            height: 2160
        })
    );
}

#[test]
fn ignores_other_classes_and_tiny_windows() {
    let only_helpers = r#"
     12582923 "discord": ("discord" "Discord")  200x200+0+0  +0+0
     6291467 "Discord - Mozilla Firefox": ("Navigator" "firefox")  2560x1380+0+0  +0+0
"#;
    assert_eq!(parse_xwininfo_tree(only_helpers), None);
}

#[test]
fn empty_tree_yields_none() {
    assert_eq!(parse_xwininfo_tree(""), None);
}

#[test]
fn of_equal_windows_the_first_is_taken() {
    let text = "1 \"a\": (\"x\" \"Discord\") 500x400+0+0\n2 \"b\": (\"y\" \"discord\") 400x500+0+0\nno 3 (\"discord\" 9000x9000+0+0\n";
    assert_eq!(
        parse_xwininfo_tree(text),
        Some(DiscordWindow { xid: 1, width: 500, height: 400 })
    );
    assert_eq!(find_discord_window(false, text.as_bytes()), None);
    assert_eq!(find_discord_window(true, text.as_bytes()), parse_xwininfo_tree(text));
}

#[test]
fn a_window_is_told_by_its_class() {
    assert_eq!(
        parse_xwininfo_tree("1 \"t\": (\"foo\" \"discord\")  1000x1000+0+0  +0+0\n"),
        Some(DiscordWindow { xid: 1, width: 1000, height: 1000 })
    );
    assert_eq!(
        parse_xwininfo_tree("1 \"t\": (\"discord\" \"foo\")  1000x1000+0+0  +0+0\n"),
        None
    );
    assert_eq!(
        parse_xwininfo_tree("1 \"(\"a\" \"discord\")\": (\"b\" \"c\")  1000x1000+0+0  +0+0\n"),
        None
    );
}

#[test]
fn the_size_does_not_come_from_the_title() {
    let line = "7 \"clip 9999x9999+hdr - Discord\": (\"discord\" \"discord\")  1280x720+0+0  +0+0\n";
    assert_eq!(
        parse_xwininfo_tree(line),
        Some(DiscordWindow { xid: 7, width: 1280, height: 720 })
    );
}

#[test]
fn output_that_is_no_text_is_read_all_the_same() {
    let mut stdout = b"7 \"caf\xe9\xff\": (\"discord\" \"discord\")  1280x720+0+0  +0+0\n".to_vec();
    assert_eq!(
        find_discord_window(true, &stdout),
        Some(DiscordWindow { xid: 7, width: 1280, height: 720 })
    );
    stdout.insert(0, 0x80);
    assert_eq!(find_discord_window(true, &stdout), None);
    let devices = "name : Micro d’été\ngst-launch-1.0 wasapi2src device=\"x\" ! y\n";
    assert_eq!(list_devices(devices.as_bytes())[0].label, "Micro d’été");
    let broken = b"name : caf\xe9!\ngst-launch-1.0 wasapi2src device=\"x\" ! y\n";
    let mics = list_devices(broken);
    assert_eq!((mics[0].id.as_str(), mics[0].label.as_str()), ("device=\"x\"", "caf\u{fffd}!"));
}

#[test]
fn images_of_discord() {
    assert!(win::is_discord_image("C:\\Users\\me\\AppData\\Local\\Discord\\app\\Discord.exe"));
    assert!(win::is_discord_image("D:/x/DiscordPTB.exe"));
    assert!(win::is_discord_image("c:discordcanary.exe"));
    assert!(!win::is_discord_image("C:\\Discord\\other.exe"));
    assert!(!win::is_discord_image(""));
    let image = Some("C:\\Discord.exe".to_owned());
    assert!(win::is_discord_pid(4, &image));
    assert!(!win::is_discord_pid(0, &image));
    assert!(!win::is_discord_pid(4, &None));
}

#[test]
fn images_are_read_up_to_their_length() {
    let mut units: Vec<u16> = "C:\\Jeux été\\Discord.exe".encode_utf16().collect();
    let len = units.len() as u32;
    units.resize(64, 0xd800);
    let image = win::image_path(true, &units, len);
    assert_eq!(image, Some("C:\\Jeux été\\Discord.exe".to_owned()));
    assert!(win::is_discord_pid(4, &image));
    assert_eq!(win::image_path(true, &units, len + 1).unwrap().chars().last(), Some('\u{fffd}'));
    assert_eq!(win::image_path(false, &units, len), None);
}

#[test]
fn halves_of_pairs_are_joined_or_replaced() {
    let read = |units: &[u16]| win::image_path(true, units, units.len() as u32).unwrap();
    assert_eq!(read(&[]), "");
    assert_eq!(read(&[0x41, 0xe9, 0xd7ff, 0xe000, 0xffff]), "Aé\u{d7ff}\u{e000}\u{ffff}");
    assert_eq!(read(&[0xd834, 0xdd1e, 0x2e]), "\u{1d11e}.");
    assert_eq!(read(&[0xd800, 0xdc00, 0xdbff, 0xdfff]), "\u{10000}\u{10ffff}");
    assert_eq!(read(&[0xdd1e, 0xd834]), "\u{fffd}\u{fffd}");
    assert_eq!(read(&[0xd834, 0xd834, 0xdd1e]), "\u{fffd}\u{1d11e}");
    assert_eq!(read(&[0xd834, 0x69, 0xdc00]), "\u{fffd}i\u{fffd}");
}

fn candidate(hwnd: u64, visible: bool, rect: Option<(i32, i32, i32, i32)>) -> win::Candidate {
    win::Candidate {
        hwnd,
        visible,
        pid: 4,
        image: Some("C:\\Discord.exe".to_owned()),
        rect: rect.map(|(left, top, right, bottom)| win::Rect { left, top, right, bottom }),
    }
}

#[test]
fn the_largest_visible_window_is_taken() {
    let all = vec![
        candidate(1, true, Some((0, 0, 10, 10))),
        candidate(2, false, Some((0, 0, 5000, 5000))),
        candidate(3, true, Some((-100, -50, 1820, 1030))),
        candidate(4, true, Some((0, 0, 1920, 1080))),
        candidate(5, true, None),
    ];
    assert_eq!(
        win::find_discord_window(&all),
        Some(win::WinWindow { hwnd: 3, width: 1920, height: 1080 })
    );
    let edges = Some((i32::MIN, 0, i32::MAX, 9));
    let mut vast = vec![
        candidate(6, false, edges),
        win::Candidate { image: None, ..candidate(7, true, edges) },
    ];
    vast.extend(all);
    assert_eq!(
        win::find_discord_window(&vast),
        Some(win::WinWindow { hwnd: 3, width: 1920, height: 1080 })
    );
    let all = vast.split_off(2);
    assert_eq!(win::find_discord_window(&all[..1]), None);
    assert_eq!(win::find_discord_window(&[]), None);
}

fn session(flow: win::Flow, pid: u32, active: bool) -> win::Session {
    win::Session { flow, pid, image: Some("C:\\Discord.exe".to_owned()), active }
}

#[test]
fn audio_sessions_of_discord() {
    let all = vec![
        session(win::Flow::Capture, 7, true),
        session(win::Flow::Render, 8, true),
        session(win::Flow::Render, 9, false),
    ];
    assert_eq!(
        win::snapshot(&all),
        voice::Snapshot { in_voice: true, audio_target: Some(8) }
    );
    let idle = vec![
        session(win::Flow::Capture, 7, false),
        session(win::Flow::Render, 8, false),
        session(win::Flow::Render, 9, false),
    ];
    assert_eq!(
        win::snapshot(&idle),
        voice::Snapshot { in_voice: false, audio_target: Some(8) }
    );
    let foreign = vec![win::Session {
        flow: win::Flow::Capture,
        pid: 3,
        image: Some("C:\\Teams.exe".to_owned()),
        active: true,
    }];
    assert_eq!(win::snapshot(&foreign), voice::Snapshot::default());
}
