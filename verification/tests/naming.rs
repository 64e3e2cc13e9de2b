use discord_rec::convert::mp4_name;
use discord_rec::names::{
    extension_is, is_recording_name, is_safe_file_name, same_path, valid_convert_name,
    valid_media_name,
};
use discord_rec::naming::{name_clip, name_recording, new_recording_name, push_seconds};
use discord_rec::paths::{base_name, is_absolute, parent};
use discord_rec::platform::{system_opener, Platform};

const SECOND: u64 = 1_000_000_000;

#[test]
fn accepte_les_noms_generes_par_lapp() {
    for name in [
        "discord-2026-07-25_15-30-00.mkv",
        "discord-2026-07-25_15-30-00.mp4",
        "discord-2026-07-25_15-30-00_720p.mp4",
        "discord-2026-07-25_15-30-00_clip_0-30s.mp4",
    ] {
        assert!(valid_media_name(name), "devrait accepter : {name:?}");
        assert!(is_safe_file_name(name));
    }
}

#[test]
fn rejette_linjection_par_caractere_de_controle() {
    for hostile in [
        "a\t! filesink location=owned.mkv",
        "a\n!\nfilesink\nlocation=owned.mkv",
        "a\r! fakesink.mkv",
        "a\x0b.mkv",
        "a\x0c.mkv",
    ] {
        assert!(
            !valid_media_name(hostile),
            "aurait dû rejeter (injection) : {hostile:?}"
        );
        assert!(!is_safe_file_name(hostile));
    }
}

#[test]
fn rejette_les_separateurs_et_le_vide() {
    for bad in ["", "../x.mkv", "sub/x.mkv", "sub\\x.mkv", "x.txt", "x"] {
        assert!(!valid_media_name(bad), "aurait dû rejeter : {bad:?}");
    }
}

#[test]
fn accepte_les_espaces() {
    assert!(valid_media_name("ma session discord.mkv"));
    assert!(is_safe_file_name("mon fichier"));
}

#[test]
fn extensions_in_any_case() {
    assert!(extension_is("a.MKV", "mkv"));
    assert!(extension_is("a.b.mKv", "mkv"));
    assert!(!extension_is(".mkv", "mkv"));
    assert!(!extension_is("a.mkv2", "mkv"));
    assert!(valid_convert_name("a.Mkv"));
    assert!(!valid_convert_name("a.mp4"));
}

#[test]
fn recordings_are_told_by_their_names() {
    assert!(is_recording_name("discord-2026-06-28_09-00-00.mkv"));
    assert!(is_recording_name("discord-x.MKV"));
    assert!(!is_recording_name("discord-x.mp4"));
    assert!(!is_recording_name("notes.mkv"));
}

#[test]
fn generated_names_are_accepted() {
    let name = name_recording("2026-07-25_15-30-00");
    assert_eq!(name, "discord-2026-07-25_15-30-00.mkv");
    assert!(valid_media_name(&name) && is_recording_name(&name));
    for made in [mp4_name(&name, Some(720)), mp4_name(&name, None), name_clip(&name, 0, 30 * SECOND, None)] {
        assert!(valid_media_name(&made));
        assert!(!is_recording_name(&made));
    }
    assert_eq!(
        name_clip(&name, 8 * SECOND, 13 * SECOND, None),
        "discord-2026-07-25_15-30-00_clip_8-13s.mp4"
    );
}

#[test]
fn clips_of_different_windows_have_different_names() {
    let name = |from, to, height| name_clip("a.mkv", from, to, height);
    assert_ne!(name(SECOND, 23 * SECOND, None), name(12 * SECOND, 3 * SECOND, None));
    assert_eq!(name(1_200_000_000, 4_200_000_000, None), "a_clip_1.2-4.2s.mp4");
    assert_eq!(name(1_400_000_000, 4_500_000_000, None), "a_clip_1.4-4.5s.mp4");
    assert_eq!(name(0, 5 * SECOND, Some(720)), "a_clip_720p_0-5s.mp4");
    assert_eq!(name(0, 5 * SECOND, Some(480)), "a_clip_480p_0-5s.mp4");
    assert_eq!(name(0, 5 * SECOND, None), "a_clip_0-5s.mp4");
    assert_ne!(name_clip("a.mkv", 0, SECOND, None), name_clip("b.mkv", 0, SECOND, None));
}

#[test]
fn times_are_written_in_seconds() {
    let text = |ns| {
        let mut out = "t".to_owned();
        push_seconds(&mut out, ns);
        out
    };
    assert_eq!(text(0), "t0");
    assert_eq!(text(1), "t0.000000001");
    assert_eq!(text(60_050_000_000), "t60.05");
    assert_eq!(text(u64::MAX), "t18446744073.709551615");
}

#[test]
fn a_new_recording_is_named_after_the_time() {
    let name = new_recording_name();
    assert_eq!(name.len(), "discord-2026-07-25_15-30-00.mkv".len());
    assert!(name.starts_with("discord-2"));
    assert!(is_recording_name(&name));
    assert!(valid_media_name(&name));
    let digits = name.chars().filter(|c| c.is_ascii_digit()).count();
    assert_eq!(digits, 14);
}

#[test]
fn base_names() {
    assert_eq!(base_name("/home/me/a.mkv", Platform::Linux), "a.mkv");
    assert_eq!(base_name("C:\\Videos\\a.mkv", Platform::Windows), "a.mkv");
    assert_eq!(base_name("C:\\Videos\\a.mkv", Platform::Linux), "C:\\Videos\\a.mkv");
    assert_eq!(base_name("/", Platform::Linux), "/");
    assert_eq!(base_name("C:a.mkv", Platform::Windows), "a.mkv");
    assert_eq!(base_name("C:a.mkv", Platform::Linux), "C:a.mkv");
    assert_eq!(base_name("\\\\srv\\share\\a.mkv", Platform::Windows), "a.mkv");
    assert_eq!(base_name("/v/a.mkv/.", Platform::Linux), "a.mkv");
    assert_eq!(base_name("/v/..", Platform::Linux), "/v/..");
}

#[test]
fn parents() {
    let of = |path| parent(path, Platform::Linux);
    assert_eq!(of("/v/a.mkv"), Some("/v".to_owned()));
    assert_eq!(of("/a.mkv"), Some("/".to_owned()));
    assert_eq!(of("a.mkv"), Some(String::new()));
    assert_eq!(of("/"), None);
    assert_eq!(of(""), None);
    assert_eq!(parent("C:\\v\\a.mkv", Platform::Windows), Some("C:\\v".to_owned()));
    assert_eq!(parent("C:\\a.mkv", Platform::Windows), Some("C:\\".to_owned()));
    assert_eq!(parent("C:a.mkv", Platform::Windows), Some("C:".to_owned()));
    assert_eq!(parent("C:\\", Platform::Windows), None);
}

#[test]
fn absolute_paths() {
    assert!(is_absolute(Platform::Linux, "/v"));
    assert!(!is_absolute(Platform::Linux, "v"));
    assert!(!is_absolute(Platform::Linux, ""));
    assert!(!is_absolute(Platform::Linux, "C:\\v"));
    assert!(is_absolute(Platform::Windows, "C:\\v"));
    assert!(is_absolute(Platform::Windows, "c:/v"));
    assert!(is_absolute(Platform::Windows, "\\\\srv\\share\\v"));
    assert!(!is_absolute(Platform::Windows, "C:v"));
    assert!(!is_absolute(Platform::Windows, "\\v"));
    assert!(!is_absolute(Platform::Windows, "v"));
}

#[test]
fn paths_are_compared_by_components() {
    let chars = |s: &str| s.chars().collect::<Vec<char>>();
    assert!(same_path(&chars("/usr//bin/x"), &chars("/usr/bin/./x/")));
    assert!(!same_path(&chars("/usr/bin/x"), &chars("usr/bin/x")));
    assert!(!same_path(&chars("/usr/bin/x"), &chars("/usr/bin/y")));
}

#[test]
fn openers() {
    assert_eq!(system_opener(Platform::Windows), "explorer");
    assert_eq!(system_opener(Platform::Linux), "xdg-open");
    assert_eq!(Platform::of("macos"), Platform::Other);
}

#[test]
fn nothing_is_written_over_its_source() {
    for name in ["a.mkv", "a_clip_0-1s.mkv", "x.y.MKV"] {
        assert_ne!(mp4_name(name, None), name);
        assert_ne!(mp4_name(name, Some(480)), name);
        assert_ne!(name_clip(name, 0, SECOND, None), name);
        assert_ne!(name_clip(name, 0, 1, Some(480)), name);
    }
    assert_ne!(name_clip("a.mp4", 0, 1, None), "a.mp4");
    assert_ne!(name_recording("2026-01-01_00-00-00"), name_recording("2026-01-01_00-00-01"));
}
