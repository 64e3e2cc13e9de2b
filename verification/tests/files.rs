use discord_rec::config::Config;
use discord_rec::platform::Platform;
use discord_rec::recordings::{
    check_found, check_media, clip_range, convert_recording, delete_recording, list_recordings,
    to_listed_ms, FileError, ProbeCache,
};
use discord_rec::retention::{prune_by_retention, prune_old_recordings, Entry, Limits, Meta};

const DAY_NS: i128 = 86_400 * 1_000_000_000;

fn entry(name: &str, modified: Option<i128>, size: u64) -> Entry {
    Entry { name: name.to_owned(), meta: Some(Meta { modified, size }) }
}

fn names(list: &[&str]) -> Vec<String> {
    list.iter().map(|s| (*s).to_owned()).collect()
}

#[test]
fn prune_keeps_current_and_spares_exports() {
    let all = names(&[
        "discord-2026-06-29_10-00-00.mkv",
        "discord-2026-06-28_09-00-00.mkv",
        "discord-2026-06-27_08-00-00.mkv",
        "discord-2026-06-28_09-00-00.mp4",
        "discord-2026-06-28_09-00-00_clip_0-30s.mp4",
        "notes.txt",
    ]);
    let gone = prune_old_recordings(
        Platform::Linux,
        "/tmp/out/discord-2026-06-29_10-00-00.mkv",
        &all,
    );
    let exists = |name: &str| {
        let at = all.iter().position(|n| n == name).expect("name");
        !gone.contains(&at)
    };
    assert!(exists("discord-2026-06-29_10-00-00.mkv"), "courant supprimé");
    assert!(!exists("discord-2026-06-28_09-00-00.mkv"), "ancien REC gardé");
    assert!(!exists("discord-2026-06-27_08-00-00.mkv"), "ancien REC gardé");
    assert!(exists("discord-2026-06-28_09-00-00.mp4"), "export MP4 supprimé");
    assert!(exists("discord-2026-06-28_09-00-00_clip_0-30s.mp4"), "clip supprimé");
    assert!(exists("notes.txt"), "fichier tiers supprimé");
}

#[test]
fn prune_without_a_name_removes_nothing() {
    assert!(prune_old_recordings(Platform::Linux, "/", &names(&["discord-a.mkv"])).is_empty());
    assert_eq!(
        prune_old_recordings(Platform::Windows, "C:\\v\\discord-a.mkv", &names(&["discord-a.mkv", "discord-b.MKV"])),
        vec![1]
    );
}

#[test]
fn retention_par_age_et_taille() {
    let now: i128 = 1_780_000_000 * 1_000_000_000;
    let days = |n: i128| Some(now - n * DAY_NS);
    let all = vec![
        entry("discord-a.mkv", days(0), 3_000_000_000),
        entry("discord-b.mkv", days(1), 3_000_000_000),
        entry("discord-c.mkv", days(2), 3_000_000_000),
        entry("discord-d.mkv", days(40), 3_000_000_000),
        entry("discord-a.mp4", days(40), 10),
        entry("notes.txt", days(40), 10),
    ];
    let limits = Limits { max_age_s: Some(30 * 86_400), max_total_bytes: Some(8_000_000_000) };
    let gone = prune_by_retention(&all, None, limits, now);
    let exists = |name: &str| {
        let at = all.iter().position(|e| e.name == name).expect("name");
        !gone.contains(&at)
    };
    assert!(exists("discord-a.mkv"), "récent supprimé à tort");
    assert!(exists("discord-b.mkv"), "récent supprimé à tort");
    assert!(!exists("discord-c.mkv"), "plus ancien non purgé (taille)");
    assert!(!exists("discord-d.mkv"), "trop vieux non purgé (âge)");
    assert!(exists("discord-a.mp4"), "export MP4 supprimé à tort");
    assert!(exists("notes.txt"), "fichier tiers supprimé à tort");
}

#[test]
fn retention_desactivee_ne_touche_rien() {
    let now: i128 = 1_780_000_000 * 1_000_000_000;
    let all = vec![entry("discord-x.mkv", Some(now - 9_999_999 * 1_000_000_000), 10)];
    let limits = Limits { max_age_s: None, max_total_bytes: None };
    assert!(prune_by_retention(&all, None, limits, now).is_empty(), "purge alors que désactivée");
}

#[test]
fn retention_edge_cases() {
    let now = 100 * DAY_NS;
    let all = vec![
        entry("discord-a.mkv", Some(now - DAY_NS), 5),
        entry("discord-b.mkv", Some(now - DAY_NS - 1), 5),
        entry("discord-c.mkv", None, 5),
        Entry { name: "discord-d.mkv".to_owned(), meta: None },
        entry("discord-e.mkv", Some(now + DAY_NS), u64::MAX),
        entry("discord-f.mkv", Some(i128::MIN), 5),
    ];
    let age = Limits { max_age_s: Some(86_400), max_total_bytes: None };
    assert_eq!(prune_by_retention(&all, None, age, now), vec![1, 5]);
    let size = Limits { max_age_s: None, max_total_bytes: Some(u64::MAX) };
    assert!(prune_by_retention(&all, None, size, now).is_empty());
    let tight = Limits { max_age_s: None, max_total_bytes: Some(10) };
    assert_eq!(prune_by_retention(&all, Some("discord-e.mkv"), tight, now), vec![1, 5]);
    assert_eq!(prune_by_retention(&all, None, tight, now), vec![0, 1, 2, 4, 5]);
}

#[test]
fn of_the_same_time_the_first_stays() {
    let all = vec![
        entry("discord-a.mkv", Some(5), 4),
        entry("discord-b.mkv", Some(5), 4),
        entry("discord-c.mkv", Some(5), 4),
    ];
    let limits = Limits { max_age_s: None, max_total_bytes: Some(8) };
    assert_eq!(prune_by_retention(&all, None, limits, 10), vec![2]);
}

#[test]
fn limits_of_the_settings() {
    let cfg = Config { retention_days: 30, retention_max_gb: 8, ..Config::default() };
    let limits = Limits::of(&cfg);
    assert_eq!(limits.max_age_s, Some(2_592_000));
    assert_eq!(limits.max_total_bytes, Some(8_000_000_000));
    let none = Limits::of(&Config::default());
    assert_eq!(none, Limits { max_age_s: None, max_total_bytes: None });
}

#[test]
fn the_newest_files_are_listed_first() {
    let ms = 1_000_000;
    let all = vec![
        entry("a.mkv", Some(10 * ms), 1),
        entry("b.MP4", Some(30 * ms), 2),
        entry("c.txt", Some(90 * ms), 3),
        entry("d.mkv", Some(30 * ms + 999_999), 4),
        entry("e.mkv", None, 5),
        Entry { name: "f.mkv".to_owned(), meta: None },
    ];
    let listed = list_recordings(&all);
    let seen: Vec<(&str, u64, u64)> =
        listed.iter().map(|f| (f.name.as_str(), f.size_bytes, f.modified_ms)).collect();
    assert_eq!(
        seen,
        vec![("b.MP4", 2, 30), ("d.mkv", 4, 30), ("a.mkv", 1, 10), ("e.mkv", 5, 0)]
    );
}

#[test]
fn the_list_is_cut() {
    let all: Vec<Entry> =
        (0..40i128).map(|i| entry(&format!("{i}.mkv"), Some(i * 1_000_000), 1)).collect();
    let listed = list_recordings(&all);
    assert_eq!(listed.len(), 30);
    assert_eq!(listed[0].name, "39.mkv");
    assert_eq!(listed[29].name, "10.mkv");
}

#[test]
fn listed_times() {
    assert_eq!(to_listed_ms(Some(-1)), 0);
    assert_eq!(to_listed_ms(Some(1_999_999)), 1);
    assert_eq!(to_listed_ms(Some(i128::MAX)), 0);
    assert_eq!(to_listed_ms(None), 0);
}

#[test]
fn files_are_refused_for_a_reason() {
    assert_eq!(check_media("a.mkv"), Ok(()));
    assert_eq!(check_media("../a.mkv"), Err(FileError::Invalid));
    assert_eq!(FileError::Invalid.message(), "fichier invalide");
    assert_eq!(check_found(true), Ok(()));
    assert_eq!(check_found(false), Err(FileError::Missing));
    assert_eq!(FileError::Missing.message(), "fichier introuvable");
    assert_eq!(convert_recording("a.mkv"), Ok(()));
    assert_eq!(convert_recording("a.mp4"), Err(FileError::NotConvertible));
    assert_eq!(FileError::NotConvertible.message(), "fichier à convertir invalide");
    assert_eq!(clip_range("a.mp4"), Ok(()));
    assert_eq!(clip_range("a\t.mp4"), Err(FileError::NotClippable));
    assert_eq!(FileError::NotClippable.message(), "fichier à découper invalide");
}

#[test]
fn the_current_recording_is_not_deleted() {
    let current = Some("/v/discord-a.mkv");
    assert_eq!(delete_recording(Platform::Linux, "discord-a.mkv", current), Err(FileError::InProgress));
    assert_eq!(delete_recording(Platform::Linux, "discord-b.mkv", current), Ok(()));
    assert_eq!(delete_recording(Platform::Linux, "discord-a.mkv", None), Ok(()));
    assert_eq!(delete_recording(Platform::Linux, "a.txt", None), Err(FileError::Invalid));
    assert_eq!(
        FileError::InProgress.message(),
        "enregistrement en cours — arrête-le avant de le supprimer"
    );
}

#[test]
fn probes_are_remembered_while_nothing_changes() {
    let mut cache: ProbeCache<f64> = ProbeCache::new();
    assert_eq!(cache.get("a", 1, 2), None);
    cache.insert("a".to_owned(), 1, 2, 5.5);
    cache.insert("b".to_owned(), 1, 2, 6.5);
    assert_eq!(cache.get("a", 1, 2), Some(&5.5));
    assert_eq!(cache.get("b", 1, 2), Some(&6.5));
    assert_eq!(cache.get("a", 3, 2), None);
    assert_eq!(cache.get("a", 1, 3), None);
    cache.insert("a".to_owned(), 3, 4, 7.5);
    assert_eq!(cache.get("a", 1, 2), None);
    assert_eq!(cache.get("a", 3, 4), Some(&7.5));
    assert_eq!(cache.get("b", 1, 2), Some(&6.5));
}
