use discord_rec::appimage::strip_appimage_env;
use discord_rec::instance::{reap, terminate_stale_instances, Process, Reap};
use discord_rec::platform::Platform;
use discord_rec::updates::{check_update, releases_page, self_installable, self_installable_with};

#[test]
fn installable_seulement_windows_ou_appimage_linux() {
    assert!(self_installable_with(Platform::of("windows"), true));
    assert!(self_installable_with(Platform::of("windows"), false));
    assert!(self_installable_with(Platform::of("linux"), true));
    assert!(!self_installable_with(Platform::of("linux"), false));
    assert!(!self_installable_with(Platform::of("macos"), true));
}

#[test]
fn the_variable_counts_on_linux_only() {
    assert!(self_installable(Platform::Linux, true));
    assert!(!self_installable(Platform::Linux, false));
    assert!(self_installable(Platform::Windows, true));
    assert!(!self_installable(Platform::Other, true));
    let info = check_update("2".to_owned(), "1".to_owned(), None, Platform::Linux, true);
    assert_eq!((info.version.as_str(), info.current.as_str()), ("2", "1"));
    assert!(info.notes.is_none() && info.installable);
    assert_eq!(releases_page(), "https://github.com/micferna/discord-rec/releases/latest");
}

#[test]
fn retire_les_vars_injectees_en_appimage() {
    let removed = strip_appimage_env(Platform::Linux, true);
    assert!(removed.iter().any(|k| *k == "LD_LIBRARY_PATH"));
    assert!(removed.iter().any(|k| *k == "GST_PLUGIN_SYSTEM_PATH_1_0"));
    assert_eq!(removed.len(), 10);
    assert!(strip_appimage_env(Platform::Linux, false).is_empty());
    assert!(strip_appimage_env(Platform::Windows, true).is_empty());
}

fn process(name: &str, exe: Option<&str>) -> Process {
    Process { name: name.to_owned(), exe: exe.map(|e| e.to_owned()) }
}

#[test]
fn stale_instances_are_ended() {
    let all = vec![
        process("10", Some("/usr/bin/discord-rec")),
        process("11", Some("/usr/bin/discord-rec (deleted)")),
        process("12", Some("/opt/discord-rec-old")),
        process("13", Some("/usr/bin/discord")),
        process("14", None),
        process("self", Some("/opt/discord-rec")),
        process("99", Some("/opt/discord-rec")),
        process("4294967295", Some("/opt/discord-rec")),
        process("15", Some("/opt/discord-rec (deleted) (deleted)")),
    ];
    assert_eq!(
        terminate_stale_instances(Platform::Linux, 99, Some("/usr/bin/discord-rec"), &all),
        vec![11, 12, 15]
    );
    assert_eq!(
        terminate_stale_instances(Platform::Linux, 99, None, &all),
        vec![11, 15]
    );
    assert!(terminate_stale_instances(Platform::Windows, 99, None, &all).is_empty());
}

#[test]
fn those_that_stay_are_killed() {
    assert!(matches!(reap(&[1, 2], &[false, false], false), Reap::Done));
    assert!(matches!(reap(&[1, 2], &[false, false], true), Reap::Done));
    assert!(matches!(reap(&[1, 2], &[true, false], false), Reap::Wait));
    assert!(matches!(reap(&[1, 2, 3], &[true, false, true], true), Reap::Kill(list) if list == vec![1, 3]));
}
