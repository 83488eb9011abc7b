use openstore::fileinfo::{
    extension_of, get_file_action, is_app_installed, is_installer_file, open_file_check,
    run_installer_check,
};
use openstore::speed::{format_duration, format_speed, instantaneous_speed, SpeedTracker};
use openstore::strutil::{contains_sub, last_index_of, starts_with, str_eq, u64_string};

#[test]
fn decimal_rendering() {
    assert_eq!(u64_string(0), "0");
    assert_eq!(u64_string(7), "7");
    assert_eq!(u64_string(10), "10");
    assert_eq!(u64_string(1048576), "1048576");
    assert_eq!(u64_string(u64::MAX), "18446744073709551615");
}

#[test]
fn string_search_helpers() {
    assert!(str_eq("abc", "abc"));
    assert!(!str_eq("abc", "abd"));
    assert!(starts_with("https://x", "https://"));
    assert!(!starts_with("ftp://x", "https://"));
    assert!(contains_sub("accept bytes please", "bytes"));
    assert!(!contains_sub("none", "bytes"));
    assert_eq!(last_index_of("a/b/c", '/'), Some(3));
    assert_eq!(last_index_of("abc", '/'), None);
}

#[test]
fn speed_unit_ladder() {
    assert_eq!(format_speed(0), "0.0 B/s");
    assert_eq!(format_speed(512), "512.0 B/s");
    assert_eq!(format_speed(1023), "1023.0 B/s");
    assert_eq!(format_speed(1024), "1.0 KB/s");
    assert_eq!(format_speed(1536), "1.5 KB/s");
    assert_eq!(format_speed(1048576), "1.0 MB/s");
    assert_eq!(format_speed(1073741824), "1.0 GB/s");
}

#[test]
fn speed_rounding_one_digit() {
    // 1126 / 1024 = 1.0996...; one fractional digit, rounded.
    assert_eq!(format_speed(1126), "1.1 KB/s");
    // 1075 / 1024 = 1.0498...
    assert_eq!(format_speed(1075), "1.0 KB/s");
}

#[test]
fn speed_string_shape_matches_pattern() {
    for v in [0u64, 1, 999, 1024, 999999, 123456789, u64::MAX] {
        let s = format_speed(v);
        let (num, unit) = s.split_once(' ').expect("space in speed string");
        assert!(["B/s", "KB/s", "MB/s", "GB/s"].contains(&unit));
        let (whole, tenth) = num.split_once('.').expect("decimal point");
        assert!(!whole.is_empty() && whole.chars().all(|c| c.is_ascii_digit()));
        assert_eq!(tenth.len(), 1);
        assert!(tenth.chars().all(|c| c.is_ascii_digit()));
    }
}

#[test]
fn duration_formatting() {
    assert_eq!(format_duration(0), "0s");
    assert_eq!(format_duration(59), "59s");
    assert_eq!(format_duration(90), "1m 30s");
    assert_eq!(format_duration(3600), "1h 0m 0s");
    assert_eq!(format_duration(3661), "1h 1m 1s");
}

#[test]
fn sliding_speed_window() {
    let mut t = SpeedTracker::new(5);
    assert_eq!(t.average(), 0);
    for s in [100u64, 200, 300, 400, 500] {
        t.push(s);
    }
    assert_eq!(t.average(), 300);
    // a sixth sample pushes the oldest out
    t.push(600);
    assert_eq!(t.average(), (200 + 300 + 400 + 500 + 600) / 5);
}

#[test]
fn instantaneous_rate() {
    assert_eq!(instantaneous_speed(1000, 0), 0);
    assert_eq!(instantaneous_speed(1000, 1000), 1000);
    assert_eq!(instantaneous_speed(131072, 500), 262144);
}

#[test]
fn extension_extraction() {
    assert_eq!(extension_of("/tmp/a.exe").as_deref(), Some("exe"));
    assert_eq!(extension_of("archive.tar.gz").as_deref(), Some("gz"));
    assert_eq!(extension_of("/tmp/noext"), None);
    assert_eq!(extension_of("/tmp/.bashrc"), None);
    assert_eq!(extension_of("trailing.").as_deref(), Some(""));
}

#[test]
fn installer_set_is_case_insensitive() {
    assert!(is_installer_file("setup.exe"));
    assert!(is_installer_file("Setup.EXE"));
    assert!(is_installer_file("pkg.msi"));
    assert!(is_installer_file("disk.dmg"));
    assert!(is_installer_file("app.pkg"));
    assert!(is_installer_file("tool.deb"));
    assert!(is_installer_file("tool.rpm"));
    assert!(is_installer_file("portable.AppImage"));
    assert!(!is_installer_file("notes.txt"));
    assert!(!is_installer_file("no_extension"));
    assert!(!is_installer_file(".exe"));
}

#[test]
fn suggested_file_actions() {
    assert_eq!(get_file_action("anything.bin", false), "download");
    assert_eq!(get_file_action("setup.msi", true), "install");
    assert_eq!(get_file_action("tool.exe", true), "install");
    assert_eq!(get_file_action("game.app", true), "run");
    assert_eq!(get_file_action("notes.txt", true), "open");
    assert_eq!(get_file_action("no_extension", true), "open");
}

#[test]
fn installedness() {
    assert!(!is_app_installed("setup.exe", true));
    assert!(is_app_installed("doc.pdf", true));
    assert!(!is_app_installed("doc.pdf", false));
}

#[test]
fn installer_and_open_checks() {
    assert!(run_installer_check("setup.exe", true).is_ok());
    assert!(run_installer_check("setup.exe", false).is_err());
    assert!(run_installer_check("doc.pdf", true).is_err());
    assert!(open_file_check(true).is_ok());
    assert!(open_file_check(false).is_err());
}
