use openstore::registry::Registry;
use openstore::task::{
    copy_file_name, copy_id_string, file_name_from_url, join_path, new_task, progress_percent,
    task_id_string, valid_url, DownloadStatus, DownloadTask,
};

fn pending(id: &str, url: &str) -> DownloadTask {
    new_task(
        id.to_string(),
        url.to_string(),
        "f.bin".to_string(),
        "/dl/f.bin".to_string(),
        0,
        1,
        false,
        None,
    )
}

#[test]
fn url_validation() {
    assert!(valid_url("http://example.test/a"));
    assert!(valid_url("https://example.test/a"));
    assert!(!valid_url("ftp://example.test/a"));
    assert!(!valid_url("example.test/a"));
    assert!(!valid_url(""));
}

#[test]
fn file_name_resolution() {
    assert_eq!(file_name_from_url("https://example.test/dir/a.bin"), "a.bin");
    assert_eq!(file_name_from_url("https://example.test/dir/"), "download");
    assert_eq!(file_name_from_url(""), "download");
    assert_eq!(file_name_from_url("bare"), "bare");
}

#[test]
fn path_joining() {
    assert_eq!(join_path("/dl", "a.bin"), "/dl/a.bin");
    assert_eq!(join_path("/dl/", "a.bin"), "/dl/a.bin");
    assert_eq!(join_path("", "a.bin"), "a.bin");
}

#[test]
fn identifier_synthesis() {
    assert_eq!(task_id_string(17000), "download_17000");
    assert_eq!(copy_id_string("download_5", 2), "download_5_copy_2");
}

#[test]
fn copy_naming_rule() {
    assert_eq!(copy_file_name("x.y", 1), "x_copy1.y");
    assert_eq!(copy_file_name("x", 1), "x_copy1");
    assert_eq!(copy_file_name("archive.tar.gz", 3), "archive.tar_copy3.gz");
    assert_eq!(copy_file_name("x.y", 12), "x_copy12.y");
}

#[test]
fn progress_formula() {
    assert_eq!(progress_percent(0, 200), 0);
    assert_eq!(progress_percent(50, 200), 25);
    assert_eq!(progress_percent(199, 200), 99);
    assert_eq!(progress_percent(200, 200), 100);
    assert_eq!(progress_percent(12345, 0), 0);
}

#[test]
fn fresh_task_fields() {
    let t = pending("download_1", "https://example.test/f.bin");
    assert_eq!(t.id, "download_1");
    assert!(matches!(t.status, DownloadStatus::Pending));
    assert_eq!(t.progress, 0);
    assert_eq!(t.downloaded_size, 0);
    assert_eq!(t.speed, "0.0 B/s");
    assert!(!t.is_copy);
    assert!(t.original_id.is_none());
}

#[test]
fn create_fresh_task_resolves_name_and_directory() {
    let mut r = Registry::new();
    let id = r.create_task(
        "https://example.test/pkg/app.deb".to_string(),
        None,
        None,
        "/downloads".to_string(),
        42,
    );
    assert_eq!(id, "download_42");
    let t = r.get_task(&id).expect("task registered");
    assert_eq!(t.url, "https://example.test/pkg/app.deb");
    assert_eq!(t.file_name, "app.deb");
    assert_eq!(t.file_path, "/downloads/app.deb");
    assert!(matches!(t.status, DownloadStatus::Pending));
    assert!(!t.is_copy);
}

#[test]
fn create_task_explicit_name_and_directory_win() {
    let mut r = Registry::new();
    let id = r.create_task(
        "https://example.test/x".to_string(),
        Some("given.bin".to_string()),
        Some("/elsewhere".to_string()),
        "/downloads".to_string(),
        7,
    );
    let t = r.get_task(&id).unwrap();
    assert_eq!(t.file_name, "given.bin");
    assert_eq!(t.file_path, "/elsewhere/given.bin");
}

#[test]
fn duplicate_url_creates_copy() {
    let mut r = Registry::new();
    let first = r.create_task(
        "https://example.test/a.bin".to_string(),
        None,
        None,
        "/dl".to_string(),
        100,
    );
    let second = r.create_task(
        "https://example.test/a.bin".to_string(),
        None,
        None,
        "/dl".to_string(),
        200,
    );
    assert_eq!(second, format!("{first}_copy_1"));
    let copy = r.get_task(&second).expect("copy registered");
    assert!(copy.is_copy);
    assert_eq!(copy.original_id.as_deref(), Some(first.as_str()));
    assert_eq!(copy.url, "https://example.test/a.bin");
    assert_ne!(copy.file_path, r.get_task(&first).unwrap().file_path);
    let orig = r.get_task(&first).unwrap();
    assert_eq!(orig.copy_count, 1);
}

#[test]
fn copies_share_size_and_sum_to_n_times_total() {
    let mut r = Registry::new();
    let id = r.create_task(
        "https://example.test/big.iso".to_string(),
        None,
        None,
        "/dl".to_string(),
        1,
    );
    // the worker learns the total and writes it back
    let mut t = r.get_task(&id).unwrap();
    t.total_size = 4096;
    r.upsert_task(t, true);
    let ids = r.create_copies(&id, 3, 2).expect("copies created");
    assert_eq!(ids.len(), 3);
    let mut sum = 0u64;
    for cid in &ids {
        let c = r.get_task(cid).unwrap();
        assert_eq!(c.total_size, 4096);
        assert_eq!(c.downloaded_size, 0);
        sum += c.total_size;
    }
    assert_eq!(sum, 3 * 4096);
    assert_eq!(r.get_task(&id).unwrap().copy_count, 3);
}

#[test]
fn copy_file_names_are_derived() {
    let mut r = Registry::new();
    let id = r.create_task(
        "https://example.test/pkg.tar.gz".to_string(),
        None,
        None,
        "/dl".to_string(),
        5,
    );
    let ids = r.create_copies(&id, 2, 6).unwrap();
    let c1 = r.get_task(&ids[0]).unwrap();
    let c2 = r.get_task(&ids[1]).unwrap();
    assert_eq!(c1.file_name, "pkg.tar_copy1.gz");
    assert_eq!(c2.file_name, "pkg.tar_copy2.gz");
    assert_eq!(c1.file_path, "/dl/pkg.tar_copy1.gz");
}

#[test]
fn copies_of_missing_original_fail() {
    let mut r = Registry::new();
    assert!(r.create_copies("nope", 1, 0).is_err());
}

#[test]
fn start_pause_resume_cycle() {
    let mut r = Registry::new();
    let id = r.create_task(
        "https://example.test/a".to_string(),
        None,
        None,
        "/dl".to_string(),
        1,
    );
    let started = r.start_task(&id).expect("start from pending");
    assert!(matches!(started.status, DownloadStatus::Downloading));
    // starting again while downloading is refused
    assert!(r.start_task(&id).is_err());
    let paused = r.pause_task(&id).expect("pause while downloading");
    assert!(matches!(paused.status, DownloadStatus::Paused));
    // pausing a paused task is a no-op
    assert!(r.pause_task(&id).is_none());
    let resumed = r.resume_task(&id).expect("resume from paused");
    assert!(matches!(resumed.status, DownloadStatus::Downloading));
    // resuming a task that is not paused is refused
    assert!(r.resume_task(&id).is_err());
}

#[test]
fn start_unknown_task_is_refused() {
    let mut r = Registry::new();
    assert!(r.start_task("missing").is_err());
    assert!(r.resume_task("missing").is_err());
}

#[test]
fn cancel_reports_path_and_skips_terminal() {
    let mut r = Registry::new();
    let id = r.create_task(
        "https://example.test/a.bin".to_string(),
        None,
        None,
        "/dl".to_string(),
        1,
    );
    r.start_task(&id).unwrap();
    let (t, path) = r.cancel_task(&id).expect("cancel while downloading");
    assert!(matches!(t.status, DownloadStatus::Cancelled));
    assert_eq!(path, "/dl/a.bin");
    // cancelled is terminal: a second cancel does nothing
    assert!(r.cancel_task(&id).is_none());
}

#[test]
fn remove_returns_path() {
    let mut r = Registry::new();
    let id = r.create_task(
        "https://example.test/a.bin".to_string(),
        None,
        None,
        "/dl".to_string(),
        1,
    );
    let path = r.remove_task(&id).expect("existing task removed");
    assert_eq!(path, "/dl/a.bin");
    assert!(r.get_task(&id).is_none());
    assert!(r.remove_task(&id).is_none());
}

#[test]
fn fail_task_inserts_missing_record() {
    let mut r = Registry::new();
    let ghost = pending("worker_kept_this", "https://example.test/z");
    let failed = r.fail_task("worker_kept_this", &ghost);
    assert!(matches!(failed.status, DownloadStatus::Failed));
    let stored = r.get_task("worker_kept_this").unwrap();
    assert!(matches!(stored.status, DownloadStatus::Failed));
}

#[test]
fn task_listing_snapshots() {
    let mut r = Registry::new();
    assert!(r.tasks().is_empty());
    let a = r.create_task(
        "https://example.test/a".to_string(),
        None,
        None,
        "/dl".to_string(),
        1,
    );
    let b = r.create_task(
        "https://example.test/b".to_string(),
        None,
        None,
        "/dl".to_string(),
        2,
    );
    let all = r.tasks();
    assert_eq!(all.len(), 2);
    assert_eq!(all[0].id, a);
    assert_eq!(all[1].id, b);
    assert!(r.get_task("unknown").is_none());
}

#[test]
fn terminal_http_status_fails_the_task() {
    // a 404 is terminal: the worker stops retrying and fails the task
    assert!(openstore::worker::is_terminal_http(404));
    let mut r = Registry::new();
    let id = r.create_task(
        "https://example.test/missing".to_string(),
        None,
        None,
        "/dl".to_string(),
        1,
    );
    assert!(matches!(
        r.get_task(&id).unwrap().status,
        DownloadStatus::Pending
    ));
    let started = r.start_task(&id).unwrap();
    assert!(matches!(started.status, DownloadStatus::Downloading));
    let failed = r.fail_task(&id, &started);
    assert!(matches!(failed.status, DownloadStatus::Failed));
    assert!(matches!(
        r.get_task(&id).unwrap().status,
        DownloadStatus::Failed
    ));
}
