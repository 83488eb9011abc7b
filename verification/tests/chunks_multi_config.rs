use openstore::chunks::{
    active_connections, all_completed, calculate_chunks, chunk_range_start, claim_next_pending,
    fail_chunk, finish_chunk, range_header_value, record_chunk_bytes, total_downloaded,
    ChunkStatus,
};
use openstore::config::{
    choose_download_directory, config_file_path, default_downloads_dir, parse_config,
    render_config, set_directory_config,
};
use openstore::env::{current_millis, host_config_file_path, host_download_directory};
use openstore::multi::{
    accept_ranges_supported, buffer_should_flush, control_stops_worker, eta_string,
    parse_content_length, progress_report, validate_custom_config, DownloadControl,
    MultiThreadConfig,
};
use openstore::worker::{
    completed_snapshot, control_action, get_error_wait, get_status_wait, head_error_wait,
    head_status_wait, is_acceptable_status, is_terminal_http, progress_snapshot, reconnect_wait,
    should_emit_progress, ChunkErrorAction, ControlAction, NetErrorKind, StreamProgress,
    TaskControl,
};

const MIB: u64 = 1024 * 1024;

#[test]
fn four_even_chunks_for_four_connections() {
    // a 200 MiB file over four connections gives four 50 MiB chunks
    let cs = calculate_chunks(200 * MIB, 4, MIB);
    assert_eq!(cs.len(), 4);
    for (i, c) in cs.iter().enumerate() {
        assert_eq!(c.index, i);
        assert_eq!(c.end - c.start + 1, 50 * MIB);
        assert!(matches!(c.status, ChunkStatus::Pending));
        assert_eq!(c.downloaded, 0);
    }
    assert_eq!(cs[0].start, 0);
    assert_eq!(cs[3].end, 200 * MIB - 1);
    for w in cs.windows(2) {
        assert_eq!(w[1].start, w[0].end + 1);
    }
}

#[test]
fn small_file_gets_one_chunk() {
    let cs = calculate_chunks(1000, 8, MIB);
    assert_eq!(cs.len(), 1);
    assert_eq!(cs[0].start, 0);
    assert_eq!(cs[0].end, 999);
}

#[test]
fn short_tail_chunk() {
    // chunk size max(10/3, 3) = 3: ranges [0,2][3,5][6,8][9,9]
    let cs = calculate_chunks(10, 3, 3);
    assert_eq!(cs.len(), 4);
    assert_eq!((cs[0].start, cs[0].end), (0, 2));
    assert_eq!((cs[3].start, cs[3].end), (9, 9));
}

#[test]
fn chunk_claiming_and_accounting() {
    let mut cs = calculate_chunks(10, 3, 3);
    let (i, mut c) = claim_next_pending(&mut cs).expect("first chunk claimed");
    assert_eq!(i, 0);
    assert!(matches!(cs[0].status, ChunkStatus::Downloading));
    record_chunk_bytes(&mut c, 3);
    assert_eq!(c.downloaded, 3);
    finish_chunk(&mut c);
    assert!(matches!(c.status, ChunkStatus::Completed));
    cs[0] = c;
    let (j, _) = claim_next_pending(&mut cs).expect("next pending chunk");
    assert_eq!(j, 1);
    assert_eq!(active_connections(&cs), 1);
    assert!(!all_completed(&cs));
    assert_eq!(total_downloaded(&cs, 10), 3);
}

#[test]
fn failed_chunk_keeps_retry_count() {
    let mut cs = calculate_chunks(10, 1, 3);
    let (_, mut c) = claim_next_pending(&mut cs).unwrap();
    fail_chunk(&mut c, 5);
    assert!(matches!(c.status, ChunkStatus::Failed));
    assert_eq!(c.retries, 5);
}

#[test]
fn completed_chunks_cover_the_file() {
    let mut cs = calculate_chunks(10, 3, 3);
    let n = cs.len();
    for _ in 0..n {
        let (i, mut c) = claim_next_pending(&mut cs).unwrap();
        let len = c.end - c.start + 1;
        record_chunk_bytes(&mut c, len);
        finish_chunk(&mut c);
        cs[i] = c;
    }
    assert!(all_completed(&cs));
    assert_eq!(total_downloaded(&cs, 10), 10);
    assert!(claim_next_pending(&mut cs).is_none());
}

#[test]
fn range_requests_resume_mid_chunk() {
    let mut cs = calculate_chunks(100, 2, 10);
    let (_, mut c) = claim_next_pending(&mut cs).unwrap();
    record_chunk_bytes(&mut c, 7);
    assert_eq!(chunk_range_start(&c), 7);
    assert_eq!(range_header_value(chunk_range_start(&c), c.end), "bytes=7-49");
}

#[test]
fn custom_config_validation() {
    let c = validate_custom_config(4, 2048).expect("valid configuration");
    assert_eq!(c.max_connections, 4);
    assert_eq!(c.min_chunk_size, 2048);
    assert_eq!(c.max_retries, 5);
    assert_eq!(c.timeout_seconds, 30);
    assert!(validate_custom_config(0, 2048).is_err());
    assert!(validate_custom_config(33, 2048).is_err());
    assert!(validate_custom_config(4, 1023).is_err());
}

#[test]
fn default_config() {
    let c = MultiThreadConfig::default();
    assert_eq!(c.max_connections, 8);
    assert_eq!(c.min_chunk_size, MIB);
    assert_eq!(c.max_retries, 5);
    assert_eq!(c.timeout_seconds, 30);
}

#[test]
fn probe_interpretation() {
    assert!(accept_ranges_supported("bytes"));
    assert!(accept_ranges_supported("none, bytes"));
    assert!(!accept_ranges_supported("none"));
    assert_eq!(parse_content_length("209715200"), Some(209715200));
    assert_eq!(parse_content_length("0"), Some(0));
    assert_eq!(parse_content_length(""), None);
    assert_eq!(parse_content_length("12a"), None);
    assert_eq!(parse_content_length("-5"), None);
    assert_eq!(parse_content_length("18446744073709551615"), Some(u64::MAX));
    assert_eq!(parse_content_length("18446744073709551616"), None);
}

#[test]
fn worker_counts() {
    assert_eq!(openstore::multi::worker_count(true, 4, 8), 4);
    assert_eq!(openstore::multi::worker_count(true, 12, 8), 8);
    assert_eq!(openstore::multi::worker_count(false, 12, 8), 1);
}

#[test]
fn chunk_worker_control() {
    assert!(control_stops_worker(&DownloadControl::Pause));
    assert!(control_stops_worker(&DownloadControl::Cancel));
    assert!(!control_stops_worker(&DownloadControl::Resume));
    assert!(!buffer_should_flush(8191));
    assert!(buffer_should_flush(8192));
}

#[test]
fn aggregator_report() {
    let r = progress_report("t1".to_string(), 200 * MIB, 50 * MIB, 4, 10 * MIB);
    assert_eq!(r.task_id, "t1");
    assert_eq!(r.progress, 25);
    assert_eq!(r.active_connections, 4);
    assert_eq!(r.speed, "10.0 MB/s");
    assert_eq!(r.eta.as_deref(), Some("15s"));
    let idle = progress_report("t1".to_string(), 200 * MIB, 0, 0, 0);
    assert!(idle.eta.is_none());
    assert_eq!(eta_string(100, 50, 0), None);
    assert_eq!(eta_string(100, 40, 2).as_deref(), Some("30s"));
}

#[test]
fn single_stream_control_signals() {
    let my = "task_9";
    assert_eq!(
        control_action(&TaskControl::Pause("task_9".to_string()), my),
        ControlAction::StopPaused
    );
    assert_eq!(
        control_action(&TaskControl::Cancel("task_9".to_string()), my),
        ControlAction::StopCancelled
    );
    assert_eq!(
        control_action(&TaskControl::Resume("task_9".to_string()), my),
        ControlAction::ContinueResumed
    );
    assert_eq!(
        control_action(&TaskControl::Pause("other".to_string()), my),
        ControlAction::Ignore
    );
}

#[test]
fn retry_ladders() {
    assert!(is_terminal_http(404));
    assert!(is_terminal_http(401));
    assert!(is_terminal_http(403));
    assert!(!is_terminal_http(500));
    assert!(is_acceptable_status(200));
    assert!(is_acceptable_status(206));
    assert!(!is_acceptable_status(404));
    assert_eq!(head_status_wait(4), 0);
    assert_eq!(head_status_wait(1), 3);
    assert_eq!(head_error_wait(NetErrorKind::Timeout), 5);
    assert_eq!(head_error_wait(NetErrorKind::Connect), 3);
    assert_eq!(head_error_wait(NetErrorKind::Other), 2);
    assert_eq!(get_status_wait(4), 2);
    assert_eq!(get_error_wait(NetErrorKind::Timeout), 8);
    assert_eq!(get_error_wait(NetErrorKind::Connect), 5);
    assert_eq!(get_error_wait(NetErrorKind::Other), 3);
    assert_eq!(reconnect_wait(5), 1);
    assert_eq!(reconnect_wait(4), 2);
    assert_eq!(reconnect_wait(3), 4);
    assert_eq!(reconnect_wait(2), 8);
    assert_eq!(reconnect_wait(1), 16);
}

#[test]
fn progress_throttle() {
    assert!(!should_emit_progress(49, 131071));
    assert!(should_emit_progress(50, 0));
    assert!(should_emit_progress(0, 131072));
}

#[test]
fn stream_error_budgets() {
    let mut s = StreamProgress::new(0, 1000);
    s.set_total(1000);
    s.on_chunk(100);
    assert_eq!(s.downloaded, 100);
    assert!(matches!(s.on_read_error(), ChunkErrorAction::Wait(1)));
    assert!(matches!(s.on_read_error(), ChunkErrorAction::Wait(2)));
    // three in a row trigger a reconnect
    assert!(matches!(s.on_read_error(), ChunkErrorAction::Reconnect));
    s.on_reconnected();
    assert_eq!(s.consecutive_errors, 0);
    assert_eq!(s.total_errors, 3);
    // a good chunk clears the consecutive run only
    s.on_chunk(1);
    assert_eq!(s.total_errors, 3);
    // the tenth error in all gives the download up
    for _ in 0..6 {
        s.on_read_error();
    }
    assert!(matches!(s.on_read_error(), ChunkErrorAction::Fail));
}

#[test]
fn worker_snapshots() {
    let t = openstore::task::new_task(
        "download_1".to_string(),
        "https://example.test/a".to_string(),
        "a".to_string(),
        "/dl/a".to_string(),
        0,
        1,
        false,
        None,
    );
    let p = progress_snapshot(&t, 512, 2048, "1.0 KB/s".to_string());
    assert_eq!(p.downloaded_size, 512);
    assert_eq!(p.total_size, 2048);
    assert_eq!(p.progress, 25);
    assert_eq!(p.speed, "1.0 KB/s");
    assert!(matches!(p.status, openstore::task::DownloadStatus::Downloading));
    let done = completed_snapshot(&t, 2048, 2048);
    assert_eq!(done.progress, 100);
    assert_eq!(done.speed, "0.0 B/s");
    assert!(matches!(done.status, openstore::task::DownloadStatus::Completed));
}

#[test]
fn config_round_trip() {
    // setting the directory and reading it back returns the same path
    for p in ["/home/user/Downloads", "C:\\Users\\u\\Downloads", "/odd\"quote", ""] {
        let rendered = render_config(p);
        assert_eq!(parse_config(&rendered).as_deref(), Some(p));
    }
}

#[test]
fn rendered_config_is_the_expected_json() {
    assert_eq!(
        render_config("/dl"),
        "{\"download_directory\": \"/dl\"}"
    );
    assert_eq!(
        render_config("a\\b\"c"),
        "{\"download_directory\": \"a\\\\b\\\"c\"}"
    );
}

#[test]
fn foreign_config_content_is_refused() {
    assert_eq!(parse_config(""), None);
    assert_eq!(parse_config("{}"), None);
    assert_eq!(parse_config("{\"download_directory\": \"unterminated}"), None);
    assert_eq!(parse_config("{\"other_key\": \"/dl\"}"), None);
}

#[test]
fn directory_resolution_order() {
    let rendered = render_config("/configured");
    assert_eq!(
        choose_download_directory(Some(rendered), Some("/os".to_string())),
        "/configured"
    );
    assert_eq!(
        choose_download_directory(Some("garbage".to_string()), Some("/os".to_string())),
        "/os"
    );
    assert_eq!(choose_download_directory(None, Some("/os".to_string())), "/os");
    assert_eq!(choose_download_directory(None, None), "./downloads");
    assert_eq!(default_downloads_dir(), "./downloads");
}

#[test]
fn set_directory_validation() {
    assert!(set_directory_config("/dl", false, false).is_err());
    assert!(set_directory_config("/dl", true, false).is_err());
    let content = set_directory_config("/dl", true, true).expect("existing directory accepted");
    assert_eq!(parse_config(&content).as_deref(), Some("/dl"));
}

#[test]
fn config_location() {
    assert_eq!(
        config_file_path("/home/u/.config"),
        "/home/u/.config/OpenStore/download_config.json"
    );
}

#[test]
fn host_environment_wrappers() {
    // the clock runs: two readings are ordered
    let a = current_millis();
    let b = current_millis();
    assert!(a <= b);
    // a parsed configuration wins over whatever the host reports
    let rendered = render_config("/chosen");
    assert_eq!(host_download_directory(Some(rendered)), "/chosen");
    let fallback = host_download_directory(None);
    assert!(!fallback.is_empty());
    if let Some(p) = host_config_file_path() {
        assert!(p.ends_with("OpenStore/download_config.json"));
    }
}

#[test]
fn no_range_support_means_one_worker_one_chunk() {
    // a server answering 200 without ranges gets a single chunk and worker
    let total = 10 * MIB;
    let cs = calculate_chunks(total, 1, total);
    assert_eq!(cs.len(), 1);
    assert_eq!((cs[0].start, cs[0].end), (0, total - 1));
    assert_eq!(openstore::multi::worker_count(false, cs.len(), 8), 1);
}
