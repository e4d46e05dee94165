use tui_downloader::aria2::{Aria2File, Aria2Status, BitTorrentInfo};
use tui_downloader::daemon::{encode, startup_step, token_param, RpcFailure, StartupError, StartupStep};
use tui_downloader::download_manager::{
    decode, deletion_report, extract_filename, submit_kind, DownloadError, DownloadManager,
    SubmitKind,
};
use tui_downloader::models::DownloadType;
use tui_downloader::ui::utils::format_speed;

fn snapshot(gid: &str, status: &str, speed: u64) -> Aria2Status {
    Aria2Status {
        gid: gid.to_string(),
        status: status.to_string(),
        total_length: "1000".to_string(),
        completed_length: "250".to_string(),
        download_speed: speed.to_string(),
        upload_speed: "0".to_string(),
        connections: "4".to_string(),
        error_code: None,
        error_message: None,
        files: None,
        bittorrent: None,
        num_peers: None,
        bitfield: None,
        num_pieces: None,
    }
}

fn with_file(mut st: Aria2Status, path: &str) -> Aria2Status {
    st.files = Some(vec![Aria2File {
        index: "1".to_string(),
        path: path.to_string(),
        length: "1000".to_string(),
        completed_length: "250".to_string(),
        selected: "true".to_string(),
        uris: None,
    }]);
    st
}

#[test]
fn rate_formatting_examples() {
    assert_eq!(format_speed(0), "0 B/s");
    assert_eq!(format_speed(1024), "1.00 KB/s");
    assert_eq!(tui_downloader::ui::utils::format_size(1073741824), "1.00 GB");
}

#[test]
fn aggregate_of_active_complete_and_waiting() {
    let mut m = DownloadManager::new();
    m.update_downloads(
        &vec![snapshot("a", "active", 1048576)],
        &vec![snapshot("w", "waiting", 0)],
        &vec![snapshot("c", "complete", 0)],
    );
    let stats = m.get_global_stats();
    assert_eq!(stats.num_active, 1);
    assert_eq!(stats.num_stopped, 1);
    assert_eq!(stats.num_waiting, 1);
    assert_eq!(stats.download_speed, 1048576);
    assert_eq!(stats.num_stopped_total, 3);
}

#[test]
fn magnet_add_names_and_classifies_before_any_poll() {
    let mut m = DownloadManager::new();
    let input = "magnet:?xt=urn:btih:ABC&dn=MyFile";
    assert_eq!(submit_kind(input), SubmitKind::Uri);
    assert!(m.add_download(input, "g1"));
    let d = m.get_download("g1").unwrap();
    assert_eq!(d.name, "MyFile");
    assert_eq!(d.download_type, DownloadType::Torrent);
    assert_eq!(d.status, "WAITING");
    assert_eq!(d.url, Some(input.to_string()));
    assert_eq!(d.progress(), (0, 1));
}

#[test]
fn delete_file_of_missing_file_still_removes_entry() {
    let mut m = DownloadManager::new();
    m.update_downloads(&vec![with_file(snapshot("g", "active", 5), "/tmp/none/movie.mkv")], &vec![], &vec![]);
    let (name, path) = m.delete_file("g").unwrap();
    assert_eq!(name, "movie.mkv");
    assert_eq!(path, Some("/tmp/none/movie.mkv".to_string()));
    assert!(m.get_download("g").is_none());
    let report = deletion_report(&name, Some(Err("No such file or directory (os error 2)".to_string())));
    assert_eq!(
        report,
        Err("Failed to delete file movie.mkv: No such file or directory (os error 2)".to_string())
    );
    assert_eq!(deletion_report("x", None), Ok("Removed from list: x (file not found)".to_string()));
    assert_eq!(deletion_report("x", Some(Ok(()))), Ok("Deleted file: x".to_string()));
    assert_eq!(m.delete_file("g").unwrap_err(), DownloadError::NotFound);
}

#[test]
fn removed_id_is_not_brought_back_by_a_poll() {
    let mut m = DownloadManager::new();
    m.update_downloads(&vec![snapshot("g", "active", 1)], &vec![], &vec![]);
    assert!(m.get_download("g").is_some());
    m.remove_download("g");
    m.update_downloads(&vec![snapshot("g", "active", 1)], &vec![], &vec![snapshot("g", "complete", 0)]);
    assert!(m.get_download("g").is_none());
    assert!(m.is_deleted("g"));
    assert!(!m.add_download("http://x/y.zip", "g"));
    assert!(m.get_all_downloads().is_empty());
}

#[test]
fn rate_history_is_a_window_of_sixty() {
    let mut m = DownloadManager::new();
    for i in 0..70u64 {
        m.update_downloads(&vec![snapshot("g", "active", i)], &vec![], &vec![]);
    }
    let d = m.get_download("g").unwrap();
    assert_eq!(d.speed_history.len(), 60);
    assert_eq!(d.speed_history[0], 10);
    assert_eq!(d.speed_history[59], 69);
    assert_eq!(d.speed, "69 B/s");
}

#[test]
fn progress_follows_byte_counts() {
    let mut m = DownloadManager::new();
    let mut st = snapshot("g", "active", 0);
    st.total_length = "0".to_string();
    st.completed_length = "77".to_string();
    m.update_downloads(&vec![st], &vec![], &vec![]);
    assert_eq!(m.get_download("g").unwrap().progress(), (0, 1));
    m.update_downloads(&vec![snapshot("g", "active", 0)], &vec![], &vec![]);
    let (done, total) = m.get_download("g").unwrap().progress();
    assert_eq!(done as f64 / total as f64, 0.25);
}

#[test]
fn retry_gives_a_new_entry_with_the_same_source() {
    let mut m = DownloadManager::new();
    let url = "https://example.com/files/archive.tar.gz?token=1";
    assert!(m.add_download(url, "old"));
    m.update_downloads(&vec![], &vec![], &vec![snapshot("old", "error", 0)]);
    let src = m.retry_download("old").unwrap();
    assert_eq!(src, url);
    assert!(m.get_download("old").is_none());
    assert!(m.add_download(&src, "new"));
    let d = m.get_download("new").unwrap();
    assert_eq!(d.progress(), (0, 1));
    assert_eq!(d.url, Some(url.to_string()));
    assert_eq!(d.name, "archive.tar.gz");
    assert_eq!(d.download_type, DownloadType::Http);
}

#[test]
fn retry_needs_an_entry_with_a_source() {
    let mut m = DownloadManager::new();
    assert_eq!(m.retry_download("nope"), Err(DownloadError::NotFound));
    m.update_downloads(&vec![snapshot("d", "active", 0)], &vec![], &vec![]);
    assert_eq!(m.retry_download("d"), Err(DownloadError::NoUrlAvailable));
    assert!(m.get_download("d").is_some());
}

#[test]
fn purge_removes_complete_and_failed_entries() {
    let mut m = DownloadManager::new();
    m.update_downloads(
        &vec![snapshot("a", "active", 0)],
        &vec![snapshot("w", "paused", 0)],
        &vec![snapshot("c", "complete", 0), snapshot("e", "error", 0)],
    );
    assert_eq!(m.purge_completed(), 2);
    assert_eq!(m.get_all_downloads().len(), 2);
    assert!(m.is_deleted("c"));
    assert!(m.is_deleted("e"));
    assert!(!m.is_deleted("a"));
}

#[test]
fn discovered_entries_take_name_and_telemetry_from_the_snapshot() {
    let mut m = DownloadManager::new();
    let mut st = with_file(snapshot("t", "active", 2048), "/dl/ubuntu.iso");
    st.bittorrent = Some(BitTorrentInfo { num_seeders: "12".to_string() });
    st.num_peers = Some("30".to_string());
    st.num_pieces = Some("abc".to_string());
    m.update_downloads(&vec![st], &vec![], &vec![snapshot("u", "complete", 0)]);
    let d = m.get_download("t").unwrap();
    assert_eq!(d.name, "ubuntu.iso");
    assert_eq!(d.download_type, DownloadType::Torrent);
    assert_eq!(d.seeds, 12);
    assert_eq!(d.peers, 30);
    assert_eq!(d.num_pieces, 0);
    assert_eq!(d.connections, 4);
    assert_eq!(d.speed, "2.00 KB/s");
    assert_eq!(d.status, "ACTIVE");
    assert_eq!(d.speed_history, vec![2048]);
    assert_eq!(m.get_download("u").unwrap().name, "Unknown");
    assert_eq!(m.get_active_downloads().len(), 2);
    assert_eq!(m.get_completed_downloads().len(), 1);
}

#[test]
fn filenames_of_sources() {
    assert_eq!(extract_filename("magnet:?xt=urn:btih:ABC&dn=My+Big%20File&tr=x"), "My Big File");
    assert_eq!(extract_filename("magnet:?xt=urn:btih:ABC"), "Magnet Download");
    assert_eq!(extract_filename("https://host/dir/"), "Unknown");
    assert_eq!(extract_filename("/path/to/file.torrent"), "file.torrent");
    assert_eq!(submit_kind("/path/to/file.torrent"), SubmitKind::Torrent);
    assert_eq!(submit_kind("/path/to/file.meta4"), SubmitKind::Metalink);
}

#[test]
fn percent_decoding() {
    assert_eq!(decode("a%41b").unwrap(), "aAb");
    assert_eq!(decode("%zz%4").unwrap(), "%zz%4");
    assert_eq!(decode("%+5x").unwrap(), "%+5x");
    assert_eq!(decode("%e9t%C3%A9").unwrap(), "\u{e9}t\u{c3}\u{a9}");
    assert_eq!(decode("1+1").unwrap(), "1 1");
}

#[test]
fn transport_decisions() {
    assert_eq!(token_param("s3cret"), "token:s3cret");
    assert_eq!(encode(&b"hello".to_vec()), "aGVsbG8=");
    assert!(matches!(startup_step(Ok(()), false), StartupStep::Ready));
    assert!(matches!(startup_step(Err(RpcFailure::Transport("refused".to_string())), false), StartupStep::Spawn));
    assert!(matches!(
        startup_step(Err(RpcFailure::Transport("refused".to_string())), true),
        StartupStep::Fail(StartupError::Unreachable)
    ));
    assert!(matches!(
        startup_step(Err(RpcFailure::Rpc("Unauthorized".to_string())), false),
        StartupStep::Fail(StartupError::Refused(_))
    ));
}

#[test]
fn base64_groups_and_padding() {
    assert_eq!(encode(&Vec::new()), "");
    assert_eq!(encode(&b"f".to_vec()), "Zg==");
    assert_eq!(encode(&b"fo".to_vec()), "Zm8=");
    assert_eq!(encode(&b"foo".to_vec()), "Zm9v");
    assert_eq!(encode(&vec![0xfb, 0xff]), "+/8=");
}

#[test]
fn reconciliation_keeps_source_and_slides_histories() {
    let mut m = DownloadManager::new();
    let url = "https://example.com/a.bin";
    assert!(m.add_download(url, "g"));
    m.update_downloads(&vec![snapshot("g", "active", 5)], &vec![], &vec![snapshot("g", "complete", 7)]);
    let d = m.get_download("g").unwrap();
    assert_eq!(d.url, Some(url.to_string()));
    assert_eq!(d.download_type, DownloadType::Http);
    assert_eq!(d.speed_history, vec![5, 7]);
    assert_eq!(d.status, "COMPLETE");
}
