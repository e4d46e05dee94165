use tui_downloader::models::{
    resolve_download_dir, ConfirmAction, Download, DownloadType, SortDirection, SortField,
    SpeedLimitSettings, UrlHistory,
};

#[test]
fn test_sort_field_cycle() {
    let mut field = SortField::Name;
    field = field.next();
    assert_eq!(field, SortField::Size);
    field = field.next();
    assert_eq!(field, SortField::Progress);
}

#[test]
fn test_sort_direction_toggle() {
    let dir = SortDirection::Ascending;
    assert_eq!(dir.toggle(), SortDirection::Descending);
    assert_eq!(dir.toggle().toggle(), SortDirection::Ascending);
}

#[test]
fn test_speed_limit_parse() {
    assert_eq!(SpeedLimitSettings::parse_limit("5m"), Some(5 * 1024 * 1024));
    assert_eq!(SpeedLimitSettings::parse_limit("5 MB/s"), Some(5 * 1024 * 1024));
    assert_eq!(SpeedLimitSettings::parse_limit("500k"), Some(500 * 1024));
    assert_eq!(SpeedLimitSettings::parse_limit("0"), Some(0));
    assert_eq!(SpeedLimitSettings::parse_limit("unlimited"), Some(0));
}

#[test]
fn test_url_history() {
    let mut history = UrlHistory::new(3);
    history.add("https://example.com/file1.zip");
    history.add("https://example.com/file2.zip");
    history.add("https://example.com/file3.zip");
    history.add("https://example.com/file4.zip");

    assert_eq!(history.entries.len(), 3);
    assert_eq!(history.entries[0], "https://example.com/file4.zip");
}

#[test]
fn test_url_history_filter() {
    let mut history = UrlHistory::new(10);
    history.add("https://example.com/video.mp4");
    history.add("https://test.com/audio.mp3");
    history.add("https://example.com/image.png");

    let filtered = history.filter("example");
    assert_eq!(filtered.len(), 2);
}

#[test]
fn test_download_default() {
    let download = Download::default();
    assert_eq!(download.status, "IDLE");
    let (done, total) = download.progress();
    assert_eq!(done as f64 / total as f64, 0.0);
}

#[test]
fn url_history_moves_a_repeated_url_to_the_front() {
    let mut history = UrlHistory::new(5);
    history.add("a");
    history.add("b");
    history.add("a");
    assert_eq!(history.entries, vec!["a".to_string(), "b".to_string()]);
    let mut empty = UrlHistory::new(0);
    empty.add("a");
    assert!(empty.entries.is_empty());
}

#[test]
fn url_history_filter_ignores_case_and_keeps_five() {
    let mut history = UrlHistory::new(10);
    for i in 0..7 {
        history.add(&format!("https://EXAMPLE.com/{}", i));
    }
    let filtered = history.filter("Example");
    assert_eq!(filtered.len(), 5);
    assert_eq!(filtered[0], "https://EXAMPLE.com/6");
}

#[test]
fn limit_parsing_edge_cases() {
    assert_eq!(SpeedLimitSettings::parse_limit("  1.5G  "), Some(1610612736));
    assert_eq!(SpeedLimitSettings::parse_limit("2048"), Some(2048));
    assert_eq!(SpeedLimitSettings::parse_limit("0.5k"), Some(512));
    assert_eq!(SpeedLimitSettings::parse_limit("1.2.3m"), None);
    assert_eq!(SpeedLimitSettings::parse_limit("fast"), None);
    assert_eq!(SpeedLimitSettings::parse_limit(""), Some(0));
    assert_eq!(SpeedLimitSettings::parse_limit("99999999999999999999999g"), Some(u64::MAX));
}

#[test]
fn limit_formatting() {
    assert_eq!(SpeedLimitSettings::format_limit(0), "Unlimited");
    assert_eq!(SpeedLimitSettings::format_limit(1536), "1.50 KB/s");
}

#[test]
fn sort_field_names() {
    assert_eq!(SortField::DateAdded.as_str(), "Date Added");
    assert_eq!(SortField::Status.next(), SortField::Name);
    assert_eq!(SortDirection::Descending.as_str(), "v");
}

#[test]
fn confirm_actions_compare_by_id() {
    assert!(ConfirmAction::DeleteFile("a".to_string()) == ConfirmAction::DeleteFile("a".to_string()));
    assert!(ConfirmAction::DeleteFile("a".to_string()) != ConfirmAction::RetryDownload("a".to_string()));
    assert!(ConfirmAction::Quit == ConfirmAction::Quit);
}

#[test]
fn download_directory_fallbacks() {
    assert_eq!(resolve_download_dir(Some("/data/dl".to_string()), Some("/home/a".to_string())), "/data/dl");
    assert_eq!(resolve_download_dir(None, Some("/home/a".to_string())), "/home/a/Downloads");
    assert_eq!(resolve_download_dir(None, Some("/home/a/".to_string())), "/home/a/Downloads");
    assert_eq!(resolve_download_dir(None, None), "./Downloads");
}

#[test]
fn progress_is_completed_over_total() {
    let mut d = Download::default();
    d.total_length = 200;
    d.completed_length = 50;
    assert_eq!(d.progress(), (50, 200));
    d.total_length = 0;
    assert_eq!(d.progress(), (0, 1));
    assert_eq!(d.download_type, DownloadType::Http);
}

#[test]
fn settings_with_a_download_folder() {
    let s = tui_downloader::models::AppSettings::with_download_dir("/data/dl".to_string());
    assert_eq!(s.download_dir, "/data/dl");
    assert_eq!(s.max_connections, 16);
    assert_eq!(s.max_concurrent_downloads, 5);
    assert_eq!(s.split_size, "1M");
    assert_eq!(s.theme, "dark");
}
