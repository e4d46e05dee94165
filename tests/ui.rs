use tui_downloader::models::{Download, DownloadType, InputMode};
use tui_downloader::ui::app::{create_placeholder_download, get_selected_download, get_shortcuts_for_mode, AppState};
use tui_downloader::ui::details_panel::{build_indicator_dots, count_completed_pieces};
use tui_downloader::ui::downloads_list::{calculate_scroll_offset, validate_selection};
use tui_downloader::ui::global_stats;
use tui_downloader::ui::input_field::is_valid_input;
use tui_downloader::ui::popup::PopupType;
use tui_downloader::ui::speed_limit_popup::{format_speed_limit, parse_speed_limit, SpeedLimitState};
use tui_downloader::ui::status_bar::{determine_message_style, MessageTone};
use tui_downloader::ui::tabs::format_tab_title;
use tui_downloader::ui::utils::{
    calculate_global_stats, count_by_tab, download_type_name, filter_by_search, filter_by_tab,
    format_download_eta, format_duration, format_eta, format_size, format_speed, is_active,
    is_completed, is_error, is_queued, parse_speed, sort_downloads, truncate_text, GlobalStats,
    SortOrder,
};

/// A transfer with the given status and progress, written as completed over total bytes.
fn create_test_download(status: &str, completed: u64, total: u64) -> Download {
    Download {
        gid: Some("test".to_string()),
        name: "test.txt".to_string(),
        url: None,
        speed: "0 B/s".to_string(),
        status: status.to_string(),
        total_length: total,
        completed_length: completed,
        download_type: DownloadType::Http,
        speed_history: vec![],
        upload_speed: "".to_string(),
        upload_speed_history: vec![0, 0],
        connections: 0,
        file_path: None,
        error_message: None,
        seeds: 0,
        peers: 0,
        bitfield: None,
        num_pieces: 0,
    }
}

#[test]
fn utils_test_format_size() {
    assert_eq!(format_size(0), "0 B");
    assert_eq!(format_size(512), "512 B");
    assert_eq!(format_size(1024), "1.00 KB");
    assert_eq!(format_size(1536), "1.50 KB");
    assert_eq!(format_size(1048576), "1.00 MB");
    assert_eq!(format_size(1073741824), "1.00 GB");
}

#[test]
fn utils_test_format_speed() {
    assert_eq!(format_speed(0), "0 B/s");
    assert_eq!(format_speed(1024), "1.00 KB/s");
    assert_eq!(format_speed(1048576), "1.00 MB/s");
}

#[test]
fn test_format_eta() {
    assert_eq!(format_eta(1024, 0), "∞");
    assert_eq!(format_eta(60, 1), "1m 0s");
    assert_eq!(format_eta(3600, 1), "1h 0m");
    assert_eq!(format_eta(86400, 1), "1d 0h");
    assert_eq!(format_eta(1024, 1024), "1s");
}

#[test]
fn test_format_duration() {
    assert_eq!(format_duration(0), "0s");
    assert_eq!(format_duration(30), "30s");
    assert_eq!(format_duration(90), "1m 30s");
    assert_eq!(format_duration(3661), "1h 1m");
    assert_eq!(format_duration(90061), "1d 1h");
}

#[test]
fn test_truncate_text() {
    assert_eq!(truncate_text("short", 10), "short");
    assert_eq!(truncate_text("this is a very long text", 10), "this is...");
}

#[test]
fn test_is_active() {
    let download = create_test_download("ACTIVE", 50, 100);
    assert!(is_active(&download));

    let download = create_test_download("WAITING", 0, 100);
    assert!(!is_active(&download));
}

#[test]
fn test_is_queued() {
    let download = create_test_download("WAITING", 0, 100);
    assert!(is_queued(&download));

    let download = create_test_download("PAUSED", 50, 100);
    assert!(is_queued(&download));
}

#[test]
fn test_is_completed() {
    let download = create_test_download("COMPLETE", 100, 100);
    assert!(is_completed(&download));

    let download = create_test_download("ACTIVE", 50, 100);
    assert!(!is_completed(&download));
}

#[test]
fn test_is_error() {
    let download = create_test_download("ERROR", 0, 100);
    assert!(is_error(&download));

    let download = create_test_download("ACTIVE", 50, 100);
    assert!(!is_error(&download));
}

#[test]
fn test_filter_by_search() {
    let d1 = create_test_download("ACTIVE", 50, 100);
    let mut d2 = create_test_download("ACTIVE", 30, 100);
    d2.name = "other_file.zip".to_string();

    let downloads: Vec<&Download> = vec![&d1, &d2];

    let filtered = filter_by_search(&downloads, "test");
    assert_eq!(filtered.len(), 1);

    let filtered = filter_by_search(&downloads, "");
    assert_eq!(filtered.len(), 2);

    let filtered = filter_by_search(&downloads, "TEST");
    assert_eq!(filtered.len(), 1);
}

#[test]
fn test_sort_order() {
    assert_eq!(SortOrder::Name.next(), SortOrder::Size);
    assert_eq!(SortOrder::Status.next(), SortOrder::Name);
    assert_eq!(SortOrder::Name.prev(), SortOrder::Status);
}

#[test]
fn test_parse_speed() {
    assert_eq!(parse_speed("100 B/s"), 100);
    assert_eq!(parse_speed("1.00 KB/s"), 1024);
    assert_eq!(parse_speed("1.00 MB/s"), 1048576);
    assert_eq!(parse_speed("invalid"), 0);
}

#[test]
fn test_global_stats() {
    let d1 = create_test_download("ACTIVE", 50, 100);
    let d2 = create_test_download("COMPLETE", 100, 100);
    let d3 = create_test_download("WAITING", 0, 100);

    let downloads = vec![d1, d2, d3];
    let stats = calculate_global_stats(&downloads);

    assert_eq!(stats.active_count, 1);
    assert_eq!(stats.completed_count, 1);
    assert_eq!(stats.waiting_count, 1);
}

#[test]
fn test_exports() {
    let _ = SortOrder::Name;
    let _ = PopupType::Info;
}

#[test]
fn test_shortcuts_for_all_modes() {
    let modes = vec![
        InputMode::Normal,
        InputMode::Editing,
        InputMode::Search,
        InputMode::SpeedLimit,
        InputMode::Help,
        InputMode::Confirmation,
        InputMode::Settings,
    ];

    for mode in modes {
        let (scope, shortcuts) = get_shortcuts_for_mode(mode);
        assert!(!scope.is_empty(), "Mode {:?} should have a scope name", mode);
        assert!(!shortcuts.is_empty(), "Mode {:?} should have shortcuts", mode);
    }
}

#[test]
fn test_download_creation() {
    let mut download = create_test_download("ACTIVE", 50, 100);
    download.name = "test.zip".to_string();
    assert_eq!(download.name, "test.zip");
    assert_eq!(download.status, "ACTIVE");
}

#[test]
fn test_torrent_download() {
    let mut download = create_test_download("ACTIVE", 50, 100);
    download.download_type = DownloadType::Torrent;
    download.seeds = 15;
    download.peers = 42;
    assert_eq!(download.download_type, DownloadType::Torrent);
    assert_eq!(download.seeds, 15);
    assert_eq!(download.peers, 42);
}

#[test]
fn test_error_download() {
    let mut download = create_test_download("ERROR", 0, 100);
    download.error_message = Some("Connection refused".to_string());
    assert_eq!(download.status, "ERROR");
    assert_eq!(download.error_message, Some("Connection refused".to_string()));
}

#[test]
fn test_build_indicator_dots() {
    assert_eq!(build_indicator_dots(0, 10), "○○○○○");
    assert_eq!(build_indicator_dots(5, 10), "●●●○○");
    assert_eq!(build_indicator_dots(10, 10), "●●●●●");
    assert_eq!(build_indicator_dots(20, 10), "●●●●●");
}

#[test]
fn test_count_completed_pieces() {
    let mut download = create_test_download("ACTIVE", 50, 100);
    download.bitfield = Some("ff".to_string());
    download.num_pieces = 8;
    assert_eq!(count_completed_pieces(&download), 8);

    download.bitfield = Some("f0".to_string());
    assert_eq!(count_completed_pieces(&download), 4);

    download.bitfield = None;
    assert_eq!(count_completed_pieces(&download), 0);
}

#[test]
fn test_validate_selection_empty() {
    assert_eq!(validate_selection(Some(5), 0), None);
}

#[test]
fn test_validate_selection_out_of_bounds() {
    assert_eq!(validate_selection(Some(10), 5), Some(4));
}

#[test]
fn test_validate_selection_none() {
    assert_eq!(validate_selection(None, 5), Some(0));
}

#[test]
fn test_calculate_scroll_offset() {
    assert_eq!(calculate_scroll_offset(0, 10), 0);
    assert_eq!(calculate_scroll_offset(5, 10), 0);
    assert_eq!(calculate_scroll_offset(15, 10), 6);
    assert_eq!(calculate_scroll_offset(20, 10), 11);
}

#[test]
fn test_calculate_scroll_offset_zero_screen() {
    assert_eq!(calculate_scroll_offset(10, 0), 0);
}

#[test]
fn test_download_item_status_icons() {
    let download = create_test_download("ACTIVE", 50, 100);
    assert_eq!(download.status, "ACTIVE");

    let download = create_test_download("PAUSED", 50, 100);
    assert_eq!(download.status, "PAUSED");

    let download = create_test_download("COMPLETE", 100, 100);
    assert_eq!(download.status, "COMPLETE");
}

#[test]
fn global_stats_test_format_speed() {
    assert_eq!(global_stats::format_speed(0), "0 B/s");
    assert_eq!(global_stats::format_speed(512), "512 B/s");
    assert_eq!(global_stats::format_speed(1024), "1.0 KB/s");
    assert_eq!(global_stats::format_speed(1536), "1.5 KB/s");
    assert_eq!(global_stats::format_speed(1048576), "1.00 MB/s");
    assert_eq!(global_stats::format_speed(1073741824), "1.00 GB/s");
}

#[test]
fn test_format_speed_short() {
    assert_eq!(global_stats::format_speed_short(0), "0B");
    assert_eq!(global_stats::format_speed_short(1024), "1K");
    assert_eq!(global_stats::format_speed_short(1048576), "1M");
    assert_eq!(global_stats::format_speed_short(1073741824), "1G");
}

#[test]
fn global_stats_test_format_size() {
    assert_eq!(global_stats::format_size(0), "0 B");
    assert_eq!(global_stats::format_size(1024), "1.0 KB");
    assert_eq!(global_stats::format_size(1048576), "1.00 MB");
    assert_eq!(global_stats::format_size(1073741824), "1.00 GB");
}

#[test]
fn test_global_stats_default() {
    let stats = GlobalStats::default();
    assert_eq!(stats.active_count, 0);
    assert_eq!(stats.waiting_count, 0);
    assert_eq!(stats.completed_count, 0);
    assert_eq!(stats.error_count, 0);
    assert_eq!(stats.total_download_speed, 0);
    assert_eq!(stats.total_upload_speed, 0);
}

#[test]
fn test_input_field_modes() {
    assert_eq!(InputMode::Normal, InputMode::Normal);
    assert_eq!(InputMode::Editing, InputMode::Editing);
}

#[test]
fn test_is_valid_input() {
    assert!(is_valid_input("http://example.com/file.zip"));
    assert!(is_valid_input("https://example.com/file.zip"));
    assert!(is_valid_input("ftp://example.com/file.zip"));
    assert!(is_valid_input("magnet:?xt=urn:btih:abc123"));
    assert!(is_valid_input("/path/to/file.torrent"));
    assert!(is_valid_input("/path/to/file.metalink"));
    assert!(is_valid_input("/path/to/file.meta4"));
    assert!(!is_valid_input(""));
    assert!(!is_valid_input("invalid"));
}

#[test]
fn test_popup_types() {
    assert_eq!(PopupType::Confirmation, PopupType::Confirmation);
    assert_ne!(PopupType::Warning, PopupType::Error);
}

#[test]
fn test_parse_speed_limit() {
    assert_eq!(parse_speed_limit("5m"), Some(5 * 1024 * 1024));
    assert_eq!(parse_speed_limit("5mb"), Some(5 * 1024 * 1024));
    assert_eq!(parse_speed_limit("5 MB/s"), Some(5 * 1024 * 1024));
    assert_eq!(parse_speed_limit("500k"), Some(500 * 1024));
    assert_eq!(parse_speed_limit("500kb"), Some(500 * 1024));
    assert_eq!(parse_speed_limit("1g"), Some(1024 * 1024 * 1024));
    assert_eq!(parse_speed_limit("0"), Some(0));
    assert_eq!(parse_speed_limit("unlimited"), Some(0));
    assert_eq!(parse_speed_limit(""), Some(0));
    assert_eq!(parse_speed_limit("5"), Some(5 * 1024 * 1024));
}

#[test]
fn test_format_speed_limit() {
    assert_eq!(format_speed_limit(0), "Unlimited");
    assert_eq!(format_speed_limit(1024 * 1024), "1.0 MB/s");
    assert_eq!(format_speed_limit(500 * 1024), "500 KB/s");
    assert_eq!(format_speed_limit(1024 * 1024 * 1024), "1.0 GB/s");
}

#[test]
fn test_speed_limit_state() {
    let mut state = SpeedLimitState::new(0, 0);
    assert!(state.editing_download);

    state.toggle_field();
    assert!(!state.editing_download);

    state.toggle_field();
    assert!(state.editing_download);
}

#[test]
fn test_increase_decrease_limit() {
    let mut state = SpeedLimitState::new(0, 0);

    state.increase_limit();
    assert_eq!(state.download_limit, 1024 * 1024);

    state.increase_limit();
    assert_eq!(state.download_limit, 2 * 1024 * 1024);

    state.decrease_limit();
    assert_eq!(state.download_limit, 1024 * 1024);

    state.download_limit = 500 * 1024;
    state.decrease_limit();
    assert_eq!(state.download_limit, 400 * 1024);
}

#[test]
fn test_apply_input() {
    let mut state = SpeedLimitState::new(0, 0);
    state.input_buffer = "5m".to_string();

    assert!(state.apply_input());
    assert_eq!(state.download_limit, 5 * 1024 * 1024);
    assert!(state.input_buffer.is_empty());
}

#[test]
fn test_format_tab_title() {
    assert_eq!(format_tab_title("Active", 1, 5), "1 Active (5)");
    assert_eq!(format_tab_title("Queue", 2, 0), "2 Queue (0)");
    assert_eq!(format_tab_title("Completed", 3, 10), "3 Completed (10)");
}

#[test]
fn size_rounding_and_units() {
    assert_eq!(format_size(1099511627776), "1.00 TB");
    assert_eq!(format_size(1023), "1023 B");
    assert_eq!(format_size(1048575), "1024.00 KB");
    assert_eq!(format_speed(1540), "1.50 KB/s");
    assert_eq!(format_speed(u64::MAX), "17179869184.00 GB/s");
}

#[test]
fn speed_reading_edge_cases() {
    assert_eq!(parse_speed("  1.50   kb/s  "), 1536);
    assert_eq!(parse_speed("-5 B/s"), 0);
    assert_eq!(parse_speed("+7 B/s"), 7);
    assert_eq!(parse_speed("5 TB/s"), 0);
    assert_eq!(parse_speed("5"), 0);
}

#[test]
fn apply_input_rejects_unreadable_text() {
    let mut state = SpeedLimitState::new(7, 9);
    state.toggle_field();
    state.input_buffer = "1.2.3".to_string();
    assert!(!state.apply_input());
    assert_eq!(state.upload_limit, 9);
    assert_eq!(state.input_buffer, "1.2.3");
    state.input_buffer = "none".to_string();
    assert!(state.apply_input());
    assert_eq!(state.upload_limit, 0);
    assert_eq!(state.download_limit, 7);
}

#[test]
fn tabs_and_eta_of_transfers() {
    let downloads = vec![
        create_test_download("ACTIVE", 50, 100),
        create_test_download("COMPLETE", 100, 100),
        create_test_download("WAITING", 0, 100),
        create_test_download("PAUSED", 20, 100),
    ];
    assert_eq!(filter_by_tab(&downloads, 0).len(), 2);
    assert_eq!(count_by_tab(&downloads, 1), 2);
    assert_eq!(count_by_tab(&downloads, 2), 1);
    assert_eq!(count_by_tab(&downloads, 3), 0);
    assert_eq!(format_download_eta(&downloads[1]), "Complete");
    assert_eq!(format_download_eta(&downloads[3]), "Paused");
    let mut moving = create_test_download("ACTIVE", 40, 100);
    moving.speed_history = vec![10, 20, 30];
    assert_eq!(format_download_eta(&moving), "3s");
    moving.speed_history = vec![];
    assert_eq!(format_download_eta(&moving), "∞");
    assert_eq!(download_type_name(&moving), "HTTP/HTTPS");
}

#[test]
fn view_statistics_sum_rates_and_sizes() {
    let mut a = create_test_download("ACTIVE", 50, 100);
    a.speed = "1.00 KB/s".to_string();
    a.upload_speed = "100 B/s".to_string();
    let e = create_test_download("Error: timeout", 0, 100);
    let stats = calculate_global_stats(&[a, e]);
    assert_eq!(stats.total_download_speed, 1024);
    assert_eq!(stats.total_upload_speed, 100);
    assert_eq!(stats.error_count, 1);
    assert_eq!(stats.total_downloaded, 50);
    assert_eq!(stats.total_size, 200);
}

fn named_download(name: &str, status: &str) -> Download {
    let mut d = create_test_download(status, 512, 1024);
    d.name = name.to_string();
    d.gid = Some(format!("gid_{}", name));
    d
}

#[test]
fn test_placeholder_download() {
    let placeholder = create_placeholder_download();
    assert_eq!(placeholder.name, "No downloads");
    assert_eq!(placeholder.status, "IDLE");
    let (done, total) = placeholder.progress();
    assert_eq!(done as f64 / total as f64, 0.0);
}

#[test]
fn test_get_selected_download_empty() {
    let downloads: Vec<Download> = vec![];
    let filtered: Vec<&Download> = vec![];
    let result = get_selected_download(&downloads, &filtered, Some(0));
    assert_eq!(result.name, "No downloads");
}

#[test]
fn test_get_selected_download_with_selection() {
    let downloads = vec![named_download("file1.txt", "ACTIVE"), named_download("file2.txt", "WAITING")];
    let filtered: Vec<&Download> = downloads.iter().collect();
    let result = get_selected_download(&downloads, &filtered, Some(1));
    assert_eq!(result.name, "file2.txt");
}

#[test]
fn test_get_selected_download_out_of_bounds() {
    let downloads = vec![named_download("file1.txt", "ACTIVE")];
    let filtered: Vec<&Download> = vec![];
    let result = get_selected_download(&downloads, &filtered, Some(10));
    assert_eq!(result.name, "file1.txt");
}

#[test]
fn app_test_app_state_default() {
    let state = AppState::default();
    assert_eq!(state.current_tab, 0);
    assert!(state.search_query.is_empty());
    assert_eq!(state.sort_order, SortOrder::Name);
    assert!(state.sort_ascending);
    assert_eq!(state.download_limit, 0);
    assert_eq!(state.upload_limit, 0);
}

#[test]
fn mod_test_app_state_default() {
    let state = AppState::default();
    assert_eq!(state.current_tab, 0);
    assert!(state.search_query.is_empty());
    assert_eq!(state.sort_order, SortOrder::Name);
    assert!(state.sort_ascending);
}

#[test]
fn test_app_state_with_values() {
    let downloads: Vec<Download> = vec![];
    let state = AppState {
        downloads: &downloads,
        current_tab: 1,
        input_text: "test",
        input_mode: InputMode::Editing,
        status_message: "Hello",
        search_query: "query",
        sort_order: SortOrder::Size,
        sort_ascending: false,
        help_scroll: 5,
        speed_limit_state: None,
        download_limit: 1024,
        upload_limit: 512,
        selected_indices: &[0, 1, 2],
    };

    assert_eq!(state.current_tab, 1);
    assert_eq!(state.input_text, "test");
    assert_eq!(state.search_query, "query");
    assert_eq!(state.sort_order, SortOrder::Size);
    assert!(!state.sort_ascending);
    assert_eq!(state.help_scroll, 5);
    assert_eq!(state.download_limit, 1024);
    assert_eq!(state.upload_limit, 512);
    assert_eq!(state.selected_indices.len(), 3);
}

#[test]
fn sorting_by_each_order() {
    let mut a = named_download("beta.iso", "WAITING");
    a.total_length = 10;
    a.completed_length = 5;
    a.speed = "2.00 KB/s".to_string();
    let mut b = named_download("Alpha.zip", "ACTIVE");
    b.total_length = 30;
    b.completed_length = 3;
    b.speed = "900 B/s".to_string();
    let mut c = named_download("gamma.tar", "COMPLETE");
    c.total_length = 20;
    c.completed_length = 20;
    c.speed = "1.00 MB/s".to_string();
    let names = |v: &Vec<&Download>| v.iter().map(|d| d.name.clone()).collect::<Vec<String>>();

    let mut v = vec![&a, &b, &c];
    sort_downloads(&mut v, SortOrder::Name, true);
    assert_eq!(names(&v), vec!["Alpha.zip", "beta.iso", "gamma.tar"]);
    sort_downloads(&mut v, SortOrder::Size, false);
    assert_eq!(names(&v), vec!["Alpha.zip", "gamma.tar", "beta.iso"]);
    sort_downloads(&mut v, SortOrder::Progress, true);
    assert_eq!(names(&v), vec!["Alpha.zip", "beta.iso", "gamma.tar"]);
    sort_downloads(&mut v, SortOrder::Speed, true);
    assert_eq!(names(&v), vec!["Alpha.zip", "beta.iso", "gamma.tar"]);
    sort_downloads(&mut v, SortOrder::Status, true);
    assert_eq!(names(&v), vec!["Alpha.zip", "gamma.tar", "beta.iso"]);
}

#[test]
fn test_error_message_style() {
    let (style, icon) = determine_message_style("Error: download failed");
    assert_eq!(style, MessageTone::Error);
    assert_eq!(icon, "[x]");
}

#[test]
fn test_success_message_style() {
    let (style, icon) = determine_message_style("Successfully added download");
    assert_eq!(style, MessageTone::Success);
    assert_eq!(icon, "[*]");
}

#[test]
fn test_warning_message_style() {
    let (style, icon) = determine_message_style("Warning: low disk space");
    assert_eq!(style, MessageTone::Warning);
    assert_eq!(icon, "[!]");
}

#[test]
fn test_info_message_style() {
    let (style, icon) = determine_message_style("Download in progress");
    assert_eq!(style, MessageTone::Info);
    assert_eq!(icon, "[i]");
}

#[test]
fn test_case_insensitive_detection() {
    let (style1, _) = determine_message_style("ERROR occurred");
    let (style2, _) = determine_message_style("error occurred");
    assert_eq!(style1, style2);
}

#[test]
fn test_completed_download() {
    let mut download = create_test_download("COMPLETE", 100, 100);
    download.name = "test.zip".to_string();
    assert_eq!(download.status, "COMPLETE");
    let (done, total) = download.progress();
    assert_eq!(done as f64 / total as f64, 1.0);
}

#[test]
fn test_paused_download() {
    let download = create_test_download("PAUSED", 50, 100);
    assert_eq!(download.status, "PAUSED");
}
