//! What the screen shows: its state, the selected transfer, and the key hints.

use vstd::prelude::*;

use crate::models::{same_download, Download, DownloadType, InputMode};
use crate::ui::speed_limit_popup::SpeedLimitState;
use crate::ui::utils::SortOrder;

verus! {

/// The scope name the shortcut bar shows for a mode.
pub open spec fn scope_name(mode: InputMode) -> Seq<char> {
    match mode {
        InputMode::Editing => "Add Download"@,
        InputMode::Search => "Search"@,
        InputMode::SpeedLimit => "Speed Limit"@,
        InputMode::Help => "Help"@,
        InputMode::Confirmation => "Confirm"@,
        InputMode::Settings => "Settings"@,
        InputMode::Normal => "Downloads"@,
    }
}

/// The (key, description) hints the shortcut bar shows for a mode.
pub open spec fn hints(mode: InputMode) -> Seq<(Seq<char>, Seq<char>)> {
    match mode {
        InputMode::Editing => seq![("Enter"@, "submit"@), ("Esc"@, "cancel"@), ("Ctrl+U"@, "clear"@)],
        InputMode::Search => seq![("Enter"@, "apply"@), ("Esc"@, "clear"@), ("Backspace"@, "delete"@)],
        InputMode::SpeedLimit => seq![
            ("Tab"@, "switch"@),
            ("j/k"@, "adjust"@),
            ("Enter"@, "apply"@),
            ("Esc"@, "cancel"@),
        ],
        InputMode::Help => seq![("j/k"@, "scroll"@), ("Esc"@, "close"@), ("q"@, "close"@)],
        InputMode::Confirmation => seq![("y"@, "yes"@), ("n"@, "no"@), ("Esc"@, "cancel"@)],
        InputMode::Settings => seq![("j/k"@, "navigate"@), ("Enter"@, "edit"@), ("Esc"@, "close"@)],
        InputMode::Normal => seq![
            ("i"@, "add"@),
            ("/"@, "search"@),
            ("Space"@, "pause"@),
            ("d"@, "delete"@),
            ("1-3"@, "tabs"@),
            ("?"@, "help"@),
            ("q"@, "quit"@),
        ],
    }
}

/// The scope name and the (key, description) hints for a mode.
pub fn get_shortcuts_for_mode(mode: InputMode) -> (r: (&'static str, Vec<(&'static str, &'static str)>))
    ensures
        r.0@ == scope_name(mode),
        r.1@.map_values(|p: (&'static str, &'static str)| (p.0@, p.1@)) == hints(mode),
{
    let r = match mode {
        InputMode::Editing => ("Add Download", vec![("Enter", "submit"), ("Esc", "cancel"), ("Ctrl+U", "clear")]),
        InputMode::Search => ("Search", vec![("Enter", "apply"), ("Esc", "clear"), ("Backspace", "delete")]),
        InputMode::SpeedLimit => (
            "Speed Limit",
            vec![("Tab", "switch"), ("j/k", "adjust"), ("Enter", "apply"), ("Esc", "cancel")],
        ),
        InputMode::Help => ("Help", vec![("j/k", "scroll"), ("Esc", "close"), ("q", "close")]),
        InputMode::Confirmation => ("Confirm", vec![("y", "yes"), ("n", "no"), ("Esc", "cancel")]),
        InputMode::Settings => ("Settings", vec![("j/k", "navigate"), ("Enter", "edit"), ("Esc", "close")]),
        InputMode::Normal => (
            "Downloads",
            vec![
                ("i", "add"),
                ("/", "search"),
                ("Space", "pause"),
                ("d", "delete"),
                ("1-3", "tabs"),
                ("?", "help"),
                ("q", "quit"),
            ],
        ),
    };
    assert(r.1@.map_values(|p: (&'static str, &'static str)| (p.0@, p.1@)) =~= hints(mode));
    r
}


/// What the screen is drawn from.
pub struct AppState<'a> {
    pub downloads: &'a [Download],
    pub current_tab: usize,
    pub input_text: &'a str,
    pub input_mode: InputMode,
    pub status_message: &'a str,
    pub search_query: &'a str,
    pub sort_order: SortOrder,
    pub sort_ascending: bool,
    pub help_scroll: usize,
    pub speed_limit_state: Option<&'a SpeedLimitState>,
    pub download_limit: u64,
    pub upload_limit: u64,
    pub selected_indices: &'a [usize],
}

impl<'a> Default for AppState<'a> {
    fn default() -> (r: Self)
        ensures
            r.downloads@.len() == 0,
            r.current_tab == 0,
            r.input_text@.len() == 0,
            r.input_mode == InputMode::Normal,
            r.status_message@.len() == 0,
            r.search_query@.len() == 0,
            r.sort_order == SortOrder::Name,
            r.sort_ascending,
            r.help_scroll == 0,
            r.speed_limit_state is None,
            r.download_limit == 0,
            r.upload_limit == 0,
            r.selected_indices@.len() == 0,
    {
        proof {
            reveal_strlit("");
        }
        AppState {
            downloads: &[],
            current_tab: 0,
            input_text: "",
            input_mode: InputMode::Normal,
            status_message: "",
            search_query: "",
            sort_order: SortOrder::Name,
            sort_ascending: true,
            help_scroll: 0,
            speed_limit_state: None,
            download_limit: 0,
            upload_limit: 0,
            selected_indices: &[],
        }
    }
}

/// The entry shown while there are no transfers.
pub fn create_placeholder_download() -> (r: Download)
    ensures
        r.gid is None,
        r.name@ == "No downloads"@,
        r.url is None,
        r.speed@ == "N/A"@,
        r.status@ == "IDLE"@,
        r.total_length == 0,
        r.completed_length == 0,
        r.download_type == DownloadType::Http,
        r.speed_history@.len() == 0,
        r.upload_speed@ == "N/A"@,
        r.upload_speed_history@.len() == 0,
        r.connections == 0,
        r.file_path is None,
        r.error_message is None,
        r.seeds == 0,
        r.peers == 0,
        r.bitfield is None,
        r.num_pieces == 0,
{
    Download {
        gid: None,
        name: String::from_str("No downloads"),
        url: None,
        speed: String::from_str("N/A"),
        status: String::from_str("IDLE"),
        total_length: 0,
        completed_length: 0,
        download_type: DownloadType::Http,
        speed_history: Vec::new(),
        upload_speed: String::from_str("N/A"),
        upload_speed_history: Vec::new(),
        connections: 0,
        file_path: None,
        error_message: None,
        seeds: 0,
        peers: 0,
        bitfield: None,
        num_pieces: 0,
    }
}

/// The transfer the details pane shows: the selected one of the filtered list (the first
/// when nothing is selected), else the first of all, else the placeholder.
pub fn get_selected_download(
    all_downloads: &[Download],
    filtered_downloads: &[&Download],
    selected: Option<usize>,
) -> (r: Download)
    ensures
        ({
            let i = match selected {
                Some(k) => k as int,
                None => 0,
            };
            if 0 <= i < filtered_downloads@.len() {
                same_download(r, *filtered_downloads@[i])
            } else if all_downloads@.len() > 0 {
                same_download(r, all_downloads@[0])
            } else {
                r.name@ == "No downloads"@ && r.status@ == "IDLE"@ && r.total_length == 0
            }
        }),
{
    let selected_index = match selected {
        Some(k) => k,
        None => 0,
    };
    if selected_index < filtered_downloads.len() {
        filtered_downloads[selected_index].duplicate()
    } else if all_downloads.len() > 0 {
        all_downloads[0].duplicate()
    } else {
        create_placeholder_download()
    }
}

} // verus!
