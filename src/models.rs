//! The data the application works on: transfers, statistics and small settings types.

use vstd::prelude::*;

use crate::aria2::opt_view;
use crate::text::{
    chars_of, contains_seq, contains_str, lowercase, push_str, rate_value, read_rate, str_eq,
    to_lower, trim, trimmed,
};
use crate::ui::utils::{format_speed, speed_text};

verus! {

/// Type of download
#[derive(Clone, Copy, Debug, PartialEq, Eq, Structural)]
pub enum DownloadType {
    Http,
    Torrent,
    Metalink,
}

/// One transfer in the local table.
///
/// Progress is not stored: it is always `completed_length / total_length`
/// (see [`Download::progress`]).
#[derive(Clone, Debug)]
pub struct Download {
    pub gid: Option<String>,
    pub name: String,
    /// The source the transfer was added from, known only for local additions.
    pub url: Option<String>,
    /// The current download rate, formatted.
    pub speed: String,
    pub status: String,
    pub total_length: u64,
    pub completed_length: u64,
    pub download_type: DownloadType,
    /// Past download rates in bytes per second, oldest first.
    pub speed_history: Vec<u64>,
    /// The current upload rate, formatted.
    pub upload_speed: String,
    /// Past upload rates in bytes per second, oldest first.
    pub upload_speed_history: Vec<u64>,
    pub connections: u32,
    pub file_path: Option<String>,
    pub error_message: Option<String>,
    /// For torrents: number of seeders.
    pub seeds: u32,
    /// For torrents: number of peers.
    pub peers: u32,
    /// Hex digits, one bit per piece, set for the pieces held.
    pub bitfield: Option<String>,
    /// Total number of pieces in the download.
    pub num_pieces: u32,
}

/// Progress as a fraction: completed over total bytes, or 0 over 1 while the total is unknown.
pub open spec fn progress_of(d: Download) -> (nat, nat) {
    if d.total_length > 0 {
        (d.completed_length as nat, d.total_length as nat)
    } else {
        (0, 1)
    }
}

/// Whether two entries hold the same values.
pub open spec fn same_download(a: Download, b: Download) -> bool {
    &&& opt_view(a.gid) == opt_view(b.gid)
    &&& a.name@ == b.name@
    &&& opt_view(a.url) == opt_view(b.url)
    &&& a.speed@ == b.speed@
    &&& a.status@ == b.status@
    &&& a.total_length == b.total_length
    &&& a.completed_length == b.completed_length
    &&& a.download_type == b.download_type
    &&& a.speed_history@ == b.speed_history@
    &&& a.upload_speed@ == b.upload_speed@
    &&& a.upload_speed_history@ == b.upload_speed_history@
    &&& a.connections == b.connections
    &&& opt_view(a.file_path) == opt_view(b.file_path)
    &&& opt_view(a.error_message) == opt_view(b.error_message)
    &&& a.seeds == b.seeds
    &&& a.peers == b.peers
    &&& opt_view(a.bitfield) == opt_view(b.bitfield)
    &&& a.num_pieces == b.num_pieces
}

fn copy_history(h: &Vec<u64>) -> (r: Vec<u64>)
    ensures
        r@ == h@,
{
    let mut r: Vec<u64> = Vec::new();
    let mut i: usize = 0;
    while i < h.len()
        invariant
            i <= h@.len(),
            r@ == h@.subrange(0, i as int),
        decreases h@.len() - i,
    {
        r.push(h[i]);
        i += 1;
    }
    assert(r@ =~= h@);
    r
}

/// A copy of an optional string.
pub(crate) fn copy_opt_string(o: &Option<String>) -> (r: Option<String>)
    ensures
        opt_view(r) == opt_view(*o),
{
    match o {
        Some(s) => Some(s.clone()),
        None => None,
    }
}

impl Download {
    /// Completed and total bytes as a fraction `(numerator, denominator)`:
    /// `(completed_length, total_length)`, or `(0, 1)` while the total is 0.
    pub fn progress(&self) -> (r: (u64, u64))
        ensures
            (r.0 as nat, r.1 as nat) == progress_of(*self),
    {
        if self.total_length > 0 {
            (self.completed_length, self.total_length)
        } else {
            (0, 1)
        }
    }

    /// A copy of this entry.
    pub fn duplicate(&self) -> (r: Download)
        ensures
            same_download(r, *self),
    {
        Download {
            gid: copy_opt_string(&self.gid),
            name: self.name.clone(),
            url: copy_opt_string(&self.url),
            speed: self.speed.clone(),
            status: self.status.clone(),
            total_length: self.total_length,
            completed_length: self.completed_length,
            download_type: self.download_type,
            speed_history: copy_history(&self.speed_history),
            upload_speed: self.upload_speed.clone(),
            upload_speed_history: copy_history(&self.upload_speed_history),
            connections: self.connections,
            file_path: copy_opt_string(&self.file_path),
            error_message: copy_opt_string(&self.error_message),
            seeds: self.seeds,
            peers: self.peers,
            bitfield: copy_opt_string(&self.bitfield),
            num_pieces: self.num_pieces,
        }
    }
}

impl Default for Download {
    fn default() -> (r: Self)
        ensures
            r.gid is None,
            r.name@.len() == 0,
            r.url is None,
            r.speed@ == "0 B/s"@,
            r.status@ == "IDLE"@,
            r.total_length == 0,
            r.completed_length == 0,
            r.download_type == DownloadType::Http,
            r.speed_history@.len() == 0,
            r.upload_speed@ == "0 B/s"@,
            r.upload_speed_history@.len() == 0,
            r.connections == 0,
            r.file_path is None,
            r.error_message is None,
            r.seeds == 0,
            r.peers == 0,
            r.bitfield is None,
            r.num_pieces == 0,
    {
        let mut speed = String::new();
        push_str(&mut speed, "0 B/s");
        let mut upload_speed = String::new();
        push_str(&mut upload_speed, "0 B/s");
        let mut status = String::new();
        push_str(&mut status, "IDLE");
        assert(speed@ =~= "0 B/s"@);
        assert(upload_speed@ =~= "0 B/s"@);
        assert(status@ =~= "IDLE"@);
        Download {
            gid: None,
            name: String::new(),
            url: None,
            speed,
            status,
            total_length: 0,
            completed_length: 0,
            download_type: DownloadType::Http,
            speed_history: Vec::new(),
            upload_speed,
            upload_speed_history: Vec::new(),
            connections: 0,
            file_path: None,
            error_message: None,
            seeds: 0,
            peers: 0,
            bitfield: None,
            num_pieces: 0,
        }
    }
}

/// Aggregate statistics over the transfer table.
#[derive(Clone, Copy, Debug, PartialEq, Eq, Structural)]
pub struct GlobalStats {
    /// Summed latest download rate of the active transfers.
    pub download_speed: u64,
    /// Summed latest upload rate of the active transfers.
    pub upload_speed: u64,
    pub num_active: u32,
    /// Transfers waiting or paused.
    pub num_waiting: u32,
    /// Transfers complete or failed.
    pub num_stopped: u32,
    /// All transfers in the table.
    pub num_stopped_total: u32,
}

/// All counts and rates zero.
pub open spec fn zero_stats() -> GlobalStats {
    GlobalStats {
        download_speed: 0,
        upload_speed: 0,
        num_active: 0,
        num_waiting: 0,
        num_stopped: 0,
        num_stopped_total: 0,
    }
}

impl Default for GlobalStats {
    fn default() -> (r: Self)
        ensures
            r == zero_stats(),
    {
        GlobalStats {
            download_speed: 0,
            upload_speed: 0,
            num_active: 0,
            num_waiting: 0,
            num_stopped: 0,
            num_stopped_total: 0,
        }
    }
}


/// Input mode for the application
#[derive(Clone, Copy, Debug, PartialEq, Eq, Structural)]
pub enum InputMode {
    Normal,
    Editing,
    Search,
    SpeedLimit,
    Help,
    Confirmation,
    Settings,
}

impl Default for InputMode {
    fn default() -> (r: Self)
        ensures
            r == InputMode::Normal,
    {
        InputMode::Normal
    }
}

/// Sorting options for downloads
#[derive(Clone, Copy, Debug, PartialEq, Eq, Structural)]
pub enum SortField {
    Name,
    Size,
    Progress,
    Speed,
    DateAdded,
    Status,
}

impl SortField {
    /// The field after `f` in the cycle Name, Size, Progress, Speed, Date Added, Status.
    pub open spec fn after(f: SortField) -> SortField {
        match f {
            SortField::Name => SortField::Size,
            SortField::Size => SortField::Progress,
            SortField::Progress => SortField::Speed,
            SortField::Speed => SortField::DateAdded,
            SortField::DateAdded => SortField::Status,
            SortField::Status => SortField::Name,
        }
    }

    pub fn next(&self) -> (r: Self)
        ensures
            r == SortField::after(*self),
    {
        match self {
            SortField::Name => SortField::Size,
            SortField::Size => SortField::Progress,
            SortField::Progress => SortField::Speed,
            SortField::Speed => SortField::DateAdded,
            SortField::DateAdded => SortField::Status,
            SortField::Status => SortField::Name,
        }
    }

    pub fn as_str(&self) -> (r: &'static str)
        ensures
            r@ == match *self {
                SortField::Name => "Name"@,
                SortField::Size => "Size"@,
                SortField::Progress => "Progress"@,
                SortField::Speed => "Speed"@,
                SortField::DateAdded => "Date Added"@,
                SortField::Status => "Status"@,
            },
    {
        match self {
            SortField::Name => "Name",
            SortField::Size => "Size",
            SortField::Progress => "Progress",
            SortField::Speed => "Speed",
            SortField::DateAdded => "Date Added",
            SortField::Status => "Status",
        }
    }
}

impl Default for SortField {
    fn default() -> (r: Self)
        ensures
            r == SortField::Name,
    {
        SortField::Name
    }
}

/// Sort direction
#[derive(Clone, Copy, Debug, PartialEq, Eq, Structural)]
pub enum SortDirection {
    Ascending,
    Descending,
}

impl SortDirection {
    pub fn toggle(&self) -> (r: Self)
        ensures
            r != *self,
    {
        match self {
            SortDirection::Ascending => SortDirection::Descending,
            SortDirection::Descending => SortDirection::Ascending,
        }
    }

    pub fn as_str(&self) -> (r: &'static str)
        ensures
            r@ == match *self {
                SortDirection::Ascending => "^"@,
                SortDirection::Descending => "v"@,
            },
    {
        match self {
            SortDirection::Ascending => "^",
            SortDirection::Descending => "v",
        }
    }
}

impl Default for SortDirection {
    fn default() -> (r: Self)
        ensures
            r == SortDirection::Ascending,
    {
        SortDirection::Ascending
    }
}

/// Confirmation action type
#[derive(Clone, Debug)]
pub enum ConfirmAction {
    Quit,
    /// Delete the file of the download with this id.
    DeleteFile(String),
    PurgeCompleted,
    /// Retry the download with this id.
    RetryDownload(String),
}

/// Whether two confirmation actions are the same.
pub open spec fn same_action(a: ConfirmAction, b: ConfirmAction) -> bool {
    match (a, b) {
        (ConfirmAction::Quit, ConfirmAction::Quit) => true,
        (ConfirmAction::DeleteFile(x), ConfirmAction::DeleteFile(y)) => x@ == y@,
        (ConfirmAction::PurgeCompleted, ConfirmAction::PurgeCompleted) => true,
        (ConfirmAction::RetryDownload(x), ConfirmAction::RetryDownload(y)) => x@ == y@,
        _ => false,
    }
}

impl PartialEq for ConfirmAction {
    fn eq(&self, other: &ConfirmAction) -> (r: bool)
        ensures
            r == same_action(*self, *other),
    {
        match (self, other) {
            (ConfirmAction::Quit, ConfirmAction::Quit) => true,
            (ConfirmAction::DeleteFile(x), ConfirmAction::DeleteFile(y)) => str_eq(x.as_str(), y.as_str()),
            (ConfirmAction::PurgeCompleted, ConfirmAction::PurgeCompleted) => true,
            (ConfirmAction::RetryDownload(x), ConfirmAction::RetryDownload(y)) => str_eq(x.as_str(), y.as_str()),
            _ => false,
        }
    }
}

impl vstd::std_specs::cmp::PartialEqSpecImpl for ConfirmAction {
    open spec fn obeys_eq_spec() -> bool {
        true
    }

    open spec fn eq_spec(&self, other: &ConfirmAction) -> bool {
        same_action(*self, *other)
    }
}

/// What a typed limit means: 0 (unlimited) for "", "0" or "unlimited"; otherwise its
/// number times its unit (g, m, k, or bytes, also without a unit). Case and surrounding
/// white space do not matter.
pub open spec fn limit_input_value(input: Seq<char>) -> Option<nat> {
    let l = lowercase(trimmed(input));
    if l == "0"@ || l.len() == 0 || l == "unlimited"@ {
        Some(0)
    } else {
        rate_value(l, 1)
    }
}

/// Speed limit settings
#[derive(Clone, Copy, Debug, PartialEq, Eq, Structural)]
pub struct SpeedLimitSettings {
    /// Bytes per second, 0 = unlimited.
    pub download_limit: u64,
    /// Bytes per second, 0 = unlimited.
    pub upload_limit: u64,
    /// Which limit is being edited: true for download, false for upload.
    pub editing_download: bool,
}

impl SpeedLimitSettings {
    /// "Unlimited" for 0, else the rate as [`format_speed`] writes it.
    pub fn format_limit(limit: u64) -> (r: String)
        ensures
            r@ == if limit == 0 {
                "Unlimited"@
            } else {
                speed_text(limit as nat)
            },
    {
        if limit == 0 {
            String::from_str("Unlimited")
        } else {
            format_speed(limit)
        }
    }

    /// Reads a typed limit such as "5m", "5 MB/s", "500k" or "unlimited".
    pub fn parse_limit(input: &str) -> (r: Option<u64>)
        ensures
            match limit_input_value(input@) {
                Some(v) => r == Some(v as u64),
                None => r is None,
            },
    {
        let t = trim(input);
        let l = to_lower(t.as_str());
        if str_eq(l.as_str(), "0") || l.as_str().is_empty() || str_eq(l.as_str(), "unlimited") {
            return Some(0);
        }
        read_rate(l.as_str(), 1)
    }
}

impl Default for SpeedLimitSettings {
    fn default() -> (r: Self)
        ensures
            r == (SpeedLimitSettings { download_limit: 0, upload_limit: 0, editing_download: false }),
    {
        SpeedLimitSettings { download_limit: 0, upload_limit: 0, editing_download: false }
    }
}

/// The characters of each string.
pub open spec fn views(v: Seq<String>) -> Seq<Seq<char>> {
    v.map_values(|s: String| s@)
}

/// `s` without the occurrences of `x`, order kept.
pub open spec fn without(s: Seq<Seq<char>>, x: Seq<char>) -> Seq<Seq<char>>
    decreases s.len(),
{
    if s.len() == 0 {
        s
    } else if s.last() == x {
        without(s.drop_last(), x)
    } else {
        without(s.drop_last(), x).push(s.last())
    }
}

/// The first `n` elements of `s` (all of them when fewer).
pub open spec fn take<A>(s: Seq<A>, n: nat) -> Seq<A> {
    if s.len() <= n {
        s
    } else {
        s.subrange(0, n as int)
    }
}

/// The entries whose lower-cased text contains `q`, order kept.
pub open spec fn matching(s: Seq<Seq<char>>, q: Seq<char>) -> Seq<Seq<char>>
    decreases s.len(),
{
    if s.len() == 0 {
        s
    } else if contains_seq(lowercase(s.last()), q) {
        matching(s.drop_last(), q).push(s.last())
    } else {
        matching(s.drop_last(), q)
    }
}

/// URL history for autocomplete, most recent first.
#[derive(Clone, Debug)]
pub struct UrlHistory {
    pub entries: Vec<String>,
    pub max_entries: usize,
}

impl UrlHistory {
    pub fn new(max_entries: usize) -> (r: Self)
        ensures
            r.entries@.len() == 0,
            r.max_entries == max_entries,
    {
        UrlHistory { entries: Vec::new(), max_entries }
    }

    /// Puts `url` first, drops its earlier occurrences, and keeps at most `max_entries`.
    pub fn add(&mut self, url: &str)
        ensures
            final(self).max_entries == old(self).max_entries,
            views(final(self).entries@) == take(
                seq![url@] + without(views(old(self).entries@), url@),
                old(self).max_entries as nat,
            ),
    {
        let ghost old_views = views(self.entries@);
        let mut kept: Vec<String> = Vec::new();
        let mut i: usize = 0;
        while i < self.entries.len()
            invariant
                old_views == views(self.entries@),
                i <= self.entries@.len(),
                views(kept@) == without(old_views.subrange(0, i as int), url@),
            decreases self.entries@.len() - i,
        {
            let ghost pre = old_views.subrange(0, i as int);
            assert(old_views.subrange(0, i + 1).drop_last() =~= pre);
            assert(old_views.subrange(0, i + 1).last() == self.entries@[i as int]@);
            if !str_eq(self.entries[i].as_str(), url) {
                kept.push(self.entries[i].clone());
                assert(views(kept@) =~= without(pre, url@).push(self.entries@[i as int]@));
            }
            i += 1;
        }
        assert(old_views.subrange(0, self.entries@.len() as int) =~= old_views);
        let mut entries: Vec<String> = Vec::new();
        entries.push(String::from_str(url));
        let mut j: usize = 0;
        while j < kept.len() && entries.len() < self.max_entries
            invariant
                j <= kept@.len(),
                entries@.len() == j + 1,
                j + 1 <= self.max_entries || j == 0,
                views(entries@) == seq![url@] + views(kept@).subrange(0, j as int),
            decreases kept@.len() - j,
        {
            let c = kept[j].clone();
            let ghost e0 = entries@;
            entries.push(c);
            assert(entries@ == e0.push(kept@[j as int]));
            assert(views(entries@) =~= views(e0).push(kept@[j as int]@));
            assert(views(entries@) =~= seq![url@] + views(kept@).subrange(0, j + 1));
            j += 1;
        }
        let ghost full = seq![url@] + views(kept@);
        assert(views(kept@).subrange(0, kept@.len() as int) =~= views(kept@));
        let ghost e1 = entries@;
        if entries.len() > self.max_entries {
            entries.truncate(self.max_entries);
            assert(entries@ =~= e1.subrange(0, self.max_entries as int));
        }
        assert(views(entries@) =~= take(full, self.max_entries as nat));
        self.entries = entries;
    }

    /// The first five entries that contain `prefix`, ignoring case.
    pub fn filter(&self, prefix: &str) -> (r: Vec<&str>)
        ensures
            r@.map_values(|s: &str| s@) == take(matching(views(self.entries@), lowercase(prefix@)), 5),
    {
        let q = to_lower(prefix);
        let ghost all = views(self.entries@);
        let mut r: Vec<&str> = Vec::new();
        let mut i: usize = 0;
        while i < self.entries.len()
            invariant
                all == views(self.entries@),
                q@ == lowercase(prefix@),
                i <= self.entries@.len(),
                r@.map_values(|s: &str| s@) == take(matching(all.subrange(0, i as int), q@), 5),
            decreases self.entries@.len() - i,
        {
            let ghost pre = all.subrange(0, i as int);
            assert(all.subrange(0, i + 1).drop_last() =~= pre);
            assert(all.subrange(0, i + 1).last() == self.entries@[i as int]@);
            let l = to_lower(self.entries[i].as_str());
            if contains_str(l.as_str(), q.as_str()) {
                if r.len() < 5 {
                    r.push(self.entries[i].as_str());
                    assert(r@.map_values(|s: &str| s@) =~= take(matching(pre, q@), 5).push(self.entries@[i as int]@));
                } else {
                    assert(take(matching(pre, q@).push(self.entries@[i as int]@), 5) =~= take(matching(pre, q@), 5));
                }
            }
            i += 1;
        }
        assert(all.subrange(0, self.entries@.len() as int) =~= all);
        r
    }
}


/// A path with one more component, as a path join makes it: no separator after an empty
/// path or one that already ends with '/'.
pub open spec fn joined(base: Seq<char>, name: Seq<char>) -> Seq<char> {
    if base.len() == 0 {
        name
    } else if base.last() == '/' {
        base + name
    } else {
        base + "/"@ + name
    }
}

/// The download folder: the platform's, else "Downloads" in the home folder, else
/// "./Downloads".
pub open spec fn chosen_download_dir(platform: Option<Seq<char>>, home: Option<Seq<char>>) -> Seq<char> {
    match platform {
        Some(p) => p,
        None => match home {
            Some(h) => joined(h, "Downloads"@),
            None => "./Downloads"@,
        },
    }
}

/// Picks the download folder from the platform's download folder and the home folder,
/// as the caller looked them up.
pub fn resolve_download_dir(platform: Option<String>, home: Option<String>) -> (r: String)
    ensures
        r@ == chosen_download_dir(opt_view(platform), opt_view(home)),
{
    match platform {
        Some(p) => p,
        None => match home {
            Some(h) => {
                let mut r = String::new();
                push_str(&mut r, h.as_str());
                let v = chars_of(h.as_str());
                if v.len() > 0 && v[v.len() - 1] != '/' {
                    push_str(&mut r, "/");
                }
                push_str(&mut r, "Downloads");
                r
            },
            None => String::from_str("./Downloads"),
        },
    }
}

/// Application settings
#[derive(Clone, Debug)]
pub struct AppSettings {
    pub download_dir: String,
    pub max_connections: u32,
    pub max_concurrent_downloads: u32,
    pub split_size: String,
    pub seed_time: u32,
    pub theme: String,
}

impl AppSettings {
    /// The default settings, downloading into `download_dir`.
    pub fn with_download_dir(download_dir: String) -> (r: Self)
        ensures
            r.download_dir@ == download_dir@,
            r.max_connections == 16,
            r.max_concurrent_downloads == 5,
            r.split_size@ == "1M"@,
            r.seed_time == 0,
            r.theme@ == "dark"@,
    {
        AppSettings {
            download_dir,
            max_connections: 16,
            max_concurrent_downloads: 5,
            split_size: String::from_str("1M"),
            seed_time: 0,
            theme: String::from_str("dark"),
        }
    }
}

} // verus!
