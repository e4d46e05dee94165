//! Formatting of byte counts, rates and durations.

use vstd::prelude::*;

use vstd::string::StringSliceAdditionalSpecFns;
use vstd::utf8::{encode_utf8, is_char_boundary};

use crate::download_manager::{latest, capped};
use crate::models::{progress_of, Download, DownloadType};
use vstd::seq_lib::{to_multiset_contains, to_multiset_update};
use crate::text::{
    chars_of, contains_seq, contains_str, dec_digits, decimal_parts, fixed_text, is_whitespace,
    lowercase, push_decimal, push_fixed, push_str, scale_decimal, scaled_decimal, str_eq, subvec,
    skip_space, to_lower, to_upper, uppercase, whitespace,
};

verus! {

pub const KB: u64 = 1024;
pub const MB: u64 = 1048576;
pub const GB: u64 = 1073741824;
pub const TB: u64 = 1099511627776;

/// A byte count in TB, GB, MB or KB with two decimals, or in whole bytes below 1 KB.
pub open spec fn size_text(n: nat) -> Seq<char> {
    if n >= TB {
        fixed_text(n, TB as nat, 2) + " TB"@
    } else if n >= GB {
        fixed_text(n, GB as nat, 2) + " GB"@
    } else if n >= MB {
        fixed_text(n, MB as nat, 2) + " MB"@
    } else if n >= KB {
        fixed_text(n, KB as nat, 2) + " KB"@
    } else {
        dec_digits(n) + " B"@
    }
}

/// A byte rate in GB/s, MB/s or KB/s with two decimals, or in whole B/s below 1 KB/s.
pub open spec fn speed_text(n: nat) -> Seq<char> {
    if n >= GB {
        fixed_text(n, GB as nat, 2) + " GB/s"@
    } else if n >= MB {
        fixed_text(n, MB as nat, 2) + " MB/s"@
    } else if n >= KB {
        fixed_text(n, KB as nat, 2) + " KB/s"@
    } else {
        dec_digits(n) + " B/s"@
    }
}

/// A duration in its two largest units, or in seconds alone under a minute.
pub open spec fn duration_text(t: nat) -> Seq<char> {
    let days = t / 86400;
    let hours = (t % 86400) / 3600;
    let minutes = (t % 3600) / 60;
    let seconds = t % 60;
    if t == 0 {
        "0s"@
    } else if days > 0 {
        dec_digits(days) + "d "@ + dec_digits(hours) + "h"@
    } else if hours > 0 {
        dec_digits(hours) + "h "@ + dec_digits(minutes) + "m"@
    } else if minutes > 0 {
        dec_digits(minutes) + "m "@ + dec_digits(seconds) + "s"@
    } else {
        dec_digits(seconds) + "s"@
    }
}

/// The time left at a given rate; unbounded at rate 0.
pub open spec fn eta_text(remaining: nat, rate: nat) -> Seq<char> {
    if rate == 0 {
        "∞"@
    } else {
        duration_text(remaining / rate)
    }
}

/// Formats a byte count with base-1024 units: whole bytes below 1 KB, two decimals above.
pub fn format_size(bytes: u64) -> (r: String)
    ensures
        r@ == size_text(bytes as nat),
{
    let mut s = String::new();
    if bytes >= TB {
        push_fixed(&mut s, bytes, TB, 2);
        push_str(&mut s, " TB");
    } else if bytes >= GB {
        push_fixed(&mut s, bytes, GB, 2);
        push_str(&mut s, " GB");
    } else if bytes >= MB {
        push_fixed(&mut s, bytes, MB, 2);
        push_str(&mut s, " MB");
    } else if bytes >= KB {
        push_fixed(&mut s, bytes, KB, 2);
        push_str(&mut s, " KB");
    } else {
        push_decimal(&mut s, bytes as u128);
        push_str(&mut s, " B");
    }
    assert(s@ =~= size_text(bytes as nat));
    s
}

/// Formats a byte rate with base-1024 units: whole B/s below 1 KB/s, two decimals above.
pub fn format_speed(speed_bytes: u64) -> (r: String)
    ensures
        r@ == speed_text(speed_bytes as nat),
{
    let mut s = String::new();
    if speed_bytes >= GB {
        push_fixed(&mut s, speed_bytes, GB, 2);
        push_str(&mut s, " GB/s");
    } else if speed_bytes >= MB {
        push_fixed(&mut s, speed_bytes, MB, 2);
        push_str(&mut s, " MB/s");
    } else if speed_bytes >= KB {
        push_fixed(&mut s, speed_bytes, KB, 2);
        push_str(&mut s, " KB/s");
    } else {
        push_decimal(&mut s, speed_bytes as u128);
        push_str(&mut s, " B/s");
    }
    assert(s@ =~= speed_text(speed_bytes as nat));
    s
}

/// Formats a number of seconds in its two largest units (days and hours, hours and
/// minutes, minutes and seconds), or in seconds alone.
pub fn format_duration(total_seconds: u64) -> (r: String)
    ensures
        r@ == duration_text(total_seconds as nat),
{
    let mut s = String::new();
    if total_seconds == 0 {
        push_str(&mut s, "0s");
        assert(s@ =~= "0s"@);
        return s;
    }
    let days = total_seconds / 86400;
    let hours = (total_seconds % 86400) / 3600;
    let minutes = (total_seconds % 3600) / 60;
    let seconds = total_seconds % 60;
    if days > 0 {
        push_decimal(&mut s, days as u128);
        push_str(&mut s, "d ");
        push_decimal(&mut s, hours as u128);
        push_str(&mut s, "h");
    } else if hours > 0 {
        push_decimal(&mut s, hours as u128);
        push_str(&mut s, "h ");
        push_decimal(&mut s, minutes as u128);
        push_str(&mut s, "m");
    } else if minutes > 0 {
        push_decimal(&mut s, minutes as u128);
        push_str(&mut s, "m ");
        push_decimal(&mut s, seconds as u128);
        push_str(&mut s, "s");
    } else {
        push_decimal(&mut s, seconds as u128);
        push_str(&mut s, "s");
    }
    assert(s@ =~= duration_text(total_seconds as nat));
    s
}

/// Formats the time left to transfer `remaining_bytes` at a rate, "∞" when the rate is 0.
pub fn format_eta(remaining_bytes: u64, speed_bytes_per_sec: u64) -> (r: String)
    ensures
        r@ == eta_text(remaining_bytes as nat, speed_bytes_per_sec as nat),
{
    if speed_bytes_per_sec == 0 {
        let mut s = String::new();
        push_str(&mut s, "∞");
        assert(s@ =~= "∞"@);
        return s;
    }
    format_duration(remaining_bytes / speed_bytes_per_sec)
}

/// Sort order for downloads
#[derive(Clone, Copy, Debug, PartialEq, Eq, Structural)]
pub enum SortOrder {
    Name,
    Size,
    Progress,
    Speed,
    Status,
}

impl SortOrder {
    pub fn as_str(&self) -> (r: &'static str)
        ensures
            r@ == match *self {
                SortOrder::Name => "Name"@,
                SortOrder::Size => "Size"@,
                SortOrder::Progress => "Progress"@,
                SortOrder::Speed => "Speed"@,
                SortOrder::Status => "Status"@,
            },
    {
        match self {
            SortOrder::Name => "Name",
            SortOrder::Size => "Size",
            SortOrder::Progress => "Progress",
            SortOrder::Speed => "Speed",
            SortOrder::Status => "Status",
        }
    }

    /// The order after `o` in the cycle Name, Size, Progress, Speed, Status.
    pub open spec fn after(o: SortOrder) -> SortOrder {
        match o {
            SortOrder::Name => SortOrder::Size,
            SortOrder::Size => SortOrder::Progress,
            SortOrder::Progress => SortOrder::Speed,
            SortOrder::Speed => SortOrder::Status,
            SortOrder::Status => SortOrder::Name,
        }
    }

    /// The next order in the cycle.
    pub fn next(&self) -> (r: SortOrder)
        ensures
            r == SortOrder::after(*self),
    {
        match self {
            SortOrder::Name => SortOrder::Size,
            SortOrder::Size => SortOrder::Progress,
            SortOrder::Progress => SortOrder::Speed,
            SortOrder::Speed => SortOrder::Status,
            SortOrder::Status => SortOrder::Name,
        }
    }

    /// The previous order in the same cycle.
    pub fn prev(&self) -> (r: SortOrder)
        ensures
            SortOrder::after(r) == *self,
    {
        match self {
            SortOrder::Name => SortOrder::Status,
            SortOrder::Size => SortOrder::Name,
            SortOrder::Progress => SortOrder::Size,
            SortOrder::Speed => SortOrder::Progress,
            SortOrder::Status => SortOrder::Speed,
        }
    }
}

impl Default for SortOrder {
    fn default() -> (r: Self)
        ensures
            r == SortOrder::Name,
    {
        SortOrder::Name
    }
}


/// How many bytes a cut keeps: three fewer than the limit, to make room for "...".
pub open spec fn kept_len(max_len: usize) -> int {
    if max_len >= 3 {
        max_len - 3
    } else {
        0
    }
}

/// `r` is the text whose UTF-8 encoding is `kept` (that is `p`), followed by "...".
pub open spec fn cut_text(r: Seq<char>, p: Seq<char>, kept: Seq<u8>) -> bool {
    encode_utf8(p) == kept && r == p + "..."@
}

/// Cuts text longer than `max_len` bytes to its first `max_len - 3` bytes (0 when
/// `max_len` < 3) followed by "...".
pub fn truncate_text(text: &str, max_len: usize) -> (r: String)
    requires
        text.len() > max_len ==> is_char_boundary(text.spec_bytes(), kept_len(max_len)),
    ensures
        text.len() <= max_len ==> r@ == text@,
        text.len() > max_len ==> exists|p: Seq<char>|
            #[trigger] cut_text(
                r@,
                p,
                text.spec_bytes().subrange(0, kept_len(max_len)),
            ),
{
    if text.len() > max_len {
        let k = if max_len >= 3 { max_len - 3 } else { 0 };
        let (head, _) = text.split_at(k);
        let mut r = String::from_str(head);
        push_str(&mut r, "...");
        assert(head.spec_bytes() == encode_utf8(head@));
        assert(k as int == kept_len(max_len));
        assert(cut_text(r@, head@, text.spec_bytes().subrange(0, kept_len(max_len))));
        r
    } else {
        String::from_str(text)
    }
}

/// The leading characters of `s` up to the first white space.
pub open spec fn word(s: Seq<char>) -> Seq<char>
    decreases s.len(),
{
    if s.len() == 0 || whitespace(s[0]) {
        Seq::empty()
    } else {
        seq![s[0]] + word(s.drop_first())
    }
}

/// The first white-space separated word of `s` ("" when there is none).
pub open spec fn first_word(s: Seq<char>) -> Seq<char> {
    word(skip_space(s))
}

/// The second white-space separated word of `s` ("" when there is none).
pub open spec fn second_word(s: Seq<char>) -> Seq<char> {
    let t = skip_space(s);
    word(skip_space(t.subrange(word(t).len() as int, t.len() as int)))
}

/// What a formatted number reads as for sorting: a plain decimal, optionally signed;
/// negative numbers and anything else read as 0.
pub open spec fn signed_number_value(num: Seq<char>, mult: nat) -> nat {
    if num.len() > 0 && num[0] == '-' {
        0
    } else {
        let body = if num.len() > 0 && num[0] == '+' { num.drop_first() } else { num };
        match scaled_decimal(body, mult) {
            Some(v) => v,
            None => 0,
        }
    }
}

/// The multiplier of a rate unit, compared upper-cased; 0 for an unknown unit.
pub open spec fn rate_unit_multiplier(unit: Seq<char>) -> nat {
    let u = uppercase(unit);
    if u == "B/S"@ {
        1
    } else if u == "KB/S"@ {
        1024
    } else if u == "MB/S"@ {
        1048576
    } else if u == "GB/S"@ {
        1073741824
    } else {
        0
    }
}

/// What a formatted rate such as "1.50 KB/s" reads as in bytes per second, rounded down;
/// 0 without a number and a known unit.
pub open spec fn rate_reading(s: Seq<char>) -> nat {
    let m = rate_unit_multiplier(second_word(s));
    if second_word(s).len() == 0 || m == 0 {
        0
    } else {
        signed_number_value(first_word(s), m)
    }
}

/// Index of the first character at or after `i` that is not white space.
fn skip_space_from(v: &Vec<char>, i: usize) -> (j: usize)
    requires
        i <= v@.len(),
    ensures
        i <= j <= v@.len(),
        skip_space(v@.subrange(i as int, v@.len() as int)) == v@.subrange(j as int, v@.len() as int),
{
    let n = v.len();
    let mut j = i;
    while j < n && is_whitespace(v[j])
        invariant
            n == v@.len(),
            i <= j <= n,
            skip_space(v@.subrange(i as int, n as int)) == skip_space(v@.subrange(j as int, n as int)),
        decreases n - j,
    {
        assert(v@.subrange(j as int, n as int).drop_first() =~= v@.subrange(j + 1, n as int));
        j += 1;
    }
    j
}

/// Index of the first white space at or after `i`.
fn word_end(v: &Vec<char>, i: usize) -> (j: usize)
    requires
        i <= v@.len(),
    ensures
        i <= j <= v@.len(),
        word(v@.subrange(i as int, v@.len() as int)) == v@.subrange(i as int, j as int),
{
    let n = v.len();
    let mut j = i;
    while j < n && !is_whitespace(v[j])
        invariant
            n == v@.len(),
            i <= j <= n,
            word(v@.subrange(i as int, n as int)) == v@.subrange(i as int, j as int) + word(v@.subrange(j as int, n as int)),
        decreases n - j,
    {
        assert(v@.subrange(j as int, n as int).drop_first() =~= v@.subrange(j + 1, n as int));
        assert(v@.subrange(i as int, j + 1) =~= v@.subrange(i as int, j as int) + seq![v@[j as int]]);
        j += 1;
    }
    assert(word(v@.subrange(j as int, n as int)) =~= Seq::<char>::empty());
    assert(v@.subrange(i as int, j as int) + Seq::<char>::empty() =~= v@.subrange(i as int, j as int));
    j
}

/// Reads a formatted rate back into bytes per second, for ordering by rate: the number
/// before the first space times the unit after it (B/s, KB/s, MB/s, GB/s, any case);
/// 0 when either is missing or not understood. Lossy: it reads the rounded display value.
pub fn parse_speed(speed: &str) -> (r: u64)
    ensures
        r as nat == rate_reading(speed@),
{
    let v = chars_of(speed);
    let n = v.len();
    let a = skip_space_from(&v, 0);
    let b = word_end(&v, a);
    let c = skip_space_from(&v, b);
    let d = word_end(&v, c);
    proof {
        assert(v@.subrange(0, n as int) =~= v@);
        let t = skip_space(v@);
        assert(t == v@.subrange(a as int, n as int));
        assert(word(t) == v@.subrange(a as int, b as int));
        assert(t.subrange(word(t).len() as int, t.len() as int) =~= v@.subrange(b as int, n as int));
    }
    if d == c {
        return 0;
    }
    let unit_chars = subvec(&v, c, d);
    let unit_text = crate::text::string_of(&unit_chars);
    let unit = to_upper(unit_text.as_str());
    let mult: u64 = if str_eq(unit.as_str(), "B/S") {
        1
    } else if str_eq(unit.as_str(), "KB/S") {
        1024
    } else if str_eq(unit.as_str(), "MB/S") {
        1048576
    } else if str_eq(unit.as_str(), "GB/S") {
        1073741824
    } else {
        0
    };
    if mult == 0 {
        return 0;
    }
    if b > a && v[a] == '-' {
        return 0;
    }
    let start = if b > a && v[a] == '+' { a + 1 } else { a };
    let num = subvec(&v, start, b);
    proof {
        let w = v@.subrange(a as int, b as int);
        if b > a && v@[a as int] == '+' {
            assert(w.drop_first() =~= num@);
        } else {
            assert(w =~= num@);
        }
    }
    match scale_decimal(&num, mult) {
        Some(x) => x,
        None => 0,
    }
}

/// Whether a transfer counts as active in the view: reported active, or part-way through
/// and not waiting.
pub open spec fn shows_active(d: Download) -> bool {
    let (done, total) = progress_of(d);
    d.status@ == "ACTIVE"@ || (0 < done && done < total && d.status@ != "WAITING"@)
}

/// Whether a transfer counts as queued in the view: waiting, paused, or not started.
pub open spec fn shows_queued(d: Download) -> bool {
    let (done, _) = progress_of(d);
    d.status@ == "WAITING"@ || d.status@ == "PAUSED"@ || done == 0
}

/// Whether a transfer counts as completed in the view: all bytes done, or reported complete.
pub open spec fn shows_completed(d: Download) -> bool {
    let (done, total) = progress_of(d);
    done >= total || d.status@ == "COMPLETE"@
}

/// Whether a transfer counts as failed in the view: its status mentions an error.
pub open spec fn shows_error(d: Download) -> bool {
    d.status@ == "ERROR"@ || contains_seq(lowercase(d.status@), "error"@)
}

/// Check if a download is active
pub fn is_active(download: &Download) -> (r: bool)
    ensures
        r == shows_active(*download),
{
    let (done, total) = download.progress();
    str_eq(download.status.as_str(), "ACTIVE") || (0 < done && done < total && !str_eq(
        download.status.as_str(),
        "WAITING",
    ))
}

/// Check if a download is queued
pub fn is_queued(download: &Download) -> (r: bool)
    ensures
        r == shows_queued(*download),
{
    let (done, _) = download.progress();
    str_eq(download.status.as_str(), "WAITING") || str_eq(download.status.as_str(), "PAUSED")
        || done == 0
}

/// Check if a download is completed
pub fn is_completed(download: &Download) -> (r: bool)
    ensures
        r == shows_completed(*download),
{
    let (done, total) = download.progress();
    done >= total || str_eq(download.status.as_str(), "COMPLETE")
}

/// Check if a download has an error
pub fn is_error(download: &Download) -> (r: bool)
    ensures
        r == shows_error(*download),
{
    if str_eq(download.status.as_str(), "ERROR") {
        return true;
    }
    let l = to_lower(download.status.as_str());
    contains_str(l.as_str(), "error")
}

/// Whether a transfer belongs to a tab: 0 active, 1 queued, 2 completed; no other tab
/// holds any.
pub open spec fn in_tab(d: Download, tab: usize) -> bool {
    if tab == 0 {
        shows_active(d)
    } else if tab == 1 {
        shows_queued(d)
    } else if tab == 2 {
        shows_completed(d)
    } else {
        false
    }
}

fn in_tab_exec(d: &Download, tab: usize) -> (r: bool)
    ensures
        r == in_tab(*d, tab),
{
    if tab == 0 {
        is_active(d)
    } else if tab == 1 {
        is_queued(d)
    } else if tab == 2 {
        is_completed(d)
    } else {
        false
    }
}

/// Whether `r` refers to the elements of `f`, in order.
pub open spec fn refers_to(r: Seq<&Download>, f: Seq<Download>) -> bool {
    r.len() == f.len() && forall|i: int| 0 <= i < r.len() ==> #[trigger] r[i] == f[i]
}

/// The transfers of a tab, in order.
pub fn filter_by_tab(downloads: &[Download], tab: usize) -> (r: Vec<&Download>)
    ensures
        refers_to(r@, downloads@.filter(|d: Download| in_tab(d, tab))),
{
    let ghost pick = |d: Download| in_tab(d, tab);
    let mut r: Vec<&Download> = Vec::new();
    let mut i: usize = 0;
    proof {
        reveal(Seq::filter);
        assert(downloads@.subrange(0, 0).filter(pick) =~= Seq::<Download>::empty());
    }
    while i < downloads.len()
        invariant
            pick == (|d: Download| in_tab(d, tab)),
            i <= downloads@.len(),
            refers_to(r@, downloads@.subrange(0, i as int).filter(pick)),
        decreases downloads@.len() - i,
    {
        let ghost s1 = downloads@.subrange(0, i + 1);
        assert(s1.drop_last() =~= downloads@.subrange(0, i as int));
        assert(s1.last() == downloads@[i as int]);
        proof {
            reveal(Seq::filter);
        }
        let ghost r0 = r@;
        if in_tab_exec(&downloads[i], tab) {
            r.push(&downloads[i]);
            assert forall|k: int| 0 <= k < r@.len() implies #[trigger] r@[k] == s1.filter(pick)[k] by {
                if k < r0.len() {
                    assert(r@[k] == r0[k]);
                }
            }
        }
        i += 1;
    }
    assert(downloads@.subrange(0, downloads@.len() as int) =~= downloads@);
    r
}

/// The number of transfers in a tab.
pub fn count_by_tab(downloads: &[Download], tab: usize) -> (r: usize)
    ensures
        r == downloads@.filter(|d: Download| in_tab(d, tab)).len(),
{
    filter_by_tab(downloads, tab).len()
}

/// The transfers whose name contains `query`, ignoring case; all of them for an empty query.
pub fn filter_by_search<'a>(downloads: &[&'a Download], query: &str) -> (r: Vec<&'a Download>)
    ensures
        query@.len() == 0 ==> r@ == downloads@,
        query@.len() > 0 ==> r@ == downloads@.filter(
            |d: &'a Download| contains_seq(lowercase(d.name@), lowercase(query@)),
        ),
{
    let mut r: Vec<&'a Download> = Vec::new();
    if query.is_empty() {
        let mut i: usize = 0;
        while i < downloads.len()
            invariant
                i <= downloads@.len(),
                r@ == downloads@.subrange(0, i as int),
            decreases downloads@.len() - i,
        {
            r.push(downloads[i]);
            i += 1;
        }
        assert(downloads@.subrange(0, downloads@.len() as int) =~= downloads@);
        return r;
    }
    let q = to_lower(query);
    let ghost pick = |d: &'a Download| contains_seq(lowercase(d.name@), lowercase(query@));
    let mut i: usize = 0;
    proof {
        reveal(Seq::filter);
        assert(downloads@.subrange(0, 0).filter(pick) =~= Seq::<&'a Download>::empty());
    }
    while i < downloads.len()
        invariant
            pick == (|d: &'a Download| contains_seq(lowercase(d.name@), lowercase(query@))),
            q@ == lowercase(query@),
            i <= downloads@.len(),
            r@ == downloads@.subrange(0, i as int).filter(pick),
        decreases downloads@.len() - i,
    {
        let ghost s1 = downloads@.subrange(0, i + 1);
        assert(s1.drop_last() =~= downloads@.subrange(0, i as int));
        assert(s1.last() == downloads@[i as int]);
        proof {
            reveal(Seq::filter);
        }
        let name = to_lower(downloads[i].name.as_str());
        if contains_str(name.as_str(), q.as_str()) {
            r.push(downloads[i]);
        }
        i += 1;
    }
    assert(downloads@.subrange(0, downloads@.len() as int) =~= downloads@);
    r
}

/// The name of a transfer kind.
pub fn download_type_name(download: &Download) -> (r: &'static str)
    ensures
        r@ == match download.download_type {
            DownloadType::Http => "HTTP/HTTPS"@,
            DownloadType::Torrent => "BitTorrent"@,
            DownloadType::Metalink => "Metalink"@,
        },
{
    match download.download_type {
        DownloadType::Http => "HTTP/HTTPS",
        DownloadType::Torrent => "BitTorrent",
        DownloadType::Metalink => "Metalink",
    }
}

/// The sum of a rate history.
pub open spec fn history_sum(h: Seq<u64>) -> nat
    decreases h.len(),
{
    if h.len() == 0 {
        0
    } else {
        history_sum(h.drop_last()) + h.last() as nat
    }
}

/// The rate an estimate of time left uses: the mean of the history (rounded down),
/// or the displayed rate read back when there is no history.
pub open spec fn eta_rate(d: Download) -> nat {
    if d.speed_history@.len() > 0 {
        history_sum(d.speed_history@) / d.speed_history@.len() as nat
    } else {
        rate_reading(d.speed@)
    }
}

/// The time-left text of a transfer.
pub open spec fn download_eta_text(d: Download) -> Seq<char> {
    let (done, total) = progress_of(d);
    if done >= total {
        "Complete"@
    } else if d.status@ == "PAUSED"@ {
        "Paused"@
    } else if d.status@ == "WAITING"@ {
        "Waiting"@
    } else if shows_error(d) {
        "Error"@
    } else if eta_rate(d) == 0 {
        "∞"@
    } else {
        eta_text(
            if d.total_length >= d.completed_length { (d.total_length - d.completed_length) as nat } else { 0 },
            eta_rate(d),
        )
    }
}

fn mean_rate(h: &Vec<u64>) -> (r: u64)
    requires
        h@.len() > 0,
    ensures
        r as nat == history_sum(h@) / h@.len() as nat,
{
    let mut sum: u128 = 0;
    let mut i: usize = 0;
    while i < h.len()
        invariant
            i <= h@.len(),
            sum as nat == history_sum(h@.subrange(0, i as int)),
            sum <= i as u128 * 0xffff_ffff_ffff_ffffu128,
            i <= usize::MAX,
        decreases h@.len() - i,
    {
        assert(h@.subrange(0, i + 1).drop_last() =~= h@.subrange(0, i as int));
        assert((i as u128 + 1) * 0xffff_ffff_ffff_ffffu128 == i as u128 * 0xffff_ffff_ffff_ffffu128 + 0xffff_ffff_ffff_ffffu128) by (nonlinear_arith);
        sum = sum + h[i] as u128;
        i += 1;
    }
    assert(h@.subrange(0, h@.len() as int) =~= h@);
    let n = h.len() as u128;
    assert(sum / n <= 0xffff_ffff_ffff_ffffu128) by (nonlinear_arith)
        requires sum <= n * 0xffff_ffff_ffff_ffffu128, n >= 1;
    (sum / n) as u64
}

/// Format ETA for a download based on its current state
pub fn format_download_eta(download: &Download) -> (r: String)
    ensures
        r@ == download_eta_text(*download),
{
    let (done, total) = download.progress();
    if done >= total {
        return String::from_str("Complete");
    }
    if str_eq(download.status.as_str(), "PAUSED") {
        return String::from_str("Paused");
    }
    if str_eq(download.status.as_str(), "WAITING") {
        return String::from_str("Waiting");
    }
    if is_error(download) {
        return String::from_str("Error");
    }
    let avg = if download.speed_history.len() > 0 {
        mean_rate(&download.speed_history)
    } else {
        parse_speed(download.speed.as_str())
    };
    if avg == 0 {
        return String::from_str("∞");
    }
    let remaining = download.total_length.saturating_sub(download.completed_length);
    format_eta(remaining, avg)
}

/// Global statistics for all downloads
#[derive(Clone, Copy, Debug, PartialEq, Eq, Structural)]
pub struct GlobalStats {
    pub total_download_speed: u64,
    pub total_upload_speed: u64,
    pub active_count: usize,
    pub waiting_count: usize,
    pub completed_count: usize,
    pub error_count: usize,
    pub total_downloaded: u64,
    pub total_size: u64,
}

impl Default for GlobalStats {
    fn default() -> (r: Self)
        ensures
            r == (GlobalStats {
                total_download_speed: 0,
                total_upload_speed: 0,
                active_count: 0,
                waiting_count: 0,
                completed_count: 0,
                error_count: 0,
                total_downloaded: 0,
                total_size: 0,
            }),
    {
        GlobalStats {
            total_download_speed: 0,
            total_upload_speed: 0,
            active_count: 0,
            waiting_count: 0,
            completed_count: 0,
            error_count: 0,
            total_downloaded: 0,
            total_size: 0,
        }
    }
}

/// The view's class of a transfer: the first of active, completed, failed, queued that holds.
pub open spec fn view_class(d: Download) -> nat {
    if shows_active(d) {
        0
    } else if shows_completed(d) {
        1
    } else if shows_error(d) {
        2
    } else if shows_queued(d) {
        3
    } else {
        4
    }
}

pub open spec fn count_class(t: Seq<Download>, c: nat) -> nat
    decreases t.len(),
{
    if t.len() == 0 {
        0
    } else {
        count_class(t.drop_last(), c) + if view_class(t.last()) == c { 1nat } else { 0nat }
    }
}

/// Summed displayed rates (read back) of the active transfers.
pub open spec fn shown_rate_sum(t: Seq<Download>, upload: bool) -> nat
    decreases t.len(),
{
    if t.len() == 0 {
        0
    } else {
        shown_rate_sum(t.drop_last(), upload) + if view_class(t.last()) == 0 {
            rate_reading(if upload { t.last().upload_speed@ } else { t.last().speed@ })
        } else {
            0nat
        }
    }
}

pub open spec fn bytes_sum(t: Seq<Download>, total: bool) -> nat
    decreases t.len(),
{
    if t.len() == 0 {
        0
    } else {
        bytes_sum(t.drop_last(), total) + if total { t.last().total_length as nat } else { t.last().completed_length as nat }
    }
}

/// The view's statistics of a list of transfers; sums saturate.
pub open spec fn view_stats(t: Seq<Download>) -> GlobalStats {
    GlobalStats {
        total_download_speed: capped(shown_rate_sum(t, false), u64::MAX as nat) as u64,
        total_upload_speed: capped(shown_rate_sum(t, true), u64::MAX as nat) as u64,
        active_count: count_class(t, 0) as usize,
        waiting_count: count_class(t, 3) as usize,
        completed_count: count_class(t, 1) as usize,
        error_count: count_class(t, 2) as usize,
        total_downloaded: capped(bytes_sum(t, false), u64::MAX as nat) as u64,
        total_size: capped(bytes_sum(t, true), u64::MAX as nat) as u64,
    }
}

/// Calculate global statistics from all downloads
pub fn calculate_global_stats(downloads: &[Download]) -> (r: GlobalStats)
    ensures
        r == view_stats(downloads@),
{
    let mut stats = GlobalStats::default();
    let mut i: usize = 0;
    while i < downloads.len()
        invariant
            i <= downloads@.len(),
            stats.active_count as nat == count_class(downloads@.subrange(0, i as int), 0),
            stats.completed_count as nat == count_class(downloads@.subrange(0, i as int), 1),
            stats.error_count as nat == count_class(downloads@.subrange(0, i as int), 2),
            stats.waiting_count as nat == count_class(downloads@.subrange(0, i as int), 3),
            stats.active_count + stats.completed_count + stats.error_count + stats.waiting_count <= i,
            stats.total_download_speed as nat == capped(shown_rate_sum(downloads@.subrange(0, i as int), false), u64::MAX as nat),
            stats.total_upload_speed as nat == capped(shown_rate_sum(downloads@.subrange(0, i as int), true), u64::MAX as nat),
            stats.total_downloaded as nat == capped(bytes_sum(downloads@.subrange(0, i as int), false), u64::MAX as nat),
            stats.total_size as nat == capped(bytes_sum(downloads@.subrange(0, i as int), true), u64::MAX as nat),
        decreases downloads@.len() - i,
    {
        let d = &downloads[i];
        assert(downloads@.subrange(0, i + 1).drop_last() =~= downloads@.subrange(0, i as int));
        assert(downloads@.subrange(0, i + 1).last() == downloads@[i as int]);
        if is_active(d) {
            stats.active_count += 1;
            stats.total_download_speed = stats.total_download_speed.saturating_add(parse_speed(d.speed.as_str()));
            stats.total_upload_speed = stats.total_upload_speed.saturating_add(parse_speed(d.upload_speed.as_str()));
        } else if is_completed(d) {
            stats.completed_count += 1;
        } else if is_error(d) {
            stats.error_count += 1;
        } else if is_queued(d) {
            stats.waiting_count += 1;
        }
        stats.total_downloaded = stats.total_downloaded.saturating_add(d.completed_length);
        stats.total_size = stats.total_size.saturating_add(d.total_length);
        i += 1;
    }
    assert(downloads@.subrange(0, downloads@.len() as int) =~= downloads@);
    stats
}


/// Lexicographic comparison of character sequences: -1, 0 or 1.
pub open spec fn lex_cmp(a: Seq<char>, b: Seq<char>) -> int
    decreases a.len(),
{
    if a.len() == 0 && b.len() == 0 {
        0
    } else if a.len() == 0 {
        -1
    } else if b.len() == 0 {
        1
    } else if a[0] < b[0] {
        -1
    } else if a[0] > b[0] {
        1
    } else {
        lex_cmp(a.drop_first(), b.drop_first())
    }
}

/// Comparison of numbers: -1, 0 or 1.
pub open spec fn num_cmp(a: int, b: int) -> int {
    if a < b {
        -1
    } else if a > b {
        1
    } else {
        0
    }
}

/// How two transfers compare under a sort order: names ignoring case, total sizes,
/// progress fractions, displayed rates read back, or statuses.
pub open spec fn key_cmp(a: Download, b: Download, order: SortOrder) -> int {
    match order {
        SortOrder::Name => lex_cmp(lowercase(a.name@), lowercase(b.name@)),
        SortOrder::Size => num_cmp(a.total_length as int, b.total_length as int),
        SortOrder::Progress => num_cmp(
            (progress_of(a).0 * progress_of(b).1) as int,
            (progress_of(b).0 * progress_of(a).1) as int,
        ),
        SortOrder::Speed => num_cmp(rate_reading(a.speed@) as int, rate_reading(b.speed@) as int),
        SortOrder::Status => lex_cmp(a.status@, b.status@),
    }
}

/// Whether `a` may stand before `b`: ascending keys, or descending ones.
pub open spec fn in_order(a: &Download, b: &Download, order: SortOrder, ascending: bool) -> bool {
    if ascending {
        key_cmp(*a, *b, order) <= 0
    } else {
        key_cmp(*a, *b, order) >= 0
    }
}

proof fn lemma_lex_antisymmetric(a: Seq<char>, b: Seq<char>)
    ensures
        lex_cmp(a, b) == -lex_cmp(b, a),
    decreases a.len(),
{
    if a.len() > 0 && b.len() > 0 && a[0] == b[0] {
        lemma_lex_antisymmetric(a.drop_first(), b.drop_first());
    }
}

proof fn lemma_key_antisymmetric(a: Download, b: Download, order: SortOrder)
    ensures
        key_cmp(a, b, order) == -key_cmp(b, a, order),
{
    match order {
        SortOrder::Name => lemma_lex_antisymmetric(lowercase(a.name@), lowercase(b.name@)),
        SortOrder::Status => lemma_lex_antisymmetric(a.status@, b.status@),
        _ => {},
    }
}

fn lex_cmp_exec(a: &str, b: &str) -> (r: i8)
    ensures
        r as int == lex_cmp(a@, b@),
{
    let x = chars_of(a);
    let y = chars_of(b);
    let mut i: usize = 0;
    assert(x@.subrange(0, x@.len() as int) =~= x@);
    assert(y@.subrange(0, y@.len() as int) =~= y@);
    while i < x.len() && i < y.len()
        invariant
            x@ == a@,
            y@ == b@,
            i <= x@.len(),
            i <= y@.len(),
            lex_cmp(a@, b@) == lex_cmp(x@.subrange(i as int, x@.len() as int), y@.subrange(i as int, y@.len() as int)),
        decreases x@.len() - i,
    {
        let ghost p = x@.subrange(i as int, x@.len() as int);
        let ghost q = y@.subrange(i as int, y@.len() as int);
        assert(p[0] == x@[i as int] && q[0] == y@[i as int]);
        if x[i] < y[i] {
            return -1;
        }
        if x[i] > y[i] {
            return 1;
        }
        assert(p.drop_first() =~= x@.subrange(i + 1, x@.len() as int));
        assert(q.drop_first() =~= y@.subrange(i + 1, y@.len() as int));
        i += 1;
    }
    if i < x.len() {
        1
    } else if i < y.len() {
        -1
    } else {
        0
    }
}

fn num_cmp_exec(a: u128, b: u128) -> (r: i8)
    ensures
        r as int == num_cmp(a as int, b as int),
{
    if a < b {
        -1
    } else if a > b {
        1
    } else {
        0
    }
}

/// How two transfers compare under a sort order (see [`key_cmp`]).
pub fn compare_downloads(a: &Download, b: &Download, order: SortOrder) -> (r: i8)
    ensures
        r as int == key_cmp(*a, *b, order),
{
    match order {
        SortOrder::Name => {
            let x = to_lower(a.name.as_str());
            let y = to_lower(b.name.as_str());
            lex_cmp_exec(x.as_str(), y.as_str())
        },
        SortOrder::Size => num_cmp_exec(a.total_length as u128, b.total_length as u128),
        SortOrder::Progress => {
            let (da, ta) = a.progress();
            let (db, tb) = b.progress();
            assert((da as u128) * (tb as u128) <= 0xffff_ffff_ffff_ffffu128 * 0xffff_ffff_ffff_ffffu128) by (nonlinear_arith);
            assert((db as u128) * (ta as u128) <= 0xffff_ffff_ffff_ffffu128 * 0xffff_ffff_ffff_ffffu128) by (nonlinear_arith);
            num_cmp_exec(da as u128 * tb as u128, db as u128 * ta as u128)
        },
        SortOrder::Speed => num_cmp_exec(parse_speed(a.speed.as_str()) as u128, parse_speed(b.speed.as_str()) as u128),
        SortOrder::Status => lex_cmp_exec(a.status.as_str(), b.status.as_str()),
    }
}

fn ordered_pair(a: &Download, b: &Download, order: SortOrder, ascending: bool) -> (r: bool)
    ensures
        r == in_order(a, b, order, ascending),
{
    let c = compare_downloads(a, b, order);
    if ascending {
        c <= 0
    } else {
        c >= 0
    }
}

/// Sorts transfers by an order, ascending or descending, by insertion: a transfer moves
/// back only past transfers that are out of order with it.
pub fn sort_downloads<'a>(downloads: &mut Vec<&'a Download>, order: SortOrder, ascending: bool)
    ensures
        final(downloads)@.to_multiset() == old(downloads)@.to_multiset(),
        forall|i: int|
            0 <= i < final(downloads)@.len() - 1 ==> in_order(
                #[trigger] final(downloads)@[i],
                final(downloads)@[i + 1],
                order,
                ascending,
            ),
{
    let n = downloads.len();
    let ghost start = downloads@;
    if n == 0 {
        return;
    }
    let mut i: usize = 1;
    while i < n
        invariant
            n == downloads@.len(),
            1 <= i <= n,
            downloads@.to_multiset() == start.to_multiset(),
            forall|k: int| 0 <= k < i - 1 ==> in_order(#[trigger] downloads@[k], downloads@[k + 1], order, ascending),
        decreases n - i,
    {
        let mut j: usize = i;
        let mut moving = !ordered_pair(downloads[j - 1], downloads[j], order, ascending);
        while moving
            invariant
                n == downloads@.len(),
                1 <= i < n,
                j <= i,
                moving ==> j > 0 && !in_order(downloads@[j - 1], downloads@[j as int], order, ascending),
                !moving ==> j == 0 || in_order(downloads@[j - 1], downloads@[j as int], order, ascending),
                downloads@.to_multiset() == start.to_multiset(),
                forall|k: int| 0 <= k < i && k != j - 1 ==> in_order(#[trigger] downloads@[k], downloads@[k + 1], order, ascending),
                0 < j < i ==> in_order(downloads@[j - 1], downloads@[j + 1], order, ascending),
            decreases j,
        {
            let ghost before = downloads@;
            let x = downloads[j];
            let y = downloads[j - 1];
            downloads.set(j - 1, x);
            downloads.set(j, y);
            proof {
                lemma_key_antisymmetric(*y, *x, order);
                assert(downloads@ == before.update(j - 1, x).update(j as int, y));
                to_multiset_update(before, j - 1, x);
                to_multiset_update(before.update(j - 1, x), j as int, y);
                assert(before[j - 1] == y);
                assert(before.contains(y));
                to_multiset_contains(before, y);
                assert(downloads@.to_multiset() =~= before.to_multiset());
                assert forall|k: int| 0 <= k < i && k != j - 2 implies in_order(#[trigger] downloads@[k], downloads@[k + 1], order, ascending) by {
                    if k == j - 1 {
                    } else if k == j {
                        assert(in_order(before[j - 1], before[j + 1], order, ascending));
                    } else {
                        assert(downloads@[k] == before[k]);
                        assert(downloads@[k + 1] == before[k + 1]);
                    }
                }
                if 1 < j {
                    assert(in_order(before[j - 2], before[j - 1], order, ascending));
                }
            }
            j -= 1;
            moving = j > 0 && !ordered_pair(downloads[j - 1], downloads[j], order, ascending);
        }
        i += 1;
    }
}

} // verus!
