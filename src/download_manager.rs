//! The transfer table: merging what the daemon reports, removal with tombstones,
//! retry, purge and aggregate statistics.
//!
//! The daemon calls themselves are made by the caller; every operation here is the
//! local, synchronous half of one user action or one reconciliation pass.

use vstd::prelude::*;

use crate::aria2::{first_file_path, first_path, opt_count, opt_view, Aria2Status};
use crate::models::{
    copy_opt_string, progress_of, same_download, zero_stats, Download, DownloadType, GlobalStats,
};
use crate::text::{
    push_str,
    after_last, after_last_start, before_first, chars_of, ends_with, first_occurrence,
    has_prefix, has_suffix, before_first_end, find_seq, subvec,
    parse_u32_or_zero, parse_u64_or_zero, push_char, starts_with, str_eq, string_of_range,
    to_upper, u32_or_zero, u64_or_zero, uppercase,
};
use crate::ui::utils::{format_speed, speed_text};

verus! {

/// Capacity of each rate history.
pub const MAX_SPEED_HISTORY: usize = 60;

/// The id of a table entry.
pub open spec fn id_of(d: Download) -> Seq<char> {
    match d.gid {
        Some(g) => g@,
        None => Seq::empty(),
    }
}

/// A rate history after one more sample: the sample appended, and the oldest sample
/// dropped once there are more than [`MAX_SPEED_HISTORY`].
pub open spec fn slide(h: Seq<u64>, x: u64) -> Seq<u64> {
    let p = h.push(x);
    if p.len() > MAX_SPEED_HISTORY {
        p.drop_first()
    } else {
        p
    }
}

/// The display name a file path gives: its last component, when that is not empty.
pub open spec fn name_from_path(p: Seq<char>) -> Option<Seq<char>> {
    let n = after_last(p, '/');
    if n.len() > 0 {
        Some(n)
    } else {
        None
    }
}

/// The fields of `d` that the daemon reports are as the snapshot `st` has them, and its
/// rate histories end with the snapshot's rates. Progress follows from the byte counts alone.
pub open spec fn observed(d: Download, st: Aria2Status) -> bool {
    &&& d.total_length == u64_or_zero(st.total_length@)
    &&& d.completed_length == u64_or_zero(st.completed_length@)
    &&& d.speed@ == speed_text(u64_or_zero(st.download_speed@) as nat)
    &&& d.upload_speed@ == speed_text(u64_or_zero(st.upload_speed@) as nat)
    &&& d.status@ == uppercase(st.status@)
    &&& d.connections == u32_or_zero(st.connections@)
    &&& opt_view(d.error_message) == opt_view(st.error_message)
    &&& d.peers == opt_count(st.num_peers)
    &&& opt_view(d.bitfield) == opt_view(st.bitfield)
    &&& d.num_pieces == opt_count(st.num_pieces)
    &&& d.speed_history@.len() > 0 && d.speed_history@.last() == u64_or_zero(st.download_speed@)
    &&& d.upload_speed_history@.len() > 0 && d.upload_speed_history@.last() == u64_or_zero(st.upload_speed@)
}

/// `new` is the entry `old` brought up to date by a snapshot of the same transfer:
/// reported fields overwritten, the source kept, each rate history slid by one sample.
pub open spec fn refreshed(new: Download, old: Download, st: Aria2Status) -> bool {
    &&& observed(new, st)
    &&& opt_view(new.gid) == opt_view(old.gid)
    &&& opt_view(new.url) == opt_view(old.url)
    &&& new.download_type == old.download_type
    &&& new.seeds == match st.bittorrent {
        Some(bt) => u32_or_zero(bt.num_seeders@),
        None => old.seeds,
    }
    &&& new.speed_history@ == slide(old.speed_history@, u64_or_zero(st.download_speed@))
    &&& new.upload_speed_history@ == slide(old.upload_speed_history@, u64_or_zero(st.upload_speed@))
    &&& match first_file_path(st) {
        Some(p) => opt_view(new.file_path) == Some(p) && new.name@ == match name_from_path(p) {
            Some(n) => n,
            None => old.name@,
        },
        None => opt_view(new.file_path) == opt_view(old.file_path) && new.name@ == old.name@,
    }
}

/// `new` is the entry made for a transfer first seen in a snapshot.
pub open spec fn discovered(new: Download, st: Aria2Status) -> bool {
    &&& observed(new, st)
    &&& opt_view(new.gid) == Some(st.gid@)
    &&& new.url is None
    &&& new.download_type == if st.bittorrent is Some {
        DownloadType::Torrent
    } else {
        DownloadType::Http
    }
    &&& new.seeds == match st.bittorrent {
        Some(bt) => u32_or_zero(bt.num_seeders@),
        None => 0,
    }
    &&& new.speed_history@ == seq![u64_or_zero(st.download_speed@)]
    &&& new.upload_speed_history@ == seq![u64_or_zero(st.upload_speed@)]
    &&& opt_view(new.file_path) == first_file_path(st)
    &&& new.name@ == match first_file_path(st) {
        Some(p) => match name_from_path(p) {
            Some(n) => n,
            None => "Unknown"@,
        },
        None => "Unknown"@,
    }
}

/// Whether the table has an entry with this id.
pub open spec fn has_id(t: Seq<Download>, id: Seq<char>) -> bool {
    exists|i: int| 0 <= i < t.len() && id_of(#[trigger] t[i]) == id
}

/// The table's invariant: every entry has an id, ids are unique, no id is tombstoned,
/// and each rate history holds at most [`MAX_SPEED_HISTORY`] samples.
pub open spec fn table_wf(t: Seq<Download>, tomb: Set<Seq<char>>) -> bool {
    &&& forall|i: int| 0 <= i < t.len() ==> (#[trigger] t[i]).gid is Some
    &&& forall|i: int, j: int|
        0 <= i < t.len() && 0 <= j < t.len() && i != j ==> id_of(#[trigger] t[i]) != id_of(
            #[trigger] t[j],
        )
    &&& forall|i: int| 0 <= i < t.len() ==> !tomb.contains(id_of(#[trigger] t[i]))
    &&& forall|i: int|
        0 <= i < t.len() ==> (#[trigger] t[i]).speed_history@.len() <= MAX_SPEED_HISTORY
            && t[i].upload_speed_history@.len() <= MAX_SPEED_HISTORY
}

/// The table after merging one snapshot: ignored when its id is tombstoned; else the
/// entry with its id refreshed, or a discovered entry appended.
pub open spec fn merged(
    before: Seq<Download>,
    after: Seq<Download>,
    tomb: Set<Seq<char>>,
    st: Aria2Status,
) -> bool {
    if tomb.contains(st.gid@) {
        after == before
    } else if has_id(before, st.gid@) {
        &&& after.len() == before.len()
        &&& forall|i: int|
            0 <= i < before.len() ==> if id_of(#[trigger] before[i]) == st.gid@ {
                refreshed(after[i], before[i], st)
            } else {
                after[i] == before[i]
            }
    } else {
        &&& after.len() == before.len() + 1
        &&& after.subrange(0, before.len() as int) == before
        &&& discovered(after.last(), st)
    }
}

fn slid(h: &Vec<u64>, x: u64) -> (r: Vec<u64>)
    ensures
        r@ == slide(h@, x),
{
    let mut r: Vec<u64> = Vec::new();
    let mut i: usize = 0;
    while i < h.len()
        invariant
            i <= h@.len(),
            r@ == h@.subrange(0, i as int),
        decreases h@.len() - i,
    {
        r.push(h[i]);
        i += 1;
    }
    assert(r@ =~= h@);
    r.push(x);
    if r.len() > MAX_SPEED_HISTORY {
        r.remove(0);
        assert(r@ =~= h@.push(x).drop_first());
    }
    r
}

/// The last component of a path, when not empty.
fn name_from(p: &String) -> (r: Option<String>)
    ensures
        opt_view(r) == name_from_path(p@),
{
    let v = chars_of(p.as_str());
    let start = after_last_start(&v, '/');
    if start < v.len() {
        Some(string_of_range(&v, start, v.len()))
    } else {
        None
    }
}

fn opt_count_exec(o: &Option<String>) -> (r: u32)
    ensures
        r == opt_count(*o),
{
    match o {
        Some(s) => parse_u32_or_zero(s.as_str()),
        None => 0,
    }
}

/// The entry `old` brought up to date by the snapshot `st`.
fn refreshed_entry(old: &Download, st: &Aria2Status) -> (r: Download)
    ensures
        refreshed(r, *old, *st),
{
    let total = parse_u64_or_zero(st.total_length.as_str());
    let completed = parse_u64_or_zero(st.completed_length.as_str());
    let speed = parse_u64_or_zero(st.download_speed.as_str());
    let upload_speed = parse_u64_or_zero(st.upload_speed.as_str());
    let seeds = match &st.bittorrent {
        Some(bt) => parse_u32_or_zero(bt.num_seeders.as_str()),
        None => old.seeds,
    };
    let (file_path, name) = match first_path(st) {
        Some(p) => {
            let name = match name_from(p) {
                Some(n) => n,
                None => old.name.clone(),
            };
            (Some(p.clone()), name)
        },
        None => (copy_opt_string(&old.file_path), old.name.clone()),
    };
    Download {
        gid: copy_opt_string(&old.gid),
        name,
        url: copy_opt_string(&old.url),
        speed: format_speed(speed),
        status: to_upper(st.status.as_str()),
        total_length: total,
        completed_length: completed,
        download_type: old.download_type,
        speed_history: slid(&old.speed_history, speed),
        upload_speed: format_speed(upload_speed),
        upload_speed_history: slid(&old.upload_speed_history, upload_speed),
        connections: parse_u32_or_zero(st.connections.as_str()),
        file_path,
        error_message: copy_opt_string(&st.error_message),
        seeds,
        peers: opt_count_exec(&st.num_peers),
        bitfield: copy_opt_string(&st.bitfield),
        num_pieces: opt_count_exec(&st.num_pieces),
    }
}

/// The entry for a transfer first seen in the snapshot `st`.
fn discovered_entry(st: &Aria2Status) -> (r: Download)
    ensures
        discovered(r, *st),
{
    let total = parse_u64_or_zero(st.total_length.as_str());
    let completed = parse_u64_or_zero(st.completed_length.as_str());
    let speed = parse_u64_or_zero(st.download_speed.as_str());
    let upload_speed = parse_u64_or_zero(st.upload_speed.as_str());
    let (seeds, download_type) = match &st.bittorrent {
        Some(bt) => (parse_u32_or_zero(bt.num_seeders.as_str()), DownloadType::Torrent),
        None => (0, DownloadType::Http),
    };
    let unknown = String::from_str("Unknown");
    let (file_path, name) = match first_path(st) {
        Some(p) => {
            let name = match name_from(p) {
                Some(n) => n,
                None => unknown,
            };
            (Some(p.clone()), name)
        },
        None => (None, unknown),
    };
    let mut speed_history: Vec<u64> = Vec::new();
    speed_history.push(speed);
    let mut upload_speed_history: Vec<u64> = Vec::new();
    upload_speed_history.push(upload_speed);
    assert(speed_history@ =~= seq![speed]);
    assert(upload_speed_history@ =~= seq![upload_speed]);
    Download {
        gid: Some(st.gid.clone()),
        name,
        url: None,
        speed: format_speed(speed),
        status: to_upper(st.status.as_str()),
        total_length: total,
        completed_length: completed,
        download_type,
        speed_history,
        upload_speed: format_speed(upload_speed),
        upload_speed_history,
        connections: parse_u32_or_zero(st.connections.as_str()),
        file_path,
        error_message: copy_opt_string(&st.error_message),
        seeds,
        peers: opt_count_exec(&st.num_peers),
        bitfield: copy_opt_string(&st.bitfield),
        num_pieces: opt_count_exec(&st.num_pieces),
    }
}


/// What one merge keeps: every position keeps its id, entries of other ids are untouched,
/// the merged id is present unless tombstoned, and no id but it is new.
pub proof fn lemma_merged_keeps_ids(
    before: Seq<Download>,
    after: Seq<Download>,
    tomb: Set<Seq<char>>,
    st: Aria2Status,
)
    requires
        merged(before, after, tomb, st),
    ensures
        after.len() >= before.len(),
        forall|i: int| 0 <= i < before.len() ==> id_of(#[trigger] after[i]) == id_of(before[i]),
        forall|i: int|
            0 <= i < before.len() && id_of(before[i]) != st.gid@ ==> #[trigger] after[i] == before[i],
        !tomb.contains(st.gid@) ==> has_id(after, st.gid@),
        forall|id: Seq<char>| #[trigger] has_id(after, id) ==> has_id(before, id) || id == st.gid@,
{
    if tomb.contains(st.gid@) {
    } else if has_id(before, st.gid@) {
        assert forall|i: int| 0 <= i < before.len() implies id_of(#[trigger] after[i]) == id_of(before[i]) by {
            if id_of(before[i]) == st.gid@ {
                assert(refreshed(after[i], before[i], st));
            }
        }
        let k = choose|k: int| 0 <= k < before.len() && id_of(#[trigger] before[k]) == st.gid@;
        assert(id_of(after[k]) == st.gid@);
        assert forall|id: Seq<char>| #[trigger] has_id(after, id) implies has_id(before, id) || id == st.gid@ by {
            let j = choose|j: int| 0 <= j < after.len() && id_of(#[trigger] after[j]) == id;
            assert(id_of(after[j]) == id_of(before[j]));
        }
    } else {
        assert forall|i: int| 0 <= i < before.len() implies #[trigger] after[i] == before[i] by {
            assert(after.subrange(0, before.len() as int)[i] == after[i]);
        }
        assert(id_of(after[before.len() as int]) == st.gid@);
        assert forall|id: Seq<char>| #[trigger] has_id(after, id) implies has_id(before, id) || id == st.gid@ by {
            let j = choose|j: int| 0 <= j < after.len() && id_of(#[trigger] after[j]) == id;
            if j < before.len() {
                assert(after[j] == before[j]);
            }
        }
    }
}

/// Whether a status counts as active.
pub open spec fn is_active_status(s: Seq<char>) -> bool {
    s == "ACTIVE"@
}

/// Whether a status counts as queued: waiting or paused.
pub open spec fn is_queued_status(s: Seq<char>) -> bool {
    s == "WAITING"@ || s == "PAUSED"@
}

/// Whether a status counts as stopped: complete or failed.
pub open spec fn is_stopped_status(s: Seq<char>) -> bool {
    s == "COMPLETE"@ || s == "ERROR"@
}

/// The latest sample of a rate history, 0 when it is empty.
pub open spec fn latest(h: Seq<u64>) -> nat {
    if h.len() > 0 {
        h.last() as nat
    } else {
        0
    }
}

pub open spec fn count_active(t: Seq<Download>) -> nat
    decreases t.len(),
{
    if t.len() == 0 {
        0
    } else {
        count_active(t.drop_last()) + if is_active_status(t.last().status@) { 1nat } else { 0nat }
    }
}

pub open spec fn count_queued(t: Seq<Download>) -> nat
    decreases t.len(),
{
    if t.len() == 0 {
        0
    } else {
        count_queued(t.drop_last()) + if is_queued_status(t.last().status@) { 1nat } else { 0nat }
    }
}

pub open spec fn count_stopped(t: Seq<Download>) -> nat
    decreases t.len(),
{
    if t.len() == 0 {
        0
    } else {
        count_stopped(t.drop_last()) + if is_stopped_status(t.last().status@) { 1nat } else { 0nat }
    }
}

/// The summed latest download rate of the active entries.
pub open spec fn active_download_rate(t: Seq<Download>) -> nat
    decreases t.len(),
{
    if t.len() == 0 {
        0
    } else {
        active_download_rate(t.drop_last()) + if is_active_status(t.last().status@) {
            latest(t.last().speed_history@)
        } else {
            0nat
        }
    }
}

/// The summed latest upload rate of the active entries.
pub open spec fn active_upload_rate(t: Seq<Download>) -> nat
    decreases t.len(),
{
    if t.len() == 0 {
        0
    } else {
        active_upload_rate(t.drop_last()) + if is_active_status(t.last().status@) {
            latest(t.last().upload_speed_history@)
        } else {
            0nat
        }
    }
}

/// `n`, or `max` when `n` exceeds it.
pub open spec fn capped(n: nat, max: nat) -> nat {
    if n > max {
        max
    } else {
        n
    }
}

/// The statistics of a table, from a full pass over it; sums and counts saturate.
pub open spec fn stats_of(t: Seq<Download>) -> GlobalStats {
    GlobalStats {
        download_speed: capped(active_download_rate(t), u64::MAX as nat) as u64,
        upload_speed: capped(active_upload_rate(t), u64::MAX as nat) as u64,
        num_active: capped(count_active(t), u32::MAX as nat) as u32,
        num_waiting: capped(count_queued(t), u32::MAX as nat) as u32,
        num_stopped: capped(count_stopped(t), u32::MAX as nat) as u32,
        num_stopped_total: capped(t.len(), u32::MAX as nat) as u32,
    }
}

/// The five status words differ from one another.
proof fn lemma_status_words_distinct()
    ensures
        "ACTIVE"@ != "WAITING"@,
        "ACTIVE"@ != "PAUSED"@,
        "ACTIVE"@ != "COMPLETE"@,
        "ACTIVE"@ != "ERROR"@,
        "WAITING"@ != "COMPLETE"@,
        "WAITING"@ != "ERROR"@,
        "PAUSED"@ != "COMPLETE"@,
        "PAUSED"@ != "ERROR"@,
{
    reveal_strlit("ACTIVE");
    reveal_strlit("WAITING");
    reveal_strlit("PAUSED");
    reveal_strlit("COMPLETE");
    reveal_strlit("ERROR");
    assert("ACTIVE"@[0] != "PAUSED"@[0]);
    assert("PAUSED"@[0] != "ERROR"@[0]);
    assert("WAITING"@[0] != "COMPLETE"@[0]);
    assert("WAITING"@[0] != "ERROR"@[0]);
    assert("ACTIVE"@[0] != "COMPLETE"@[0]);
    assert("ACTIVE"@[0] != "WAITING"@[0]);
    assert("ACTIVE"@[0] != "ERROR"@[0]);
    assert("PAUSED"@[0] != "COMPLETE"@[0]);
}

fn latest_sample(h: &Vec<u64>) -> (r: u64)
    ensures
        r as nat == latest(h@),
{
    if h.len() > 0 {
        h[h.len() - 1]
    } else {
        0
    }
}

fn to_u32_capped(n: usize) -> (r: u32)
    ensures
        r as nat == capped(n as nat, u32::MAX as nat),
{
    if n > u32::MAX as usize {
        u32::MAX
    } else {
        n as u32
    }
}

/// The statistics of a table, by one full classification pass.
pub fn compute_stats(t: &Vec<Download>) -> (r: GlobalStats)
    ensures
        r == stats_of(t@),
{
    let mut active: usize = 0;
    let mut queued: usize = 0;
    let mut stopped: usize = 0;
    let mut down: u64 = 0;
    let mut up: u64 = 0;
    let mut i: usize = 0;
    while i < t.len()
        invariant
            i <= t@.len(),
            active as nat == count_active(t@.subrange(0, i as int)),
            queued as nat == count_queued(t@.subrange(0, i as int)),
            stopped as nat == count_stopped(t@.subrange(0, i as int)),
            active <= i,
            queued <= i,
            stopped <= i,
            down as nat == capped(active_download_rate(t@.subrange(0, i as int)), u64::MAX as nat),
            up as nat == capped(active_upload_rate(t@.subrange(0, i as int)), u64::MAX as nat),
        decreases t@.len() - i,
    {
        let d = &t[i];
        let ghost pre = t@.subrange(0, i as int);
        assert(t@.subrange(0, i + 1).drop_last() =~= pre);
        assert(t@.subrange(0, i + 1).last() == t@[i as int]);
        if str_eq(d.status.as_str(), "ACTIVE") {
            active += 1;
            down = down.saturating_add(latest_sample(&d.speed_history));
            up = up.saturating_add(latest_sample(&d.upload_speed_history));
        } else if str_eq(d.status.as_str(), "WAITING") || str_eq(d.status.as_str(), "PAUSED") {
            queued += 1;
        } else if str_eq(d.status.as_str(), "COMPLETE") || str_eq(d.status.as_str(), "ERROR") {
            stopped += 1;
        }
        proof {
            lemma_status_words_distinct();
        }
        i += 1;
    }
    assert(t@.subrange(0, t@.len() as int) =~= t@);
    GlobalStats {
        download_speed: down,
        upload_speed: up,
        num_active: to_u32_capped(active),
        num_waiting: to_u32_capped(queued),
        num_stopped: to_u32_capped(stopped),
        num_stopped_total: to_u32_capped(t.len()),
    }
}

/// Whether some snapshot in `sts` reports `id`.
pub open spec fn reported(sts: Seq<Aria2Status>, id: Seq<char>) -> bool {
    exists|k: int| 0 <= k < sts.len() && (#[trigger] sts[k]).gid@ == id
}

/// The last snapshot in `sts` that reports `id`, if any.
pub open spec fn last_report(sts: Seq<Aria2Status>, id: Seq<char>) -> Option<Aria2Status>
    decreases sts.len(),
{
    if sts.len() == 0 {
        None
    } else if sts.last().gid@ == id {
        Some(sts.last())
    } else {
        last_report(sts.drop_last(), id)
    }
}

/// What merging the snapshots `sts` in order leaves of the table `before`: each reported,
/// non-tombstoned id is present, with the reported fields of its last snapshot; no id is
/// present that was neither there nor reported; entries keep their positions, and those of
/// unreported ids are untouched.
pub open spec fn reconciled(
    before: Seq<Download>,
    after: Seq<Download>,
    tomb: Set<Seq<char>>,
    sts: Seq<Aria2Status>,
) -> bool {
    &&& after.len() >= before.len()
    &&& forall|i: int| 0 <= i < before.len() ==> id_of(#[trigger] after[i]) == id_of(before[i])
    &&& forall|i: int|
        0 <= i < before.len() && !reported(sts, id_of(before[i])) ==> #[trigger] after[i]
            == before[i]
    &&& forall|k: int|
        0 <= k < sts.len() && !tomb.contains((#[trigger] sts[k]).gid@) ==> has_id(after, sts[k].gid@)
    &&& forall|id: Seq<char>| #[trigger] has_id(after, id) ==> has_id(before, id) || reported(sts, id)
    &&& forall|i: int|
        0 <= i < after.len() ==> match last_report(sts, id_of(#[trigger] after[i])) {
            Some(st) => observed(after[i], st),
            None => true,
        }
    &&& sources_kept(before, after)
    &&& histories_slid(before, after, sts)
}

/// Entries present before keep their recorded source and their kind.
pub open spec fn sources_kept(before: Seq<Download>, after: Seq<Download>) -> bool {
    forall|i: int|
        0 <= i < before.len() ==> opt_view((#[trigger] after[i]).url) == opt_view(before[i].url)
            && after[i].download_type == before[i].download_type
}

/// One of the two rate histories of an entry.
pub open spec fn history_of(d: Download, upload: bool) -> Seq<u64> {
    if upload {
        d.upload_speed_history@
    } else {
        d.speed_history@
    }
}

/// One of the two rates of a snapshot.
pub open spec fn rate_of(st: Aria2Status, upload: bool) -> u64 {
    if upload {
        u64_or_zero(st.upload_speed@)
    } else {
        u64_or_zero(st.download_speed@)
    }
}

/// The rates the snapshots in `sts` report for `id`, in order.
pub open spec fn reported_rates(sts: Seq<Aria2Status>, id: Seq<char>, upload: bool) -> Seq<u64>
    decreases sts.len(),
{
    if sts.len() == 0 {
        Seq::empty()
    } else if sts.last().gid@ == id {
        reported_rates(sts.drop_last(), id, upload).push(rate_of(sts.last(), upload))
    } else {
        reported_rates(sts.drop_last(), id, upload)
    }
}

/// A history after sliding in each of `xs`, in order.
pub open spec fn slide_all(h: Seq<u64>, xs: Seq<u64>) -> Seq<u64>
    decreases xs.len(),
{
    if xs.len() == 0 {
        h
    } else {
        slide(slide_all(h, xs.drop_last()), xs.last())
    }
}

/// The history the entry at position `i` started the pass with: its own when it was there
/// before, none when it is new.
pub open spec fn origin_history(before: Seq<Download>, i: int, upload: bool) -> Seq<u64> {
    if i < before.len() {
        history_of(before[i], upload)
    } else {
        Seq::empty()
    }
}

/// Each history is the one the entry started with, slid by every rate reported for it.
pub open spec fn histories_slid(before: Seq<Download>, after: Seq<Download>, sts: Seq<Aria2Status>) -> bool {
    forall|i: int, upload: bool|
        0 <= i < after.len() ==> #[trigger] history_of(after[i], upload) == slide_all(
            origin_history(before, i, upload),
            reported_rates(sts, id_of(after[i]), upload),
        )
}

/// The last `n` elements of `s` (all of them when fewer).
pub open spec fn last_n(s: Seq<u64>, n: nat) -> Seq<u64> {
    if s.len() <= n {
        s
    } else {
        s.subrange(s.len() - n, s.len() as int)
    }
}

proof fn lemma_rates_empty(sts: Seq<Aria2Status>, id: Seq<char>, upload: bool)
    requires
        !reported(sts, id),
    ensures
        reported_rates(sts, id, upload) == Seq::<u64>::empty(),
    decreases sts.len(),
{
    if sts.len() > 0 {
        assert(sts.last() == sts[sts.len() - 1]);
        if reported(sts.drop_last(), id) {
            let k = choose|k: int| 0 <= k < sts.len() - 1 && (#[trigger] sts.drop_last()[k]).gid@ == id;
            assert(sts[k] == sts.drop_last()[k]);
        }
        lemma_rates_empty(sts.drop_last(), id, upload);
    }
}

proof fn lemma_rates_concat(a: Seq<Aria2Status>, b: Seq<Aria2Status>, id: Seq<char>, upload: bool)
    ensures
        reported_rates(a + b, id, upload) == reported_rates(a, id, upload) + reported_rates(b, id, upload),
    decreases b.len(),
{
    if b.len() == 0 {
        assert(a + b =~= a);
        assert(reported_rates(a, id, upload) + Seq::<u64>::empty() =~= reported_rates(a, id, upload));
    } else {
        assert((a + b).drop_last() =~= a + b.drop_last());
        assert((a + b).last() == b.last());
        lemma_rates_concat(a, b.drop_last(), id, upload);
        let ra = reported_rates(a, id, upload);
        let rb = reported_rates(b.drop_last(), id, upload);
        assert((ra + rb).push(rate_of(b.last(), upload)) =~= ra + rb.push(rate_of(b.last(), upload)));
    }
}

proof fn lemma_slide_all_concat(h: Seq<u64>, xs: Seq<u64>, ys: Seq<u64>)
    ensures
        slide_all(h, xs + ys) == slide_all(slide_all(h, xs), ys),
    decreases ys.len(),
{
    if ys.len() == 0 {
        assert(xs + ys =~= xs);
    } else {
        assert((xs + ys).drop_last() =~= xs + ys.drop_last());
        assert((xs + ys).last() == ys.last());
        lemma_slide_all_concat(h, xs, ys.drop_last());
    }
}

/// Sliding samples into a history of at most 60 keeps the last 60 of the history followed
/// by the samples: oldest first, the oldest evicted first.
pub proof fn lemma_slide_all_keeps_last(h: Seq<u64>, xs: Seq<u64>)
    requires
        h.len() <= MAX_SPEED_HISTORY,
    ensures
        slide_all(h, xs) == last_n(h + xs, MAX_SPEED_HISTORY as nat),
    decreases xs.len(),
{
    if xs.len() == 0 {
        assert(h + xs =~= h);
    } else {
        lemma_slide_all_keeps_last(h, xs.drop_last());
        let y = h + xs.drop_last();
        let x = xs.last();
        assert((h + xs) =~= y.push(x));
        if y.len() <= MAX_SPEED_HISTORY {
            if y.push(x).len() > MAX_SPEED_HISTORY {
                assert(y.push(x).drop_first() =~= y.push(x).subrange(1, y.push(x).len() as int));
            }
        } else {
            let l = last_n(y, MAX_SPEED_HISTORY as nat);
            assert(l.push(x).drop_first() =~= y.push(x).subrange(y.push(x).len() - 60, y.push(x).len() as int));
        }
    }
}

/// One merge extends what a partition has done so far: sources stay, histories slide.
proof fn lemma_merge_step_slides(
    start: Seq<Download>,
    before: Seq<Download>,
    after: Seq<Download>,
    tomb: Set<Seq<char>>,
    prev: Seq<Aria2Status>,
    st: Aria2Status,
)
    requires
        reconciled(start, before, tomb, prev),
        merged(before, after, tomb, st),
        table_wf(after, tomb),
    ensures
        sources_kept(start, after),
        histories_slid(start, after, prev.push(st)),
{
    let done = prev.push(st);
    lemma_merged_keeps_ids(before, after, tomb, st);
    assert(done.drop_last() =~= prev);
    assert(done.last() == st);
    assert forall|i: int| 0 <= i < start.len() implies opt_view((#[trigger] after[i]).url) == opt_view(start[i].url)
        && after[i].download_type == start[i].download_type by {
        if !tomb.contains(st.gid@) && has_id(before, st.gid@) && id_of(before[i]) == st.gid@ {
            assert(refreshed(after[i], before[i], st));
        }
    }
    assert forall|i: int, upload: bool| 0 <= i < after.len() implies #[trigger] history_of(after[i], upload)
        == slide_all(origin_history(start, i, upload), reported_rates(done, id_of(after[i]), upload)) by {
        let id = id_of(after[i]);
        let o = origin_history(start, i, upload);
        if id == st.gid@ {
            assert(!tomb.contains(id));
            let rp = reported_rates(prev, id, upload);
            let x = rate_of(st, upload);
            assert(reported_rates(done, id, upload) == rp.push(x));
            assert(rp.push(x).drop_last() =~= rp);
            if has_id(before, id) {
                assert(i < before.len());
                assert(refreshed(after[i], before[i], st));
                assert(history_of(before[i], upload) == slide_all(o, rp));
            } else {
                if i < before.len() {
                    assert(after[i] == before[i]);
                    assert(has_id(before, id));
                }
                assert(i == before.len());
                assert(i >= start.len());
                if reported(prev, id) {
                    let k = choose|k: int| 0 <= k < prev.len() && (#[trigger] prev[k]).gid@ == id;
                    assert(has_id(before, prev[k].gid@));
                }
                lemma_rates_empty(prev, id, upload);
                assert(slide_all(o, Seq::<u64>::empty().push(x)) == slide(slide_all(o, Seq::<u64>::empty()), x));
                assert(Seq::<u64>::empty().push(x).drop_last() =~= Seq::<u64>::empty());
                assert(discovered(after[i], st));
                assert(slide(Seq::<u64>::empty(), x) =~= seq![x]);
            }
        } else {
            assert(reported_rates(done, id, upload) == reported_rates(prev, id, upload));
            if i < before.len() {
                assert(after[i] == before[i]);
            } else {
                assert(!tomb.contains(st.gid@) && !has_id(before, st.gid@));
                assert(id_of(after[before.len() as int]) == st.gid@);
                assert(i == before.len());
            }
        }
    }
}

proof fn lemma_last_report_some(sts: Seq<Aria2Status>, id: Seq<char>)
    ensures
        last_report(sts, id) is Some <==> reported(sts, id),
    decreases sts.len(),
{
    if sts.len() > 0 {
        lemma_last_report_some(sts.drop_last(), id);
        if reported(sts, id) && sts.last().gid@ != id {
            let k = choose|k: int| 0 <= k < sts.len() && (#[trigger] sts[k]).gid@ == id;
            assert(sts.drop_last()[k] == sts[k]);
        }
        if reported(sts.drop_last(), id) {
            let k = choose|k: int| 0 <= k < sts.len() - 1 && (#[trigger] sts.drop_last()[k]).gid@ == id;
            assert(sts[k] == sts.drop_last()[k]);
        }
    }
}

proof fn lemma_last_report_concat(a: Seq<Aria2Status>, b: Seq<Aria2Status>, id: Seq<char>)
    ensures
        last_report(a + b, id) == match last_report(b, id) {
            Some(st) => Some(st),
            None => last_report(a, id),
        },
    decreases b.len(),
{
    if b.len() == 0 {
        assert(a + b =~= a);
    } else {
        assert((a + b).drop_last() =~= a + b.drop_last());
        assert((a + b).last() == b.last());
        lemma_last_report_concat(a, b.drop_last(), id);
    }
}

proof fn lemma_reconciled_chain(
    t0: Seq<Download>,
    t1: Seq<Download>,
    t2: Seq<Download>,
    tomb: Set<Seq<char>>,
    a: Seq<Aria2Status>,
    b: Seq<Aria2Status>,
)
    requires
        reconciled(t0, t1, tomb, a),
        reconciled(t1, t2, tomb, b),
        table_wf(t2, tomb),
    ensures
        reconciled(t0, t2, tomb, a + b),
{
    let ab = a + b;
    assert forall|id: Seq<char>| reported(a, id) || reported(b, id) implies #[trigger] reported(ab, id) by {
        if reported(a, id) {
            let k = choose|k: int| 0 <= k < a.len() && (#[trigger] a[k]).gid@ == id;
            assert(ab[k] == a[k]);
        } else {
            let k = choose|k: int| 0 <= k < b.len() && (#[trigger] b[k]).gid@ == id;
            assert(ab[a.len() + k] == b[k]);
        }
    }
    assert forall|id: Seq<char>| #[trigger] reported(ab, id) implies reported(a, id) || reported(b, id) by {
        let k = choose|k: int| 0 <= k < ab.len() && (#[trigger] ab[k]).gid@ == id;
        if k < a.len() {
            assert(ab[k] == a[k]);
        } else {
            assert(ab[k] == b[k - a.len()]);
        }
    }
    assert forall|i: int| 0 <= i < t0.len() implies id_of(#[trigger] t2[i]) == id_of(t0[i]) by {
        assert(id_of(t1[i]) == id_of(t0[i]));
    }
    assert forall|i: int| 0 <= i < t0.len() && !reported(ab, id_of(t0[i])) implies #[trigger] t2[i] == t0[i] by {
        assert(!reported(a, id_of(t0[i])));
        assert(id_of(t1[i]) == id_of(t0[i]));
        assert(!reported(b, id_of(t1[i])));
    }
    assert forall|k: int| 0 <= k < ab.len() && !tomb.contains((#[trigger] ab[k]).gid@) implies has_id(t2, ab[k].gid@) by {
        if k < a.len() {
            assert(ab[k] == a[k]);
            assert(has_id(t1, a[k].gid@));
            let q = choose|q: int| 0 <= q < t1.len() && id_of(#[trigger] t1[q]) == a[k].gid@;
            assert(id_of(t2[q]) == id_of(t1[q]));
        } else {
            assert(ab[k] == b[k - a.len()]);
        }
    }
    assert forall|id: Seq<char>| #[trigger] has_id(t2, id) implies has_id(t0, id) || reported(ab, id) by {
        if has_id(t1, id) {
            if !has_id(t0, id) {
                assert(reported(a, id));
            }
        } else {
            assert(reported(b, id));
        }
    }
    assert forall|i: int| 0 <= i < t2.len() implies match last_report(ab, id_of(#[trigger] t2[i])) {
        Some(x) => observed(t2[i], x),
        None => true,
    } by {
        let id = id_of(t2[i]);
        lemma_last_report_concat(a, b, id);
        lemma_last_report_some(b, id);
        if last_report(b, id) is None && i < t1.len() {
            assert(id_of(t1[i]) == id);
            assert(t2[i] == t1[i]);
        } else if last_report(b, id) is None {
            assert(has_id(t2, id));
            assert(false) by {
                assert(has_id(t1, id) || reported(b, id));
                if has_id(t1, id) {
                    let q = choose|q: int| 0 <= q < t1.len() && id_of(#[trigger] t1[q]) == id;
                    assert(id_of(t2[q]) == id);
                    assert(q != i);
                    assert(id_of(t2[q]) != id_of(t2[i]));
                }
            }
        }
    }
    assert forall|i: int| 0 <= i < t0.len() implies opt_view((#[trigger] t2[i]).url) == opt_view(t0[i].url)
        && t2[i].download_type == t0[i].download_type by {
        assert(opt_view(t1[i].url) == opt_view(t0[i].url));
    }
    assert forall|i: int, upload: bool| 0 <= i < t2.len() implies #[trigger] history_of(t2[i], upload)
        == slide_all(origin_history(t0, i, upload), reported_rates(ab, id_of(t2[i]), upload)) by {
        let id = id_of(t2[i]);
        lemma_rates_concat(a, b, id, upload);
        let ra = reported_rates(a, id, upload);
        let rb = reported_rates(b, id, upload);
        if i < t1.len() {
            assert(id_of(t1[i]) == id);
            assert(history_of(t1[i], upload) == slide_all(origin_history(t0, i, upload), ra));
            assert(history_of(t2[i], upload) == slide_all(history_of(t1[i], upload), rb));
            lemma_slide_all_concat(origin_history(t0, i, upload), ra, rb);
        } else {
            if reported(a, id) {
                let k = choose|k: int| 0 <= k < a.len() && (#[trigger] a[k]).gid@ == id;
                assert(!tomb.contains(id));
                assert(has_id(t1, a[k].gid@));
                let q = choose|q: int| 0 <= q < t1.len() && id_of(#[trigger] t1[q]) == id;
                assert(id_of(t2[q]) == id);
                assert(id_of(t2[q]) != id_of(t2[i]));
            }
            lemma_rates_empty(a, id, upload);
            assert(ra + rb =~= rb);
        }
    }
}

/// The value of a hexadecimal digit.
pub open spec fn hex_value(c: char) -> Option<nat> {
    if '0' <= c && c <= '9' {
        Some((c as u32 - '0' as u32) as nat)
    } else if 'a' <= c && c <= 'f' {
        Some((c as u32 - 'a' as u32 + 10) as nat)
    } else if 'A' <= c && c <= 'F' {
        Some((c as u32 - 'A' as u32 + 10) as nat)
    } else {
        None
    }
}

/// The byte two hexadecimal digits stand for.
pub open spec fn hex_pair(a: char, b: char) -> Option<nat> {
    match (hex_value(a), hex_value(b)) {
        (Some(x), Some(y)) => Some(16 * x + y),
        _ => None,
    }
}

/// Percent-decoding: "%XY" with two hex digits becomes the character of that byte, a '%'
/// without them stays as written together with the (at most two) characters after it,
/// and '+' becomes a space.
pub open spec fn decoded(s: Seq<char>) -> Seq<char>
    decreases s.len(),
{
    if s.len() == 0 {
        Seq::empty()
    } else if s[0] == '%' {
        if s.len() >= 3 && hex_pair(s[1], s[2]) is Some {
            seq![((hex_pair(s[1], s[2])->0) as u8) as char] + decoded(s.subrange(3, s.len() as int))
        } else {
            let k: int = if s.len() >= 3 { 3 } else { s.len() as int };
            s.subrange(0, k) + decoded(s.subrange(k, s.len() as int))
        }
    } else if s[0] == '+' {
        seq![' '] + decoded(s.drop_first())
    } else {
        seq![s[0]] + decoded(s.drop_first())
    }
}

/// The display name an added source gives: for a magnet link the decoded `dn=` value
/// (up to the next '&'), or "Magnet Download" without one; otherwise the last path
/// component before any query, or "Unknown" when that is empty.
pub open spec fn filename_of(input: Seq<char>) -> Seq<char> {
    if starts_with(input, "magnet:"@) {
        match first_occurrence(input, "dn="@) {
            Some(k) => decoded(before_first(input.subrange(k + 3, input.len() as int), '&')),
            None => "Magnet Download"@,
        }
    } else {
        let f = after_last(before_first(input, '?'), '/');
        if f.len() == 0 {
            "Unknown"@
        } else {
            f
        }
    }
}

/// The kind of transfer an added source makes: magnet links and `.torrent` files are
/// torrents, `.metalink` and `.meta4` files metalinks, anything else a plain URL.
pub open spec fn kind_of(input: Seq<char>) -> DownloadType {
    if starts_with(input, "magnet:"@) || ends_with(input, ".torrent"@) {
        DownloadType::Torrent
    } else if ends_with(input, ".metalink"@) || ends_with(input, ".meta4"@) {
        DownloadType::Metalink
    } else {
        DownloadType::Http
    }
}

/// Which daemon call submits a source.
#[derive(Clone, Copy, Debug, PartialEq, Eq, Structural)]
pub enum SubmitKind {
    /// add-by-URI, with the source as its one URI.
    Uri,
    /// add-by-torrent-blob, with the file's bytes.
    Torrent,
    /// add-by-metalink-blob, with the file's bytes.
    Metalink,
}

/// The call for a source: magnet links go by URI, `.torrent` and `.metalink`/`.meta4`
/// files as blobs, anything else by URI.
pub open spec fn submit_kind_of(input: Seq<char>) -> SubmitKind {
    if starts_with(input, "magnet:"@) {
        SubmitKind::Uri
    } else if ends_with(input, ".torrent"@) {
        SubmitKind::Torrent
    } else if ends_with(input, ".metalink"@) || ends_with(input, ".meta4"@) {
        SubmitKind::Metalink
    } else {
        SubmitKind::Uri
    }
}

fn hex_digit(c: char) -> (r: Option<u32>)
    ensures
        match hex_value(c) {
            Some(v) => r == Some(v as u32),
            None => r is None,
        },
{
    if '0' <= c && c <= '9' {
        Some(c as u32 - '0' as u32)
    } else if 'a' <= c && c <= 'f' {
        Some(c as u32 - 'a' as u32 + 10)
    } else if 'A' <= c && c <= 'F' {
        Some(c as u32 - 'A' as u32 + 10)
    } else {
        None
    }
}

fn hex_pair_exec(a: char, b: char) -> (r: Option<u32>)
    ensures
        match hex_pair(a, b) {
            Some(v) => r == Some(v as u32) && v < 256,
            None => r is None,
        },
{
    match (hex_digit(a), hex_digit(b)) {
        (Some(x), Some(y)) => Some(16 * x + y),
        _ => None,
    }
}

/// Percent-decodes the characters of `v`.
fn decode_chars(v: &Vec<char>) -> (r: String)
    ensures
        r@ == decoded(v@),
{
    let n = v.len();
    let mut out = String::new();
    let mut i: usize = 0;
    assert(v@.subrange(0, n as int) =~= v@);
    while i < n
        invariant
            n == v@.len(),
            i <= n,
            decoded(v@) == out@ + decoded(v@.subrange(i as int, n as int)),
        decreases n - i,
    {
        let ghost rest = v@.subrange(i as int, n as int);
        let c = v[i];
        if c == '%' {
            let pair = if n - i > 2 { hex_pair_exec(v[i + 1], v[i + 2]) } else { None };
            match pair {
                Some(b) => {
                    let ghost out0 = out@;
                    push_char(&mut out, (b as u8) as char);
                    assert(rest.subrange(3, rest.len() as int) =~= v@.subrange(i + 3, n as int));
                    let ghost tail = decoded(v@.subrange(i + 3, n as int));
                    assert(out0 + (seq![(b as u8) as char] + tail) =~= out@ + tail);
                    i += 3;
                },
                None => {
                    let k: usize = if n - i > 2 { 3 } else { n - i };
                    let mut j: usize = 0;
                    let ghost out0 = out@;
                    while j < k
                        invariant
                            n == v@.len(),
                            i + k <= n,
                            j <= k,
                            out@ == out0 + v@.subrange(i as int, i + j),
                        decreases k - j,
                    {
                        push_char(&mut out, v[i + j]);
                        assert(v@.subrange(i as int, i + j + 1) =~= v@.subrange(i as int, i + j).push(v@[i + j]));
                        j += 1;
                    }
                    assert(rest.subrange(0, k as int) =~= v@.subrange(i as int, i + k));
                    assert(rest.subrange(k as int, rest.len() as int) =~= v@.subrange(i + k, n as int));
                    let ghost tail = decoded(v@.subrange(i + k, n as int));
                    assert(out0 + (v@.subrange(i as int, i + k) + tail) =~= out@ + tail);
                    i += k;
                },
            }
        } else {
            let ghost out0 = out@;
            let d = if c == '+' { ' ' } else { c };
            push_char(&mut out, d);
            assert(rest.drop_first() =~= v@.subrange(i + 1, n as int));
            let ghost tail = decoded(v@.subrange(i + 1, n as int));
            assert(out0 + (seq![d] + tail) =~= out@ + tail);
            i += 1;
        }
    }
    assert(v@.subrange(n as int, n as int) =~= Seq::<char>::empty());
    assert(decoded(Seq::<char>::empty()) == Seq::<char>::empty());
    assert(out@ + Seq::<char>::empty() =~= out@);
    out
}

/// Percent-decoding of a URL component; `+` stands for a space.
pub fn decode(s: &str) -> (r: Result<String, ()>)
    ensures
        r matches Ok(t) && t@ == decoded(s@),
{
    let v = chars_of(s);
    Ok(decode_chars(&v))
}

/// The display name for an added source (see [`filename_of`]).
pub fn extract_filename(input: &str) -> (r: String)
    ensures
        r@ == filename_of(input@),
{
    let v = chars_of(input);
    let n = v.len();
    if has_prefix(input, "magnet:") {
        let dn = chars_of("dn=");
        proof {
            reveal_strlit("dn=");
        }
        match find_seq(&v, &dn) {
            Some(k) => {
                let rest = subvec(&v, k + dn.len(), n);
                let end = before_first_end(&rest, '&');
                let part = subvec(&rest, 0, end);
                return decode_chars(&part);
            },
            None => {
                return String::from_str("Magnet Download");
            },
        }
    }
    let q = before_first_end(&v, '?');
    let path = subvec(&v, 0, q);
    let start = after_last_start(&path, '/');
    if start == path.len() {
        assert(path@.subrange(start as int, path@.len() as int) =~= Seq::<char>::empty());
        String::from_str("Unknown")
    } else {
        string_of_range(&path, start, path.len())
    }
}

/// The kind of transfer an added source makes (see [`kind_of`]).
pub fn download_type_for(input: &str) -> (r: DownloadType)
    ensures
        r == kind_of(input@),
{
    if has_prefix(input, "magnet:") || has_suffix(input, ".torrent") {
        DownloadType::Torrent
    } else if has_suffix(input, ".metalink") || has_suffix(input, ".meta4") {
        DownloadType::Metalink
    } else {
        DownloadType::Http
    }
}

/// The daemon call that submits a source (see [`submit_kind_of`]).
pub fn submit_kind(input: &str) -> (r: SubmitKind)
    ensures
        r == submit_kind_of(input@),
{
    if has_prefix(input, "magnet:") {
        SubmitKind::Uri
    } else if has_suffix(input, ".torrent") {
        SubmitKind::Torrent
    } else if has_suffix(input, ".metalink") || has_suffix(input, ".meta4") {
        SubmitKind::Metalink
    } else {
        SubmitKind::Uri
    }
}

/// `e` is the provisional entry for a source just submitted under id `gid`:
/// zero progress, waiting, no samples yet, and the source recorded for retry.
pub open spec fn added_entry(e: Download, input: Seq<char>, gid: Seq<char>) -> bool {
    &&& opt_view(e.gid) == Some(gid)
    &&& opt_view(e.url) == Some(input)
    &&& e.name@ == filename_of(input)
    &&& e.download_type == kind_of(input)
    &&& e.status@ == "WAITING"@
    &&& e.speed@ == "0 B/s"@
    &&& e.upload_speed@ == "0 B/s"@
    &&& e.total_length == 0
    &&& e.completed_length == 0
    &&& e.speed_history@.len() == 0
    &&& e.upload_speed_history@.len() == 0
    &&& e.connections == 0
    &&& e.file_path is None
    &&& e.error_message is None
    &&& e.seeds == 0
    &&& e.peers == 0
    &&& e.bitfield is None
    &&& e.num_pieces == 0
}

/// The table after recording an added source under `gid`: the entry of that id replaced,
/// or the new entry appended.
pub open spec fn added(before: Seq<Download>, after: Seq<Download>, input: Seq<char>, gid: Seq<char>) -> bool {
    if has_id(before, gid) {
        &&& after.len() == before.len()
        &&& forall|i: int|
            0 <= i < before.len() ==> if id_of(#[trigger] before[i]) == gid {
                added_entry(after[i], input, gid)
            } else {
                after[i] == before[i]
            }
    } else {
        &&& after.len() == before.len() + 1
        &&& after.subrange(0, before.len() as int) == before
        &&& added_entry(after.last(), input, gid)
    }
}

/// The table after removing the entry with id `id`, if there is one.
pub open spec fn removed(before: Seq<Download>, after: Seq<Download>, id: Seq<char>) -> bool {
    if has_id(before, id) {
        exists|i: int| 0 <= i < before.len() && id_of(#[trigger] before[i]) == id && after == before.remove(i)
    } else {
        after == before
    }
}

/// The entry with id `id` (meaningful when there is one).
pub open spec fn entry_of(t: Seq<Download>, id: Seq<char>) -> Download {
    t[choose|i: int| 0 <= i < t.len() && id_of(#[trigger] t[i]) == id]
}

proof fn lemma_entry_of(t: Seq<Download>, tomb: Set<Seq<char>>, i: int)
    requires
        table_wf(t, tomb),
        0 <= i < t.len(),
    ensures
        entry_of(t, id_of(t[i])) == t[i],
{
    let id = id_of(t[i]);
    assert(has_id(t, id));
    let j = choose|j: int| 0 <= j < t.len() && id_of(#[trigger] t[j]) == id;
    if j != i {
        assert(id_of(t[j]) != id_of(t[i]));
    }
}

/// Replacing an entry by one of the same id keeps the invariant.
proof fn lemma_update_keeps_wf(t: Seq<Download>, tomb: Set<Seq<char>>, i: int, e: Download)
    requires
        table_wf(t, tomb),
        0 <= i < t.len(),
        e.gid is Some,
        id_of(e) == id_of(t[i]),
        e.speed_history@.len() <= MAX_SPEED_HISTORY,
        e.upload_speed_history@.len() <= MAX_SPEED_HISTORY,
    ensures
        table_wf(t.update(i, e), tomb),
{
    let u = t.update(i, e);
    assert forall|a: int, b: int| 0 <= a < u.len() && 0 <= b < u.len() && a != b
        implies id_of(#[trigger] u[a]) != id_of(#[trigger] u[b]) by {
        assert(id_of(u[a]) == id_of(t[a]));
        assert(id_of(u[b]) == id_of(t[b]));
    }
    assert forall|k: int| 0 <= k < u.len() implies !tomb.contains(id_of(#[trigger] u[k])) by {
        assert(id_of(u[k]) == id_of(t[k]));
    }
    assert forall|k: int| 0 <= k < u.len() implies (#[trigger] u[k]).gid is Some by {
        assert(t[k].gid is Some);
    }
    assert forall|k: int| 0 <= k < u.len() implies (#[trigger] u[k]).speed_history@.len() <= MAX_SPEED_HISTORY
        && u[k].upload_speed_history@.len() <= MAX_SPEED_HISTORY by {
        assert(t[k].speed_history@.len() <= MAX_SPEED_HISTORY);
    }
}

/// Appending an entry of a new, untombstoned id keeps the invariant.
proof fn lemma_push_keeps_wf(t: Seq<Download>, tomb: Set<Seq<char>>, e: Download)
    requires
        table_wf(t, tomb),
        e.gid is Some,
        !has_id(t, id_of(e)),
        !tomb.contains(id_of(e)),
        e.speed_history@.len() <= MAX_SPEED_HISTORY,
        e.upload_speed_history@.len() <= MAX_SPEED_HISTORY,
    ensures
        table_wf(t.push(e), tomb),
{
    let u = t.push(e);
    assert forall|a: int, b: int| 0 <= a < u.len() && 0 <= b < u.len() && a != b
        implies id_of(#[trigger] u[a]) != id_of(#[trigger] u[b]) by {
        if a < t.len() && b < t.len() {
            assert(id_of(t[a]) != id_of(t[b]));
        } else if a < t.len() {
            assert(u[a] == t[a]);
        } else {
            assert(u[b] == t[b]);
        }
    }
    assert forall|k: int| 0 <= k < u.len() implies !tomb.contains(id_of(#[trigger] u[k])) by {
        if k < t.len() {
            assert(u[k] == t[k]);
        }
    }
    assert forall|k: int| 0 <= k < u.len() implies (#[trigger] u[k]).gid is Some by {
        if k < t.len() {
            assert(u[k] == t[k]);
        }
    }
    assert forall|k: int| 0 <= k < u.len() implies (#[trigger] u[k]).speed_history@.len() <= MAX_SPEED_HISTORY
        && u[k].upload_speed_history@.len() <= MAX_SPEED_HISTORY by {
        if k < t.len() {
            assert(u[k] == t[k]);
        }
    }
}

/// Removing an entry keeps the invariant, also with its id added to the tombstones.
proof fn lemma_remove_keeps_wf(t: Seq<Download>, tomb: Set<Seq<char>>, i: int)
    requires
        table_wf(t, tomb),
        0 <= i < t.len(),
    ensures
        table_wf(t.remove(i), tomb.insert(id_of(t[i]))),
        !has_id(t.remove(i), id_of(t[i])),
{
    let u = t.remove(i);
    let id = id_of(t[i]);
    assert forall|k: int| 0 <= k < u.len() implies #[trigger] u[k] == t[if k < i { k } else { k + 1 }] by {}
    assert forall|a: int, b: int| 0 <= a < u.len() && 0 <= b < u.len() && a != b
        implies id_of(#[trigger] u[a]) != id_of(#[trigger] u[b]) by {
        let a2 = if a < i { a } else { a + 1 };
        let b2 = if b < i { b } else { b + 1 };
        assert(id_of(t[a2]) != id_of(t[b2]));
    }
    assert forall|k: int| 0 <= k < u.len() implies !tomb.insert(id).contains(id_of(#[trigger] u[k])) by {
        let k2 = if k < i { k } else { k + 1 };
        assert(id_of(t[k2]) != id_of(t[i]));
        assert(!tomb.contains(id_of(t[k2])));
    }
    assert forall|k: int| 0 <= k < u.len() implies (#[trigger] u[k]).gid is Some by {
        let k2 = if k < i { k } else { k + 1 };
        assert(t[k2].gid is Some);
    }
    assert forall|k: int| 0 <= k < u.len() implies (#[trigger] u[k]).speed_history@.len() <= MAX_SPEED_HISTORY
        && u[k].upload_speed_history@.len() <= MAX_SPEED_HISTORY by {
        let k2 = if k < i { k } else { k + 1 };
        assert(t[k2].speed_history@.len() <= MAX_SPEED_HISTORY);
    }
    if has_id(u, id) {
        let k = choose|k: int| 0 <= k < u.len() && id_of(#[trigger] u[k]) == id;
        let k2 = if k < i { k } else { k + 1 };
        assert(id_of(t[k2]) != id_of(t[i]));
    }
}

/// Which entries an accessor hands out.
#[derive(Clone, Copy, Debug, PartialEq, Eq, Structural)]
pub enum Selection {
    All,
    /// Part-way through: some bytes done, not all.
    Active,
    /// Waiting, or with nothing done yet.
    Queued,
    /// All bytes done, or reported complete.
    Completed,
}

/// Whether an entry belongs to a selection; progress is judged by its byte counts.
pub open spec fn selected(which: Selection, d: Download) -> bool {
    let (done, total) = progress_of(d);
    match which {
        Selection::All => true,
        Selection::Active => 0 < done && done < total,
        Selection::Queued => d.status@ == "WAITING"@ || done == 0,
        Selection::Completed => done >= total || d.status@ == "COMPLETE"@,
    }
}

fn is_selected(which: Selection, d: &Download) -> (r: bool)
    ensures
        r == selected(which, *d),
{
    let (done, total) = d.progress();
    match which {
        Selection::All => true,
        Selection::Active => 0 < done && done < total,
        Selection::Queued => str_eq(d.status.as_str(), "WAITING") || done == 0,
        Selection::Completed => done >= total || str_eq(d.status.as_str(), "COMPLETE"),
    }
}

/// What a deletion reports: the file's removal, or why it failed; an entry without a
/// known file is reported as removed from the list only. The entry is gone either way.
pub open spec fn deletion_text(name: Seq<char>, fs_result: Option<Result<(), Seq<char>>>) -> Result<Seq<char>, Seq<char>> {
    match fs_result {
        None => Ok("Removed from list: "@ + name + " (file not found)"@),
        Some(Ok(())) => Ok("Deleted file: "@ + name),
        Some(Err(e)) => Err("Failed to delete file "@ + name + ": "@ + e),
    }
}

/// The message for a deletion, given the outcome of removing the file (`None` when the
/// entry had no file path).
pub fn deletion_report(name: &str, fs_result: Option<Result<(), String>>) -> (r: Result<String, String>)
    ensures
        match (r, fs_result) {
            (Ok(m), None) => deletion_text(name@, None) == Ok::<Seq<char>, Seq<char>>(m@),
            (Ok(m), Some(Ok(()))) => deletion_text(name@, Some(Ok(()))) == Ok::<Seq<char>, Seq<char>>(m@),
            (Err(m), Some(Err(e))) => deletion_text(name@, Some(Err(e@))) == Err::<Seq<char>, Seq<char>>(m@),
            _ => false,
        },
{
    let mut m = String::new();
    match fs_result {
        None => {
            push_str(&mut m, "Removed from list: ");
            push_str(&mut m, name);
            push_str(&mut m, " (file not found)");
            Ok(m)
        },
        Some(Ok(())) => {
            push_str(&mut m, "Deleted file: ");
            push_str(&mut m, name);
            Ok(m)
        },
        Some(Err(e)) => {
            push_str(&mut m, "Failed to delete file ");
            push_str(&mut m, name);
            push_str(&mut m, ": ");
            push_str(&mut m, e.as_str());
            Err(m)
        },
    }
}

/// Tombstone race-freedom, removal first: once `remove_download(id)` has run, a
/// reconciliation pass that still reports `id` leaves it out of the table.
pub proof fn lemma_remove_then_reconcile(
    m0: DownloadManager,
    m1: DownloadManager,
    m2: DownloadManager,
    id: Seq<char>,
    reports: Seq<Aria2Status>,
)
    requires
        m0.wf(),
        m1.wf(),
        m1.tombstones() == m0.tombstones().insert(id),
        removed(m0.table(), m1.table(), id),
        m2.wf(),
        m2.tombstones() == m1.tombstones(),
        reconciled(m1.table(), m2.table(), m1.tombstones(), reports),
    ensures
        !has_id(m2.table(), id),
{
    if has_id(m2.table(), id) {
        let i = choose|i: int| 0 <= i < m2.table().len() && id_of(#[trigger] m2.table()[i]) == id;
        assert(!m2.tombstones().contains(id_of(m2.table()[i])));
    }
}

/// Tombstone race-freedom, reconciliation first: a pass that reported `id` and ran
/// before `remove_download(id)` does not keep it in the table, nor does any later pass.
pub proof fn lemma_reconcile_then_remove(
    m0: DownloadManager,
    m1: DownloadManager,
    m2: DownloadManager,
    m3: DownloadManager,
    id: Seq<char>,
    earlier: Seq<Aria2Status>,
    later: Seq<Aria2Status>,
)
    requires
        m0.wf(),
        m1.wf(),
        m1.tombstones() == m0.tombstones(),
        reconciled(m0.table(), m1.table(), m0.tombstones(), earlier),
        m2.wf(),
        m2.tombstones() == m1.tombstones().insert(id),
        removed(m1.table(), m2.table(), id),
        m3.wf(),
        m3.tombstones() == m2.tombstones(),
        reconciled(m2.table(), m3.table(), m2.tombstones(), later),
    ensures
        !has_id(m2.table(), id),
        !has_id(m3.table(), id),
{
    if has_id(m2.table(), id) {
        let i = choose|i: int| 0 <= i < m2.table().len() && id_of(#[trigger] m2.table()[i]) == id;
        assert(!m2.tombstones().contains(id_of(m2.table()[i])));
    }
    lemma_remove_then_reconcile(m1, m2, m3, id, later);
}

/// Rate histories after any reconciliation: each history of an entry is the history it
/// had before the pass (none for a new entry) followed by every rate the pass reported for
/// it, of which the last 60 are kept: oldest first, newest last, the oldest evicted first.
pub proof fn lemma_history_window(m0: DownloadManager, m1: DownloadManager, reports: Seq<Aria2Status>)
    requires
        m0.wf(),
        m1.wf(),
        reconciled(m0.table(), m1.table(), m0.tombstones(), reports),
    ensures
        forall|i: int, upload: bool|
            0 <= i < m1.table().len() ==> #[trigger] history_of(m1.table()[i], upload) == last_n(
                origin_history(m0.table(), i, upload) + reported_rates(reports, id_of(m1.table()[i]), upload),
                MAX_SPEED_HISTORY as nat,
            ) && history_of(m1.table()[i], upload).len() <= MAX_SPEED_HISTORY,
{
    assert forall|i: int, upload: bool| 0 <= i < m1.table().len() implies #[trigger] history_of(m1.table()[i], upload)
        == last_n(
        origin_history(m0.table(), i, upload) + reported_rates(reports, id_of(m1.table()[i]), upload),
        MAX_SPEED_HISTORY as nat,
    ) && history_of(m1.table()[i], upload).len() <= MAX_SPEED_HISTORY by {
        let o = origin_history(m0.table(), i, upload);
        if i < m0.table().len() {
            assert(m0.table()[i].speed_history@.len() <= MAX_SPEED_HISTORY);
        }
        lemma_slide_all_keeps_last(o, reported_rates(reports, id_of(m1.table()[i]), upload));
        assert(m1.table()[i].speed_history@.len() <= MAX_SPEED_HISTORY);
    }
}

/// The progress a snapshot reports the grounds for: completed over total bytes, or 0
/// over 1 while the total is 0.
pub open spec fn reported_progress(st: Aria2Status) -> (nat, nat) {
    if u64_or_zero(st.total_length@) > 0 {
        (u64_or_zero(st.completed_length@) as nat, u64_or_zero(st.total_length@) as nat)
    } else {
        (0nat, 1nat)
    }
}

/// Progress is derived, never copied: after a reconciliation pass, an entry that the pass
/// reported holds the byte counts of the last snapshot of its id, so its progress is that
/// snapshot's completed over total bytes, or 0 while the total is 0.
pub proof fn lemma_progress_derived(m0: DownloadManager, m1: DownloadManager, reports: Seq<Aria2Status>, i: int)
    requires
        reconciled(m0.table(), m1.table(), m0.tombstones(), reports),
        0 <= i < m1.table().len(),
        last_report(reports, id_of(m1.table()[i])) is Some,
    ensures
        progress_of(m1.table()[i]) == reported_progress(last_report(reports, id_of(m1.table()[i]))->0),
{
    let d = m1.table()[i];
    assert(observed(d, last_report(reports, id_of(d))->0));
}

/// Retry makes a new entry: after `retry_download(old_id)` handed back the source and the
/// source, submitted again, was recorded by `add_download` under `new_id`, the new id
/// differs from the old one and its entry has zero progress and the same source.
pub proof fn lemma_retry_fresh_entry(
    m0: DownloadManager,
    m1: DownloadManager,
    m2: DownloadManager,
    old_id: Seq<char>,
    new_id: Seq<char>,
    src: Seq<char>,
)
    requires
        m0.wf(),
        has_id(m0.table(), old_id),
        opt_view(entry_of(m0.table(), old_id).url) == Some(src),
        m1.tombstones() == m0.tombstones().insert(old_id),
        removed(m0.table(), m1.table(), old_id),
        !m1.tombstones().contains(new_id),
        added(m1.table(), m2.table(), src, new_id),
    ensures
        new_id != old_id,
        has_id(m2.table(), new_id),
        forall|i: int|
            0 <= i < m2.table().len() && id_of(#[trigger] m2.table()[i]) == new_id ==> progress_of(m2.table()[i])
                == (0nat, 1nat) && opt_view(m2.table()[i].url) == Some(src),
{
    let t1 = m1.table();
    let t2 = m2.table();
    if has_id(t1, new_id) {
        let k = choose|k: int| 0 <= k < t1.len() && id_of(#[trigger] t1[k]) == new_id;
        assert(id_of(t2[k]) == new_id);
        assert forall|i: int| 0 <= i < t2.len() && id_of(#[trigger] t2[i]) == new_id implies progress_of(t2[i])
            == (0nat, 1nat) && opt_view(t2[i].url) == Some(src) by {
            if id_of(t1[i]) != new_id {
                assert(t2[i] == t1[i]);
            }
        }
    } else {
        assert(id_of(t2[t1.len() as int]) == new_id);
        assert forall|i: int| 0 <= i < t2.len() && id_of(#[trigger] t2[i]) == new_id implies progress_of(t2[i])
            == (0nat, 1nat) && opt_view(t2[i].url) == Some(src) by {
            if i < t1.len() {
                assert(t2.subrange(0, t1.len() as int)[i] == t2[i]);
                assert(has_id(t1, new_id));
            }
        }
    }
}

/// Why an operation on one entry could not be carried out.
#[derive(Clone, Copy, Debug, PartialEq, Eq, Structural)]
pub enum DownloadError {
    /// No entry has the id.
    NotFound,
    /// The entry was discovered from the daemon and has no recorded source to retry.
    NoUrlAvailable,
}

/// The canonical table of transfers, the ids removed by the user, and the statistics
/// of the last reconciliation pass.
pub struct DownloadManager {
    downloads: Vec<Download>,
    deleted_gids: Vec<String>,
    global_stats: GlobalStats,
}

impl DownloadManager {
    /// The entries, in the order they entered the table.
    pub closed spec fn table(&self) -> Seq<Download> {
        self.downloads@
    }

    /// The ids removed by the user; none of them can enter the table again.
    pub closed spec fn tombstones(&self) -> Set<Seq<char>> {
        Set::new(|id: Seq<char>| exists|i: int| 0 <= i < self.deleted_gids@.len() && (#[trigger] self.deleted_gids@[i])@ == id)
    }

    /// The statistics as last computed.
    pub closed spec fn stats(&self) -> GlobalStats {
        self.global_stats
    }

    pub open spec fn wf(&self) -> bool {
        table_wf(self.table(), self.tombstones())
    }

    /// An empty table with no tombstones.
    pub fn new() -> (r: Self)
        ensures
            r.wf(),
            r.table().len() == 0,
            r.tombstones().is_empty(),
            r.stats() == zero_stats(),
    {
        let r = DownloadManager {
            downloads: Vec::new(),
            deleted_gids: Vec::new(),
            global_stats: GlobalStats::default(),
        };
        assert(r.tombstones() =~= Set::empty());
        r
    }

    /// Whether `gid` is tombstoned.
    pub fn is_deleted(&self, gid: &str) -> (r: bool)
        ensures
            r == self.tombstones().contains(gid@),
    {
        let mut i: usize = 0;
        while i < self.deleted_gids.len()
            invariant
                i <= self.deleted_gids@.len(),
                forall|j: int| 0 <= j < i ==> (#[trigger] self.deleted_gids@[j])@ != gid@,
            decreases self.deleted_gids@.len() - i,
        {
            if str_eq(self.deleted_gids[i].as_str(), gid) {
                return true;
            }
            i += 1;
        }
        false
    }

    /// The position of the entry with id `gid`.
    fn find_index(&self, gid: &str) -> (r: Option<usize>)
        requires
            self.wf(),
        ensures
            match r {
                Some(i) => i < self.table().len() && id_of(self.table()[i as int]) == gid@,
                None => !has_id(self.table(), gid@),
            },
    {
        let mut i: usize = 0;
        while i < self.downloads.len()
            invariant
                self.wf(),
                i <= self.downloads@.len(),
                forall|j: int| 0 <= j < i ==> id_of(#[trigger] self.downloads@[j]) != gid@,
            decreases self.downloads@.len() - i,
        {
            let d = &self.downloads[i];
            match &d.gid {
                Some(g) => {
                    if str_eq(g.as_str(), gid) {
                        return Some(i);
                    }
                },
                None => {},
            }
            i += 1;
        }
        None
    }

    /// Merges one snapshot into the table by the merge rule: a tombstoned id is ignored,
    /// a known id is refreshed in place, an unknown id is appended as a discovered entry.
    pub fn merge_status(&mut self, st: &Aria2Status)
        requires
            old(self).wf(),
        ensures
            final(self).wf(),
            final(self).tombstones() == old(self).tombstones(),
            final(self).stats() == old(self).stats(),
            merged(old(self).table(), final(self).table(), old(self).tombstones(), *st),
    {
        if self.is_deleted(st.gid.as_str()) {
            return;
        }
        let ghost before = self.downloads@;
        match self.find_index(st.gid.as_str()) {
            Some(i) => {
                let entry = refreshed_entry(&self.downloads[i], st);
                self.downloads.set(i, entry);
                proof {
                    let after = self.downloads@;
                    assert forall|k: int| 0 <= k < before.len() && id_of(#[trigger] before[k]) == st.gid@ implies k == i by {
                        if k != i {
                            assert(id_of(before[k]) != id_of(before[i as int]));
                        }
                    }
                    assert forall|a: int, b: int|
                        0 <= a < after.len() && 0 <= b < after.len() && a != b implies id_of(#[trigger] after[a]) != id_of(#[trigger] after[b]) by {
                        assert(id_of(before[a]) != id_of(before[b]));
                        assert(id_of(after[a]) == id_of(before[a]));
                        assert(id_of(after[b]) == id_of(before[b]));
                    }
                    assert forall|k: int| 0 <= k < after.len() implies !self.tombstones().contains(id_of(#[trigger] after[k])) by {
                        assert(id_of(after[k]) == id_of(before[k]));
                    }
                    assert forall|k: int| 0 <= k < after.len() implies (#[trigger] after[k]).gid is Some by {
                        assert(before[k].gid is Some);
                    }
                    assert forall|k: int| 0 <= k < after.len() implies (#[trigger] after[k]).speed_history@.len() <= MAX_SPEED_HISTORY
                        && after[k].upload_speed_history@.len() <= MAX_SPEED_HISTORY by {
                        assert(before[k].speed_history@.len() <= MAX_SPEED_HISTORY);
                    }
                    assert(has_id(before, st.gid@));
                }
            },
            None => {
                let entry = discovered_entry(st);
                self.downloads.push(entry);
                proof {
                    let after = self.downloads@;
                    assert(after.subrange(0, before.len() as int) =~= before);
                    assert forall|a: int, b: int|
                        0 <= a < after.len() && 0 <= b < after.len() && a != b implies id_of(#[trigger] after[a]) != id_of(#[trigger] after[b]) by {
                        if a < before.len() && b < before.len() {
                            assert(id_of(before[a]) != id_of(before[b]));
                        } else if a < before.len() {
                            assert(after[a] == before[a]);
                        } else {
                            assert(after[b] == before[b]);
                        }
                    }
                    assert forall|k: int| 0 <= k < after.len() implies !self.tombstones().contains(id_of(#[trigger] after[k])) by {
                        if k < before.len() {
                            assert(after[k] == before[k]);
                        }
                    }
                    assert forall|k: int| 0 <= k < after.len() implies (#[trigger] after[k]).gid is Some by {
                        if k < before.len() {
                            assert(after[k] == before[k]);
                        }
                    }
                    assert forall|k: int| 0 <= k < after.len() implies (#[trigger] after[k]).speed_history@.len() <= MAX_SPEED_HISTORY
                        && after[k].upload_speed_history@.len() <= MAX_SPEED_HISTORY by {
                        if k < before.len() {
                            assert(after[k] == before[k]);
                        }
                    }
                }
            },
        }
    }

    /// Merges one partition's snapshots, in order, by the merge rule.
    pub fn merge_partition(&mut self, sts: &Vec<Aria2Status>)
        requires
            old(self).wf(),
        ensures
            final(self).wf(),
            final(self).tombstones() == old(self).tombstones(),
            final(self).stats() == old(self).stats(),
            reconciled(old(self).table(), final(self).table(), old(self).tombstones(), sts@),
    {
        let ghost start = self.downloads@;
        let mut k: usize = 0;
        proof {
            let none = sts@.subrange(0, 0);
            assert forall|i: int, upload: bool| 0 <= i < start.len() implies #[trigger] history_of(start[i], upload)
                == slide_all(origin_history(start, i, upload), reported_rates(none, id_of(start[i]), upload)) by {
                assert(reported_rates(none, id_of(start[i]), upload) == Seq::<u64>::empty());
            }
        }
        while k < sts.len()
            invariant
                self.wf(),
                self.tombstones() == old(self).tombstones(),
                self.stats() == old(self).stats(),
                start == old(self).table(),
                k <= sts@.len(),
                reconciled(start, self.table(), self.tombstones(), sts@.subrange(0, k as int)),
            decreases sts@.len() - k,
        {
            let ghost before = self.downloads@;
            self.merge_status(&sts[k]);
            proof {
                let after = self.downloads@;
                let st = sts@[k as int];
                let tomb = self.tombstones();
                lemma_merged_keeps_ids(before, after, tomb, st);
                let done = sts@.subrange(0, k + 1);
                assert(done.drop_last() =~= sts@.subrange(0, k as int));
                assert(done.last() == st);
                assert(done =~= sts@.subrange(0, k as int).push(st));
                lemma_merge_step_slides(start, before, after, tomb, sts@.subrange(0, k as int), st);
                assert forall|j: int| 0 <= j < done.len() && !tomb.contains((#[trigger] done[j]).gid@)
                    implies has_id(after, done[j].gid@) by {
                    if j < k {
                        assert(done[j] == sts@.subrange(0, k as int)[j]);
                        assert(has_id(before, done[j].gid@));
                        let q = choose|q: int| 0 <= q < before.len() && id_of(#[trigger] before[q]) == done[j].gid@;
                        assert(id_of(after[q]) == id_of(before[q]));
                    }
                }
                assert forall|id: Seq<char>| #[trigger] has_id(after, id)
                    implies has_id(start, id) || reported(done, id) by {
                    if has_id(before, id) {
                        if !has_id(start, id) {
                            let w = choose|w: int| 0 <= w < k && (#[trigger] sts@.subrange(0, k as int)[w]).gid@ == id;
                            assert(done[w] == sts@.subrange(0, k as int)[w]);
                        }
                    } else {
                        assert(done[k as int].gid@ == id);
                    }
                }
                assert forall|i: int| 0 <= i < after.len() implies match last_report(done, id_of(#[trigger] after[i])) {
                    Some(x) => observed(after[i], x),
                    None => true,
                } by {
                    let id = id_of(after[i]);
                    if id == st.gid@ {
                        assert(!tomb.contains(st.gid@)) by {
                            assert(!self.tombstones().contains(id_of(after[i])));
                        }
                        if has_id(before, st.gid@) {
                            assert(i < before.len());
                            assert(id_of(before[i]) == st.gid@);
                            assert(refreshed(after[i], before[i], st));
                        } else {
                            if i < before.len() {
                                assert(after[i] == before[i]);
                                assert(has_id(before, st.gid@));
                            }
                            assert(i == before.len());
                        }
                    } else {
                        if i < before.len() {
                            assert(after[i] == before[i]);
                        } else {
                            assert(!has_id(before, st.gid@));
                            assert(i == before.len());
                            assert(id_of(after[i]) == st.gid@);
                        }
                        assert(last_report(done, id) == last_report(sts@.subrange(0, k as int), id));
                    }
                }
                assert forall|i: int| 0 <= i < start.len() && !reported(done, id_of(start[i]))
                    implies #[trigger] after[i] == start[i] by {
                    assert(!reported(sts@.subrange(0, k as int), id_of(start[i]))) by {
                        if reported(sts@.subrange(0, k as int), id_of(start[i])) {
                            let w = choose|w: int| 0 <= w < k && (#[trigger] sts@.subrange(0, k as int)[w]).gid@ == id_of(start[i]);
                            assert(done[w] == sts@.subrange(0, k as int)[w]);
                        }
                    }
                    assert(id_of(before[i]) == id_of(start[i]));
                    assert(done[k as int].gid@ != id_of(start[i]));
                }
            }
            k += 1;
        }
        assert(sts@.subrange(0, sts@.len() as int) =~= sts@);
    }

    /// One reconciliation pass: merges the active, waiting and stopped partitions by the
    /// same rule, then recomputes the statistics from the whole table.
    pub fn update_downloads(
        &mut self,
        active: &Vec<Aria2Status>,
        waiting: &Vec<Aria2Status>,
        stopped: &Vec<Aria2Status>,
    )
        requires
            old(self).wf(),
        ensures
            final(self).wf(),
            final(self).tombstones() == old(self).tombstones(),
            reconciled(old(self).table(), final(self).table(), old(self).tombstones(), active@ + waiting@ + stopped@),
            final(self).stats() == stats_of(final(self).table()),
    {
        let ghost t0 = self.downloads@;
        self.merge_partition(active);
        let ghost t1 = self.downloads@;
        self.merge_partition(waiting);
        let ghost t2 = self.downloads@;
        self.merge_partition(stopped);
        proof {
            let tomb = self.tombstones();
            lemma_reconciled_chain(t0, t1, t2, tomb, active@, waiting@);
            lemma_reconciled_chain(t0, t2, self.downloads@, tomb, active@ + waiting@, stopped@);
        }
        self.global_stats = compute_stats(&self.downloads);
    }

    /// Records a source just submitted to the daemon, under the id the daemon gave it:
    /// a provisional zero-progress entry with the source kept for retry. An id that is
    /// tombstoned is not recorded (the result is then false).
    pub fn add_download(&mut self, input: &str, gid: &str) -> (recorded: bool)
        requires
            old(self).wf(),
        ensures
            final(self).wf(),
            final(self).tombstones() == old(self).tombstones(),
            final(self).stats() == old(self).stats(),
            recorded == !old(self).tombstones().contains(gid@),
            recorded ==> added(old(self).table(), final(self).table(), input@, gid@),
            !recorded ==> final(self).table() == old(self).table(),
    {
        if self.is_deleted(gid) {
            return false;
        }
        let mut speed = String::new();
        push_str(&mut speed, "0 B/s");
        let mut upload_speed = String::new();
        push_str(&mut upload_speed, "0 B/s");
        let mut status = String::new();
        push_str(&mut status, "WAITING");
        assert(speed@ =~= "0 B/s"@);
        assert(upload_speed@ =~= "0 B/s"@);
        assert(status@ =~= "WAITING"@);
        let entry = Download {
            gid: Some(String::from_str(gid)),
            name: extract_filename(input),
            url: Some(String::from_str(input)),
            speed,
            status,
            total_length: 0,
            completed_length: 0,
            download_type: download_type_for(input),
            speed_history: Vec::new(),
            upload_speed: upload_speed,
            upload_speed_history: Vec::new(),
            connections: 0,
            file_path: None,
            error_message: None,
            seeds: 0,
            peers: 0,
            bitfield: None,
            num_pieces: 0,
        };
        let ghost before = self.downloads@;
        match self.find_index(gid) {
            Some(i) => {
                proof {
                    lemma_update_keeps_wf(before, self.tombstones(), i as int, entry);
                    assert forall|k: int| 0 <= k < before.len() && id_of(#[trigger] before[k]) == gid@ implies k == i by {
                        if k != i {
                            assert(id_of(before[k]) != id_of(before[i as int]));
                        }
                    }
                }
                self.downloads.set(i, entry);
            },
            None => {
                proof {
                    lemma_push_keeps_wf(before, self.tombstones(), entry);
                }
                self.downloads.push(entry);
                assert(self.downloads@.subrange(0, before.len() as int) =~= before);
            },
        }
        true
    }

    /// Removes an entry: its id is tombstoned first, so that no later merge brings it
    /// back, then the entry leaves the table. The daemon-side cleanup is the caller's.
    pub fn remove_download(&mut self, gid: &str)
        requires
            old(self).wf(),
        ensures
            final(self).wf(),
            final(self).tombstones() == old(self).tombstones().insert(gid@),
            final(self).stats() == old(self).stats(),
            removed(old(self).table(), final(self).table(), gid@),
            !has_id(final(self).table(), gid@),
    {
        let ghost tomb0 = self.tombstones();
        let ghost before = self.downloads@;
        let found = self.find_index(gid);
        if !self.is_deleted(gid) {
            self.deleted_gids.push(String::from_str(gid));
            proof {
                assert forall|id: Seq<char>| #[trigger] self.tombstones().contains(id) == tomb0.insert(gid@).contains(id) by {
                    if tomb0.contains(id) {
                        let j = choose|j: int| 0 <= j < old(self).deleted_gids@.len() && (#[trigger] old(self).deleted_gids@[j])@ == id;
                        assert(self.deleted_gids@[j] == old(self).deleted_gids@[j]);
                    }
                    if self.tombstones().contains(id) && id != gid@ {
                        let j = choose|j: int| 0 <= j < self.deleted_gids@.len() && (#[trigger] self.deleted_gids@[j])@ == id;
                        assert(j < old(self).deleted_gids@.len());
                        assert(self.deleted_gids@[j] == old(self).deleted_gids@[j]);
                    }
                    if id == gid@ {
                        assert(self.deleted_gids@[old(self).deleted_gids@.len() as int]@ == gid@);
                    }
                }
                assert(self.tombstones() =~= tomb0.insert(gid@));
            }
        } else {
            assert(tomb0.insert(gid@) =~= tomb0);
        }
        match found {
            Some(i) => {
                proof {
                    lemma_remove_keeps_wf(before, tomb0, i as int);
                }
                self.downloads.remove(i);
            },
            None => {
                proof {
                    assert forall|k: int| 0 <= k < before.len() implies !self.tombstones().contains(id_of(#[trigger] before[k])) by {
                        assert(!tomb0.contains(id_of(before[k])));
                        if id_of(before[k]) == gid@ {
                            assert(has_id(before, gid@));
                        }
                    }
                }
            },
        }
    }

    /// Prepares a retry: the entry is removed (as by [`Self::remove_download`]) and the
    /// source it was added from is returned, to be submitted again and recorded under the
    /// new id it gets. An entry without a recorded source cannot be retried.
    pub fn retry_download(&mut self, gid: &str) -> (r: Result<String, DownloadError>)
        requires
            old(self).wf(),
        ensures
            final(self).wf(),
            final(self).stats() == old(self).stats(),
            !has_id(old(self).table(), gid@) ==> r == Err::<String, DownloadError>(DownloadError::NotFound),
            has_id(old(self).table(), gid@) && entry_of(old(self).table(), gid@).url is Some ==> r is Ok,
            has_id(old(self).table(), gid@) && entry_of(old(self).table(), gid@).url is None ==> r
                == Err::<String, DownloadError>(DownloadError::NoUrlAvailable),
            r is Err ==> final(self).table() == old(self).table() && final(self).tombstones() == old(self).tombstones(),
            r matches Ok(src) ==> {
                &&& has_id(old(self).table(), gid@)
                &&& opt_view(entry_of(old(self).table(), gid@).url) == Some(src@)
                &&& final(self).tombstones() == old(self).tombstones().insert(gid@)
                &&& removed(old(self).table(), final(self).table(), gid@)
            },
    {
        match self.find_index(gid) {
            None => Err(DownloadError::NotFound),
            Some(i) => {
                proof {
                    lemma_entry_of(self.downloads@, self.tombstones(), i as int);
                }
                match &self.downloads[i].url {
                    None => Err(DownloadError::NoUrlAvailable),
                    Some(u) => {
                        let src = u.clone();
                        self.remove_download(gid);
                        Ok(src)
                    },
                }
            },
        }
    }

    /// Removes every stopped entry (complete or failed), tombstoning each id, and gives
    /// how many were removed. The daemon-side purge is the caller's.
    pub fn purge_completed(&mut self) -> (count: usize)
        requires
            old(self).wf(),
        ensures
            final(self).wf(),
            final(self).stats() == old(self).stats(),
            count == count_stopped(old(self).table()),
            final(self).table() == old(self).table().filter(|d: Download| !is_stopped_status(d.status@)),
            forall|i: int|
                0 <= i < old(self).table().len() && is_stopped_status(old(self).table()[i].status@)
                    ==> final(self).tombstones().contains(id_of(#[trigger] old(self).table()[i])),
            forall|id: Seq<char>| #[trigger] final(self).tombstones().contains(id) <==> old(self).tombstones().contains(id)
                || exists|i: int| 0 <= i < old(self).table().len() && id_of(#[trigger] old(self).table()[i]) == id
                    && is_stopped_status(old(self).table()[i].status@),
    {
        let ghost t = self.downloads@;
        let ghost tomb0 = self.tombstones();
        let ghost keep = |d: Download| !is_stopped_status(d.status@);
        let mut rest: Vec<Download> = Vec::new();
        std::mem::swap(&mut rest, &mut self.downloads);
        proof {
            reveal(Seq::filter);
            assert(t.subrange(0, 0).filter(keep) =~= Seq::<Download>::empty());
        }
        let n = rest.len();
        let mut count: usize = 0;
        let mut j: usize = 0;
        while j < n
            invariant
                keep == (|d: Download| !is_stopped_status(d.status@)),
                table_wf(t, tomb0),
                n == t.len(),
                j <= n,
                rest@ == t.subrange(j as int, n as int),
                self.downloads@ == t.subrange(0, j as int).filter(keep),
                count == count_stopped(t.subrange(0, j as int)),
                count <= j,
                table_wf(self.downloads@, self.tombstones()),
                forall|a: int, b: int| 0 <= a < self.downloads@.len() && j <= b < n
                    ==> id_of(#[trigger] self.downloads@[a]) != id_of(#[trigger] t[b]),
                forall|b: int| j <= b < n ==> !self.tombstones().contains(id_of(#[trigger] t[b])),
                forall|b: int| 0 <= b < j && is_stopped_status(t[b].status@)
                    ==> self.tombstones().contains(id_of(#[trigger] t[b])),
                forall|id: Seq<char>| #[trigger] self.tombstones().contains(id) <==> tomb0.contains(id)
                    || exists|b: int| 0 <= b < j && id_of(#[trigger] t[b]) == id && is_stopped_status(t[b].status@),
                self.global_stats == old(self).global_stats,
            decreases n - j,
        {
            let ghost kept0 = self.downloads@;
            let ghost tomb1 = self.tombstones();
            let ghost gids1 = self.deleted_gids@;
            let d = rest.remove(0);
            assert(d == t[j as int]);
            assert(t.subrange(0, j + 1).drop_last() =~= t.subrange(0, j as int));
            assert(t.subrange(0, j + 1).last() == t[j as int]);
            assert(rest@ =~= t.subrange(j + 1, n as int));
            let stopped = str_eq(d.status.as_str(), "COMPLETE") || str_eq(d.status.as_str(), "ERROR");
            if stopped {
                assert(is_stopped_status(t[j as int].status@));
                assert(t[j as int].gid is Some);
                match d.gid {
                    Some(g) => {
                        self.deleted_gids.push(g);
                    },
                    None => {},
                }
                count += 1;
                proof {
                    let id = id_of(t[j as int]);
                    assert forall|x: Seq<char>| #[trigger] self.tombstones().contains(x) == tomb1.insert(id).contains(x) by {
                        let m = self.deleted_gids@.len() - 1;
                        if tomb1.contains(x) {
                            let q = choose|q: int| 0 <= q < gids1.len() && (#[trigger] gids1[q])@ == x;
                            assert(self.deleted_gids@[q] == gids1[q]);
                        }
                        if self.tombstones().contains(x) && x != id {
                            let q = choose|q: int| 0 <= q < self.deleted_gids@.len() && (#[trigger] self.deleted_gids@[q])@ == x;
                            assert(q != m);
                            assert(self.deleted_gids@[q] == gids1[q]);
                        }
                        if x == id {
                            assert(self.deleted_gids@[m]@ == id);
                        }
                    }
                    assert(self.tombstones() =~= tomb1.insert(id));
                    assert forall|a: int| 0 <= a < self.downloads@.len() implies !self.tombstones().contains(id_of(#[trigger] self.downloads@[a])) by {
                        assert(id_of(self.downloads@[a]) != id_of(t[j as int]));
                    }
                    assert forall|b: int| j + 1 <= b < n implies !self.tombstones().contains(id_of(#[trigger] t[b])) by {
                        assert(id_of(t[b]) != id_of(t[j as int]));
                    }
                    assert forall|x: Seq<char>| #[trigger] self.tombstones().contains(x) <==> tomb0.contains(x)
                        || exists|b: int| 0 <= b < j + 1 && id_of(#[trigger] t[b]) == x && is_stopped_status(t[b].status@) by {
                        if exists|b: int| 0 <= b < j + 1 && id_of(#[trigger] t[b]) == x && is_stopped_status(t[b].status@) {
                            let b = choose|b: int| 0 <= b < j + 1 && id_of(#[trigger] t[b]) == x && is_stopped_status(t[b].status@);
                            if b < j {
                                assert(tomb1.contains(x));
                            }
                        }
                        if tomb1.contains(x) && !tomb0.contains(x) {
                            let b = choose|b: int| 0 <= b < j && id_of(#[trigger] t[b]) == x && is_stopped_status(t[b].status@);
                            assert(0 <= b < j + 1);
                        }
                    }
                }
                proof {
                    lemma_status_words_distinct();
                    let s1 = t.subrange(0, j + 1);
                    assert(s1.last() == t[j as int]);
                    assert(is_stopped_status(t[j as int].status@));
                    assert(!keep(t[j as int]));
                    reveal(Seq::filter);
                    assert(s1.filter(keep) == s1.drop_last().filter(keep));
                }
            } else {
                assert(!is_stopped_status(t[j as int].status@));
                proof {
                    lemma_status_words_distinct();
                    lemma_push_keeps_wf(kept0, tomb1, d);
                }
                self.downloads.push(d);
                proof {
                    let s1 = t.subrange(0, j + 1);
                    assert(keep(s1.last()));
                    reveal(Seq::filter);
                    assert(s1.filter(keep) == s1.drop_last().filter(keep).push(s1.last()));
                    assert forall|a: int, b: int| 0 <= a < self.downloads@.len() && j + 1 <= b < n
                        implies id_of(#[trigger] self.downloads@[a]) != id_of(#[trigger] t[b]) by {
                        if a < kept0.len() {
                            assert(self.downloads@[a] == kept0[a]);
                        } else {
                            assert(id_of(t[j as int]) != id_of(t[b]));
                        }
                    }
                    assert forall|x: Seq<char>| #[trigger] self.tombstones().contains(x) <==> tomb0.contains(x)
                        || exists|b: int| 0 <= b < j + 1 && id_of(#[trigger] t[b]) == x && is_stopped_status(t[b].status@) by {
                        if exists|b: int| 0 <= b < j + 1 && id_of(#[trigger] t[b]) == x && is_stopped_status(t[b].status@) {
                            let b = choose|b: int| 0 <= b < j + 1 && id_of(#[trigger] t[b]) == x && is_stopped_status(t[b].status@);
                            assert(b != j);
                        }
                        if tomb1.contains(x) && !tomb0.contains(x) {
                            let b = choose|b: int| 0 <= b < j && id_of(#[trigger] t[b]) == x && is_stopped_status(t[b].status@);
                            assert(0 <= b < j + 1);
                        }
                    }
                }
            }
            j += 1;
        }
        assert(t.subrange(0, n as int) =~= t);
        count
    }

    /// Removes an entry (as by [`Self::remove_download`]) and gives its name and file path,
    /// for the caller to delete the file; the removal stands whatever that deletion does.
    pub fn delete_file(&mut self, gid: &str) -> (r: Result<(String, Option<String>), DownloadError>)
        requires
            old(self).wf(),
        ensures
            final(self).wf(),
            final(self).stats() == old(self).stats(),
            has_id(old(self).table(), gid@) ==> r is Ok,
            !has_id(old(self).table(), gid@) ==> r == Err::<(String, Option<String>), DownloadError>(
                DownloadError::NotFound,
            ),
            r is Err ==> final(self).table() == old(self).table() && final(self).tombstones() == old(
                self,
            ).tombstones(),
            r matches Ok((name, path)) ==> {
                &&& has_id(old(self).table(), gid@)
                &&& name@ == entry_of(old(self).table(), gid@).name@
                &&& opt_view(path) == opt_view(entry_of(old(self).table(), gid@).file_path)
                &&& final(self).tombstones() == old(self).tombstones().insert(gid@)
                &&& removed(old(self).table(), final(self).table(), gid@)
            },
    {
        match self.find_index(gid) {
            None => Err(DownloadError::NotFound),
            Some(i) => {
                proof {
                    lemma_entry_of(self.downloads@, self.tombstones(), i as int);
                }
                let name = self.downloads[i].name.clone();
                let path = copy_opt_string(&self.downloads[i].file_path);
                self.remove_download(gid);
                Ok((name, path))
            },
        }
    }

    /// Copies of the entries of a selection, in table order.
    pub fn select_downloads(&self, which: Selection) -> (r: Vec<Download>)
        ensures
            r@.len() == self.table().filter(|d: Download| selected(which, d)).len(),
            forall|i: int|
                0 <= i < r@.len() ==> same_download(
                    #[trigger] r@[i],
                    self.table().filter(|d: Download| selected(which, d))[i],
                ),
    {
        let ghost pick = |d: Download| selected(which, d);
        let ghost t = self.downloads@;
        let mut r: Vec<Download> = Vec::new();
        let mut i: usize = 0;
        proof {
            reveal(Seq::filter);
            assert(t.subrange(0, 0).filter(pick) =~= Seq::<Download>::empty());
        }
        while i < self.downloads.len()
            invariant
                pick == (|d: Download| selected(which, d)),
                t == self.downloads@,
                i <= t.len(),
                r@.len() == t.subrange(0, i as int).filter(pick).len(),
                forall|k: int| 0 <= k < r@.len() ==> same_download(#[trigger] r@[k], t.subrange(0, i as int).filter(pick)[k]),
            decreases t.len() - i,
        {
            let ghost s1 = t.subrange(0, i + 1);
            assert(s1.drop_last() =~= t.subrange(0, i as int));
            assert(s1.last() == t[i as int]);
            if is_selected(which, &self.downloads[i]) {
                let ghost r0 = r@;
                r.push(self.downloads[i].duplicate());
                proof {
                    reveal(Seq::filter);
                    assert(s1.filter(pick) == s1.drop_last().filter(pick).push(s1.last()));
                    assert forall|k: int| 0 <= k < r@.len() implies same_download(#[trigger] r@[k], s1.filter(pick)[k]) by {
                        if k < r0.len() {
                            assert(r@[k] == r0[k]);
                        }
                    }
                }
            } else {
                proof {
                    reveal(Seq::filter);
                    assert(s1.filter(pick) == s1.drop_last().filter(pick));
                }
            }
            i += 1;
        }
        assert(t.subrange(0, t.len() as int) =~= t);
        r
    }

    /// Copies of all entries.
    pub fn get_all_downloads(&self) -> (r: Vec<Download>)
        ensures
            r@.len() == self.table().filter(|d: Download| selected(Selection::All, d)).len(),
            forall|i: int|
                0 <= i < r@.len() ==> same_download(
                    #[trigger] r@[i],
                    self.table().filter(|d: Download| selected(Selection::All, d))[i],
                ),
    {
        self.select_downloads(Selection::All)
    }

    /// Copies of the entries part-way through.
    pub fn get_active_downloads(&self) -> (r: Vec<Download>)
        ensures
            r@.len() == self.table().filter(|d: Download| selected(Selection::Active, d)).len(),
            forall|i: int|
                0 <= i < r@.len() ==> same_download(
                    #[trigger] r@[i],
                    self.table().filter(|d: Download| selected(Selection::Active, d))[i],
                ),
    {
        self.select_downloads(Selection::Active)
    }

    /// Copies of the entries waiting or not yet started.
    pub fn get_queued_downloads(&self) -> (r: Vec<Download>)
        ensures
            r@.len() == self.table().filter(|d: Download| selected(Selection::Queued, d)).len(),
            forall|i: int|
                0 <= i < r@.len() ==> same_download(
                    #[trigger] r@[i],
                    self.table().filter(|d: Download| selected(Selection::Queued, d))[i],
                ),
    {
        self.select_downloads(Selection::Queued)
    }

    /// Copies of the entries done or reported complete.
    pub fn get_completed_downloads(&self) -> (r: Vec<Download>)
        ensures
            r@.len() == self.table().filter(|d: Download| selected(Selection::Completed, d)).len(),
            forall|i: int|
                0 <= i < r@.len() ==> same_download(
                    #[trigger] r@[i],
                    self.table().filter(|d: Download| selected(Selection::Completed, d))[i],
                ),
    {
        self.select_downloads(Selection::Completed)
    }

    /// A copy of the entry with id `gid`.
    pub fn get_download(&self, gid: &str) -> (r: Option<Download>)
        requires
            self.wf(),
        ensures
            r is Some == has_id(self.table(), gid@),
            r matches Some(d) ==> same_download(d, entry_of(self.table(), gid@)),
    {
        match self.find_index(gid) {
            Some(i) => {
                proof {
                    lemma_entry_of(self.downloads@, self.tombstones(), i as int);
                }
                Some(self.downloads[i].duplicate())
            },
            None => None,
        }
    }

    /// The statistics of the last reconciliation pass.
    pub fn get_global_stats(&self) -> (r: GlobalStats)
        ensures
            r == self.stats(),
    {
        self.global_stats
    }
}

} // verus!
