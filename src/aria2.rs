//! What the download daemon reports about one transfer, as plain values.
//!
//! The daemon speaks JSON-RPC; the transport that decodes its replies fills these
//! structures with the reported text as it stands (numbers stay decimal strings).

use vstd::prelude::*;

use crate::text::u32_or_zero;

verus! {

/// One transfer as reported by a tell-active / tell-waiting / tell-stopped call.
#[derive(Debug, Clone)]
pub struct Aria2Status {
    pub gid: String,
    pub status: String,
    pub total_length: String,
    pub completed_length: String,
    pub download_speed: String,
    pub upload_speed: String,
    pub connections: String,
    pub error_code: Option<String>,
    pub error_message: Option<String>,
    pub files: Option<Vec<Aria2File>>,
    /// Present for torrent transfers only.
    pub bittorrent: Option<BitTorrentInfo>,
    pub num_peers: Option<String>,
    /// Hex digits, one bit per piece, set for the pieces held.
    pub bitfield: Option<String>,
    pub num_pieces: Option<String>,
}

/// Torrent telemetry of a transfer.
#[derive(Debug, Clone)]
pub struct BitTorrentInfo {
    pub num_seeders: String,
}

/// One file of a transfer.
#[derive(Debug, Clone)]
pub struct Aria2File {
    pub index: String,
    pub path: String,
    pub length: String,
    pub completed_length: String,
    pub selected: String,
    pub uris: Option<Vec<FileUri>>,
}

/// One source of a file.
#[derive(Debug, Clone)]
pub struct FileUri {
    pub uri: String,
    pub status: String,
}

/// The characters of an optional string.
pub open spec fn opt_view(o: Option<String>) -> Option<Seq<char>> {
    match o {
        Some(s) => Some(s@),
        None => None,
    }
}

/// An optional decimal count, read as a `u32`; 0 when absent or unreadable.
pub open spec fn opt_count(o: Option<String>) -> u32 {
    match o {
        Some(s) => u32_or_zero(s@),
        None => 0,
    }
}

/// The path of the first file of a transfer, when there is one and it is not empty.
pub open spec fn first_file_path(st: Aria2Status) -> Option<Seq<char>> {
    match st.files {
        Some(fs) => if fs@.len() > 0 && fs@[0].path@.len() > 0 {
            Some(fs@[0].path@)
        } else {
            None
        },
        None => None,
    }
}

/// The first file's path, when there is one and it is not empty.
pub fn first_path(st: &Aria2Status) -> (r: Option<&String>)
    ensures
        match r {
            Some(p) => first_file_path(*st) == Some(p@),
            None => first_file_path(*st) is None,
        },
{
    match &st.files {
        Some(fs) => {
            if fs.len() > 0 && !fs[0].path.as_str().is_empty() {
                Some(&fs[0].path)
            } else {
                None
            }
        },
        None => None,
    }
}

} // verus!
