//! Feedback on the text typed into the add field.

use vstd::prelude::*;

use crate::text::{ends_with, has_prefix, has_suffix, starts_with};

verus! {

/// Whether typed text looks like something that can be added: an HTTP(S) or FTP URL, a
/// magnet link, or a torrent or metalink file.
pub open spec fn looks_addable(t: Seq<char>) -> bool {
    t.len() > 0 && (starts_with(t, "http://"@) || starts_with(t, "https://"@) || starts_with(t, "ftp://"@)
        || starts_with(t, "magnet:"@) || ends_with(t, ".torrent"@) || ends_with(t, ".metalink"@)
        || ends_with(t, ".meta4"@))
}

/// Validate input to provide visual feedback
pub fn is_valid_input(text: &str) -> (r: bool)
    ensures
        r == looks_addable(text@),
{
    if text.is_empty() {
        return false;
    }
    has_prefix(text, "http://") || has_prefix(text, "https://") || has_prefix(text, "ftp://")
        || has_prefix(text, "magnet:") || has_suffix(text, ".torrent") || has_suffix(text, ".metalink")
        || has_suffix(text, ".meta4")
}

} // verus!
