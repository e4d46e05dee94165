//! How the status bar presents a message.

use vstd::prelude::*;

use crate::text::{contains_seq, contains_str, lowercase, to_lower};

verus! {

/// The tone of a status message, which the front end maps to a colour.
#[derive(Clone, Copy, Debug, PartialEq, Eq, Structural)]
pub enum MessageTone {
    Error,
    Success,
    Warning,
    Info,
}

/// The tone of a message by the words it holds, ignoring case: errors and failures first,
/// then successes (added, deleted, purged), then warnings; anything else is information.
pub open spec fn tone_of(message: Seq<char>) -> MessageTone {
    let l = lowercase(message);
    if contains_seq(l, "error"@) || contains_seq(l, "failed"@) {
        MessageTone::Error
    } else if contains_seq(l, "success"@) || contains_seq(l, "added"@) || contains_seq(l, "deleted"@)
        || contains_seq(l, "purged"@) {
        MessageTone::Success
    } else if contains_seq(l, "warning"@) {
        MessageTone::Warning
    } else {
        MessageTone::Info
    }
}

/// The icon shown before a message of a tone.
pub open spec fn tone_icon(t: MessageTone) -> Seq<char> {
    match t {
        MessageTone::Error => "[x]"@,
        MessageTone::Success => "[*]"@,
        MessageTone::Warning => "[!]"@,
        MessageTone::Info => "[i]"@,
    }
}

/// Determine the appropriate tone and icon based on message content
pub fn determine_message_style(message: &str) -> (r: (MessageTone, &'static str))
    ensures
        r.0 == tone_of(message@),
        r.1@ == tone_icon(r.0),
{
    let l = to_lower(message);
    let s = l.as_str();
    if contains_str(s, "error") || contains_str(s, "failed") {
        (MessageTone::Error, "[x]")
    } else if contains_str(s, "success") || contains_str(s, "added") || contains_str(s, "deleted")
        || contains_str(s, "purged") {
        (MessageTone::Success, "[*]")
    } else if contains_str(s, "warning") {
        (MessageTone::Warning, "[!]")
    } else {
        (MessageTone::Info, "[i]")
    }
}

} // verus!
