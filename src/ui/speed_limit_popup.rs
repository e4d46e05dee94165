//! State of the speed limit editor.

use vstd::prelude::*;

use crate::text::{
    dec_digits, fixed_text, lowercase, push_decimal, push_fixed, push_str, rate_value, read_rate,
    str_eq, to_lower, trim, trimmed,
};
use crate::ui::utils::{GB, KB, MB};

verus! {

/// A limit as the editor shows it: GB/s and MB/s with one decimal, whole KB/s, or B/s.
pub open spec fn limit_speed_text(n: nat) -> Seq<char> {
    if n >= GB {
        fixed_text(n, GB as nat, 1) + " GB/s"@
    } else if n >= MB {
        fixed_text(n, MB as nat, 1) + " MB/s"@
    } else if n >= KB {
        fixed_text(n, KB as nat, 0) + " KB/s"@
    } else {
        dec_digits(n) + " B/s"@
    }
}

/// What a typed limit means in the editor: 0 (unlimited) for "", "0", "unlimited" or
/// "none"; otherwise its number times its unit (g, m, k; megabytes without a unit; bytes
/// for another unit). Case and surrounding white space do not matter.
pub open spec fn speed_limit_value(input: Seq<char>) -> Option<nat> {
    let l = lowercase(trimmed(input));
    if l.len() == 0 || l == "0"@ || l == "unlimited"@ || l == "none"@ {
        Some(0)
    } else {
        rate_value(l, MB as nat)
    }
}

/// Speed limit settings state
#[derive(Clone, Debug)]
pub struct SpeedLimitState {
    pub download_limit: u64,
    pub upload_limit: u64,
    /// Which limit is being edited: true for download, false for upload.
    pub editing_download: bool,
    pub input_buffer: String,
}

impl SpeedLimitState {
    /// The limit being edited.
    pub open spec fn current(&self) -> u64 {
        if self.editing_download {
            self.download_limit
        } else {
            self.upload_limit
        }
    }

    /// `self` with the edited limit set to `limit`, all else kept.
    pub open spec fn with_current(&self, new: &SpeedLimitState, limit: u64) -> bool {
        &&& new.editing_download == self.editing_download
        &&& new.input_buffer@ == self.input_buffer@
        &&& if self.editing_download {
            new.download_limit == limit && new.upload_limit == self.upload_limit
        } else {
            new.upload_limit == limit && new.download_limit == self.download_limit
        }
    }

    pub fn new(download_limit: u64, upload_limit: u64) -> (r: Self)
        ensures
            r.download_limit == download_limit,
            r.upload_limit == upload_limit,
            r.editing_download,
            r.input_buffer@.len() == 0,
    {
        SpeedLimitState { download_limit, upload_limit, editing_download: true, input_buffer: String::new() }
    }

    /// Switches between the download and upload limit and clears the typed text.
    pub fn toggle_field(&mut self)
        ensures
            final(self).editing_download == !old(self).editing_download,
            final(self).download_limit == old(self).download_limit,
            final(self).upload_limit == old(self).upload_limit,
            final(self).input_buffer@.len() == 0,
    {
        self.editing_download = !self.editing_download;
        self.input_buffer = String::new();
    }

    pub fn get_current_limit(&self) -> (r: u64)
        ensures
            r == self.current(),
    {
        if self.editing_download {
            self.download_limit
        } else {
            self.upload_limit
        }
    }

    pub fn set_current_limit(&mut self, limit: u64)
        ensures
            old(self).with_current(final(self), limit),
    {
        if self.editing_download {
            self.download_limit = limit;
        } else {
            self.upload_limit = limit;
        }
    }

    /// One step up: from unlimited to 1 MB/s; by 100 KB/s below 1 MB/s, by 1 MB/s below
    /// 10 MB/s, by 5 MB/s above.
    pub fn increase_limit(&mut self)
        requires
            old(self).current() <= u64::MAX - 5 * MB,
        ensures
            old(self).with_current(
                final(self),
                if old(self).current() == 0 {
                    MB
                } else if old(self).current() < MB {
                    (old(self).current() + 100 * KB) as u64
                } else if old(self).current() < 10 * MB {
                    (old(self).current() + MB) as u64
                } else {
                    (old(self).current() + 5 * MB) as u64
                },
            ),
    {
        let current = self.get_current_limit();
        let new_limit = if current == 0 {
            MB
        } else if current < MB {
            current + 100 * KB
        } else if current < 10 * MB {
            current + MB
        } else {
            current + 5 * MB
        };
        self.set_current_limit(new_limit);
    }

    /// One step down: to unlimited from 100 KB/s or less; by 100 KB/s up to 1 MB/s, by
    /// 1 MB/s up to 10 MB/s, by 5 MB/s above.
    pub fn decrease_limit(&mut self)
        ensures
            old(self).with_current(
                final(self),
                if old(self).current() <= 100 * KB {
                    0
                } else if old(self).current() <= MB {
                    (old(self).current() - 100 * KB) as u64
                } else if old(self).current() <= 10 * MB {
                    (old(self).current() - MB) as u64
                } else {
                    (old(self).current() - 5 * MB) as u64
                },
            ),
    {
        let current = self.get_current_limit();
        let new_limit = if current <= 100 * KB {
            0
        } else if current <= MB {
            current.saturating_sub(100 * KB)
        } else if current <= 10 * MB {
            current.saturating_sub(MB)
        } else {
            current.saturating_sub(5 * MB)
        };
        self.set_current_limit(new_limit);
    }

    /// Applies the typed text to the edited limit when it reads as one (see
    /// [`parse_speed_limit`]), clearing it; otherwise changes nothing.
    pub fn apply_input(&mut self) -> (r: bool)
        ensures
            r == speed_limit_value(old(self).input_buffer@) is Some,
            r ==> final(self).input_buffer@.len() == 0 && final(self).editing_download
                == old(self).editing_download && if old(self).editing_download {
                final(self).download_limit as nat == speed_limit_value(old(self).input_buffer@)->0
                    && final(self).upload_limit == old(self).upload_limit
            } else {
                final(self).upload_limit as nat == speed_limit_value(old(self).input_buffer@)->0
                    && final(self).download_limit == old(self).download_limit
            },
            !r ==> final(self).download_limit == old(self).download_limit && final(self).upload_limit
                == old(self).upload_limit && final(self).input_buffer@ == old(self).input_buffer@
                && final(self).editing_download == old(self).editing_download,
    {
        match parse_speed_limit(self.input_buffer.as_str()) {
            Some(limit) => {
                self.set_current_limit(limit);
                self.input_buffer = String::new();
                true
            },
            None => false,
        }
    }
}

impl Default for SpeedLimitState {
    fn default() -> (r: Self)
        ensures
            r.download_limit == 0,
            r.upload_limit == 0,
            r.editing_download,
            r.input_buffer@.len() == 0,
    {
        SpeedLimitState::new(0, 0)
    }
}

/// "Unlimited" for 0, else the limit as the editor writes rates.
pub fn format_speed_limit(limit: u64) -> (r: String)
    ensures
        r@ == if limit == 0 {
            "Unlimited"@
        } else {
            limit_speed_text(limit as nat)
        },
{
    if limit == 0 {
        String::from_str("Unlimited")
    } else {
        format_speed(limit)
    }
}

/// Formats a limit: GB/s and MB/s with one decimal, whole KB/s, or B/s.
pub fn format_speed(speed_bytes: u64) -> (r: String)
    ensures
        r@ == limit_speed_text(speed_bytes as nat),
{
    let mut s = String::new();
    if speed_bytes >= GB {
        push_fixed(&mut s, speed_bytes, GB, 1);
        push_str(&mut s, " GB/s");
    } else if speed_bytes >= MB {
        push_fixed(&mut s, speed_bytes, MB, 1);
        push_str(&mut s, " MB/s");
    } else if speed_bytes >= KB {
        push_fixed(&mut s, speed_bytes, KB, 0);
        push_str(&mut s, " KB/s");
    } else {
        push_decimal(&mut s, speed_bytes as u128);
        push_str(&mut s, " B/s");
    }
    assert(s@ =~= limit_speed_text(speed_bytes as nat));
    s
}

/// Reads a typed limit such as "5", "5mb", "500k" or "none" (see [`speed_limit_value`]).
pub fn parse_speed_limit(input: &str) -> (r: Option<u64>)
    ensures
        match speed_limit_value(input@) {
            Some(v) => r == Some(v as u64),
            None => r is None,
        },
{
    let t = trim(input);
    let l = to_lower(t.as_str());
    if l.as_str().is_empty() || str_eq(l.as_str(), "0") || str_eq(l.as_str(), "unlimited") || str_eq(
        l.as_str(),
        "none",
    ) {
        return Some(0);
    }
    read_rate(l.as_str(), MB)
}

} // verus!
