//! Rate and size texts of the statistics bar.

use vstd::prelude::*;

use crate::text::{dec_digits, fixed_text, push_decimal, push_fixed, push_str};
use crate::ui::utils::{GB, KB, MB, TB};

verus! {

/// A rate as the statistics bar shows it: GB/s and MB/s with two decimals, KB/s with one,
/// whole B/s below.
pub open spec fn bar_speed_text(n: nat) -> Seq<char> {
    if n >= GB {
        fixed_text(n, GB as nat, 2) + " GB/s"@
    } else if n >= MB {
        fixed_text(n, MB as nat, 2) + " MB/s"@
    } else if n >= KB {
        fixed_text(n, KB as nat, 1) + " KB/s"@
    } else {
        dec_digits(n) + " B/s"@
    }
}

/// A rate in short form, whole units with a one-letter suffix: "5M", "1G", "512B".
pub open spec fn short_speed_text(n: nat) -> Seq<char> {
    if n >= GB {
        fixed_text(n, GB as nat, 0) + "G"@
    } else if n >= MB {
        fixed_text(n, MB as nat, 0) + "M"@
    } else if n >= KB {
        fixed_text(n, KB as nat, 0) + "K"@
    } else {
        dec_digits(n) + "B"@
    }
}

/// A size as the statistics bar shows it: TB, GB and MB with two decimals, KB with one,
/// whole bytes below.
pub open spec fn bar_size_text(n: nat) -> Seq<char> {
    if n >= TB {
        fixed_text(n, TB as nat, 2) + " TB"@
    } else if n >= GB {
        fixed_text(n, GB as nat, 2) + " GB"@
    } else if n >= MB {
        fixed_text(n, MB as nat, 2) + " MB"@
    } else if n >= KB {
        fixed_text(n, KB as nat, 1) + " KB"@
    } else {
        dec_digits(n) + " B"@
    }
}

/// Appends `n` in `unit` with `places` decimals and then `suffix`.
fn push_in_unit(s: &mut String, n: u64, unit: u64, places: u32, suffix: &str)
    requires
        unit > 0,
        places <= 2,
    ensures
        final(s)@ == old(s)@ + fixed_text(n as nat, unit as nat, places as nat) + suffix@,
{
    push_fixed(s, n, unit, places);
    push_str(s, suffix);
}

/// Format speed in human-readable format
pub fn format_speed(speed_bytes: u64) -> (r: String)
    ensures
        r@ == bar_speed_text(speed_bytes as nat),
{
    let mut s = String::new();
    if speed_bytes >= GB {
        push_in_unit(&mut s, speed_bytes, GB, 2, " GB/s");
    } else if speed_bytes >= MB {
        push_in_unit(&mut s, speed_bytes, MB, 2, " MB/s");
    } else if speed_bytes >= KB {
        push_in_unit(&mut s, speed_bytes, KB, 1, " KB/s");
    } else {
        push_decimal(&mut s, speed_bytes as u128);
        push_str(&mut s, " B/s");
    }
    assert(s@ =~= bar_speed_text(speed_bytes as nat));
    s
}

/// Format speed in short format (for limit display)
pub fn format_speed_short(speed_bytes: u64) -> (r: String)
    ensures
        r@ == short_speed_text(speed_bytes as nat),
{
    let mut s = String::new();
    if speed_bytes >= GB {
        push_in_unit(&mut s, speed_bytes, GB, 0, "G");
    } else if speed_bytes >= MB {
        push_in_unit(&mut s, speed_bytes, MB, 0, "M");
    } else if speed_bytes >= KB {
        push_in_unit(&mut s, speed_bytes, KB, 0, "K");
    } else {
        push_decimal(&mut s, speed_bytes as u128);
        push_str(&mut s, "B");
    }
    assert(s@ =~= short_speed_text(speed_bytes as nat));
    s
}

/// Format file size in human-readable format
pub fn format_size(bytes: u64) -> (r: String)
    ensures
        r@ == bar_size_text(bytes as nat),
{
    let mut s = String::new();
    if bytes >= TB {
        push_in_unit(&mut s, bytes, TB, 2, " TB");
    } else if bytes >= GB {
        push_in_unit(&mut s, bytes, GB, 2, " GB");
    } else if bytes >= MB {
        push_in_unit(&mut s, bytes, MB, 2, " MB");
    } else if bytes >= KB {
        push_in_unit(&mut s, bytes, KB, 1, " KB");
    } else {
        push_decimal(&mut s, bytes as u128);
        push_str(&mut s, " B");
    }
    assert(s@ =~= bar_size_text(bytes as nat));
    s
}

} // verus!
