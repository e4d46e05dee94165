//! Small computations of the details panel.

use vstd::prelude::*;

use crate::download_manager::hex_value;
use crate::models::Download;
use crate::text::{chars_of, push_char};

verus! {

/// How many of five dots a level shows filled: the ratio to `max_for_full`, times five,
/// rounded up, at most five; none when `max_for_full` is 0.
pub open spec fn filled_dots(count: nat, max_for_full: nat) -> nat {
    if max_for_full == 0 {
        0
    } else {
        let up = ((5 * count + max_for_full - 1) as nat) / max_for_full;
        if up > 5 {
            5
        } else {
            up
        }
    }
}

/// Five dots: filled ones, then empty ones.
pub open spec fn dots_text(filled: nat) -> Seq<char> {
    Seq::new(5, |i: int| if i < filled { '●' } else { '○' })
}

/// Build indicator dots based on count and max threshold
pub fn build_indicator_dots(count: u32, max_for_full: u32) -> (r: String)
    ensures
        r@ == dots_text(filled_dots(count as nat, max_for_full as nat)),
{
    let filled: u64 = if max_for_full == 0 {
        0
    } else {
        let f = (5 * count as u64 + max_for_full as u64 - 1) / max_for_full as u64;
        if f > 5 {
            5
        } else {
            f
        }
    };
    let mut dots = String::new();
    let mut i: u64 = 0;
    while i < 5
        invariant
            i <= 5,
            filled == filled_dots(count as nat, max_for_full as nat),
            dots@ == dots_text(filled as nat).subrange(0, i as int),
        decreases 5 - i,
    {
        if i < filled {
            push_char(&mut dots, '●');
        } else {
            push_char(&mut dots, '○');
        }
        assert(dots_text(filled as nat).subrange(0, i + 1) =~= dots_text(filled as nat).subrange(0, i as int).push(
            dots_text(filled as nat)[i as int],
        ));
        i += 1;
    }
    assert(dots_text(filled as nat).subrange(0, 5) =~= dots_text(filled as nat));
    dots
}

/// The number of set bits of a value below 16.
pub open spec fn bits4(v: nat) -> nat {
    v % 2 + (v / 2) % 2 + (v / 4) % 2 + (v / 8) % 2
}

/// The number of pieces a hex bitfield marks as held; characters that are not hex
/// digits count for nothing.
pub open spec fn pieces_held(s: Seq<char>) -> nat
    decreases s.len(),
{
    if s.len() == 0 {
        0
    } else {
        pieces_held(s.drop_last()) + match hex_value(s.last()) {
            Some(v) => bits4(v),
            None => 0,
        }
    }
}

/// Count completed pieces from bitfield
pub fn count_completed_pieces(download: &Download) -> (r: u32)
    requires
        download.bitfield matches Some(b) ==> b@.len() <= 0x3fff_ffff,
    ensures
        r as nat == match download.bitfield {
            Some(b) => pieces_held(b@),
            None => 0,
        },
{
    match &download.bitfield {
        Some(bitfield) => {
            let v = chars_of(bitfield.as_str());
            let mut count: u32 = 0;
            let mut i: usize = 0;
            while i < v.len()
                invariant
                    v@ == bitfield@,
                    v@.len() <= 0x3fff_ffff,
                    i <= v@.len(),
                    count as nat == pieces_held(v@.subrange(0, i as int)),
                    count <= 4 * i,
                decreases v@.len() - i,
            {
                let c = v[i];
                assert(v@.subrange(0, i + 1).drop_last() =~= v@.subrange(0, i as int));
                let d: u32 = if '0' <= c && c <= '9' {
                    c as u32 - '0' as u32
                } else if 'a' <= c && c <= 'f' {
                    c as u32 - 'a' as u32 + 10
                } else if 'A' <= c && c <= 'F' {
                    c as u32 - 'A' as u32 + 10
                } else {
                    16
                };
                if d < 16 {
                    count = count + d % 2 + (d / 2) % 2 + (d / 4) % 2 + (d / 8) % 2;
                }
                i += 1;
            }
            assert(v@.subrange(0, v@.len() as int) =~= v@);
            count
        },
        None => 0,
    }
}

} // verus!
