//! Tab titles.

use vstd::prelude::*;

use crate::text::{dec_digits, push_decimal, push_str};

verus! {

/// A tab title such as "1 Active (3)": number, name, and item count.
pub fn format_tab_title(name: &str, number: usize, count: usize) -> (r: String)
    ensures
        r@ == dec_digits(number as nat) + " "@ + name@ + " ("@ + dec_digits(count as nat) + ")"@,
{
    let mut s = String::new();
    push_decimal(&mut s, number as u128);
    push_str(&mut s, " ");
    push_str(&mut s, name);
    push_str(&mut s, " (");
    push_decimal(&mut s, count as u128);
    push_str(&mut s, ")");
    assert(s@ =~= dec_digits(number as nat) + " "@ + name@ + " ("@ + dec_digits(count as nat) + ")"@);
    s
}

} // verus!
