//! Selection and scrolling of the transfer list.

use vstd::prelude::*;

verus! {

/// A selection made valid for a list of `item_count` items: none for an empty list, the
/// last item for one past the end, the first item when nothing was selected.
pub fn validate_selection(selected: Option<usize>, item_count: usize) -> (r: Option<usize>)
    ensures
        item_count == 0 ==> r is None,
        item_count > 0 ==> r == Some(
            match selected {
                Some(i) => if i >= item_count {
                    (item_count - 1) as usize
                } else {
                    i
                },
                None => 0usize,
            },
        ),
{
    if item_count == 0 {
        None
    } else {
        match selected {
            Some(i) => if i >= item_count {
                Some(item_count - 1)
            } else {
                Some(i)
            },
            None => Some(0),
        }
    }
}

/// The first visible row that keeps the selected row on a screen of `items_per_screen` rows.
pub fn calculate_scroll_offset(selected_index: usize, items_per_screen: usize) -> (r: usize)
    ensures
        r == if items_per_screen == 0 || selected_index < items_per_screen {
            0
        } else {
            (selected_index - items_per_screen + 1) as usize
        },
{
    if items_per_screen == 0 {
        return 0;
    }
    if selected_index < items_per_screen {
        0
    } else {
        selected_index - items_per_screen + 1
    }
}

} // verus!
