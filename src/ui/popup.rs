//! Kinds of popup.

use vstd::prelude::*;

verus! {

/// Type of popup to display
#[derive(Clone, Copy, Debug, PartialEq, Eq, Structural)]
pub enum PopupType {
    Confirmation,
    Warning,
    Error,
    Info,
}

} // verus!
