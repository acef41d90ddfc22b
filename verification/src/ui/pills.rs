//! Filter pill data: one chip of the filter row, with its label, current
//! value and interaction flags. Rendering is the host's side.

use vstd::prelude::*;

verus! {

/// One filter pill of the filter row.
#[derive(Clone, Debug)]
pub struct Pill {
    /// What the pill filters on.
    pub label: String,
    /// The current value shown inside the pill.
    pub value: String,
    /// Whether the pill's filter is currently applied.
    pub active: bool,
    /// Whether the pill can be edited in place.
    pub editable: bool,
}

} // verus!
