//! Items that an avatar exports to other components.
use vstd::prelude::*;

verus! {

#[derive(Debug, Clone, PartialEq)]
pub enum ExportItem {
    Gate { name: String },
    Guard { gate: String, parameter: String },
}

} // verus!
