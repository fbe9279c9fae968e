use vstd::prelude::*;

verus! {

/// Errors that can occur during device tree parsing.
#[derive(Debug, Clone, Copy, PartialEq, Eq, Structural)]
pub enum ParseDeviceTreeError {
    /// Invalid device tree format.
    Format,
}

} // verus!
