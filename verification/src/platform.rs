//! The platforms whose conventions differ.

use vstd::prelude::*;

verus! {

/// A platform, as far as its conventions for paths and shells go.
#[derive(Debug, Clone, Copy, PartialEq, Eq, Structural)]
pub enum Platform {
    /// Linux and the other systems that are neither of the next two.
    Unix,
    /// macOS: a Unix whose paths are the same in either letter case.
    MacOs,
    Windows,
}

} // verus!
