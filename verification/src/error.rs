//! What can go wrong with a tray.

use vstd::prelude::*;

verus! {

/// Why a tray could not be made or changed.
#[derive(Clone, Copy, Debug, PartialEq, Eq)]
pub enum WindowsTrayError {
    /// Trays are not available here.
    Unsupported,
    /// The icon could not be read, or the system made no icon of it.
    BadIcon,
    /// The named system function failed.
    ApiFailed(&'static str),
}

} // verus!
