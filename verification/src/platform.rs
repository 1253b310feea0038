//! What the parts of a backend share.

use vstd::prelude::*;

verus! {

/// Why a platform could not do what was asked of it.
#[derive(Debug)]
pub enum PlatformError {
    /// No default platform was selected, or no platform could be initialized.
    NoPlatform,
    /// The platform does not provide an event loop.
    NoEventLoopProvider,
    /// There is already a platform set from another thread.
    SetPlatformError,
    /// Another error, as a text.
    Other(String),
    /// Another error, which its owner keeps under this number.
    OtherError(usize),
}

/// A size in physical pixels.
#[derive(Clone, Copy, Debug, PartialEq, Eq, Structural)]
pub struct PhysicalSize {
    pub width: u32,
    pub height: u32,
}

} // verus!
