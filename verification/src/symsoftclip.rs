//! Symmetrical soft clipping.
use vstd::prelude::*;

verus! {

/// Symmetrical soft clipper; it has no settings.
pub struct SymSoftClip {}

impl SymSoftClip {
    /// The soft clipper.
    pub fn new() -> (clip: Self)
        ensures
            clip == (SymSoftClip {}),
    {
        SymSoftClip {}
    }
}

} // verus!
