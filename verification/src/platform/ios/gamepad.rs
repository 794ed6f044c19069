//! Native event codes of the GameController.framework backend.
//!
//! The framework hands over buttons already named — `buttonA`, `leftShoulder`,
//! `dpad.up` — so no SDL mapping is involved and the codes below are reported
//! straight.
use vstd::prelude::*;

verus! {

/// A native event code of the iOS backend.
#[derive(Copy, Clone, Debug, Eq, PartialEq, Structural, Ord, PartialOrd, Hash)]
pub struct EvCode(pub u8);

impl EvCode {
    /// The code as a `u32`.
    pub fn into_u32(self) -> (r: u32)
        ensures
            r == self.0 as u32,
    {
        self.0 as u32
    }
}

} // verus!

/// The native codes, and the order in which a sample lists buttons and axes.
pub mod native_ev_codes;
