//! Force feedback on iOS.
use vstd::prelude::*;

use std::time::Duration;

verus! {

/// Represents gamepad. Reexported as FfDevice
///
/// Rumble on iOS runs through `GCDeviceHaptics` and CoreHaptics rather than a
/// pair of motor magnitudes, so this is a placeholder: no device is ever handed
/// out.
#[derive(Debug)]
pub struct Device;

impl Device {
    /// Sets magnitude for strong and weak ff motors. A placeholder device has no
    /// motors, so nothing changes.
    pub fn set_ff_state(&mut self, strong: u16, weak: u16, min_duration: Duration)
        ensures
            *final(self) == *old(self),
    {
    }
}

} // verus!
