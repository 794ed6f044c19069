//! GameController.framework backend, for iOS: the native event codes and the
//! force feedback placeholder.
pub mod ff;
pub mod gamepad;

pub use self::ff::Device as FfDevice;
pub use self::gamepad::{native_ev_codes, EvCode};

use vstd::prelude::*;

verus! {

/// True, if Y axis of sticks points downwards.
///
/// GameController reports 1 fully up and -1 fully down, as XInput does, so this
/// is `false` here where the macOS IOKit backend has it `true`.
pub const IS_Y_AXIS_REVERSED: bool = false;

} // verus!
