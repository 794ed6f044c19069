//! Platform independent core of the gamepad input library: the Flydigi vendor
//! protocol (device identification, report decoding, button edge detection) and
//! the small pieces of platform code that only compute.
pub mod flydigi;
pub mod platform;
pub mod utils;
