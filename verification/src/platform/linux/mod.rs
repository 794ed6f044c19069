//! Linux backend: the parts of the Flydigi hidraw transport that compute.
pub mod flydigi_hid;
