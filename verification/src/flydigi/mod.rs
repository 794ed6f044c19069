//! Flydigi vendor HID support.
//!
//! Flydigi "Vader" (and "Apex") controllers hide several physical buttons from the
//! standard gamepad stack: `C`, `Z` and the macro/back buttons `M1`-`M4`. They are
//! only present in a vendor specific byte of the HID report.
//!
//! * [`detect`] - VID/PID based device identification and capabilities.
//! * [`protocol_v1`] - decoder for the first generation vendor protocol, used by the
//!   Vader 2/3/4 Pro (and Apex 2/3/4) when connected in DInput mode.
//! * [`types`] - shared types (button sets, decoded input, decode errors, edge
//!   detection).
//!
//! OS specific code only has to acquire raw reports and feed them to a
//! [`types::ReportDecoder`].
pub mod detect;
pub mod protocol_v1;
pub mod types;

pub use self::detect::{identify, Capabilities, DeviceInfo, Model, Protocol};
pub use self::protocol_v1::Vader4ProDecoder;
pub use self::protocol_v1::{decode_extra_buttons, REPORT_ID, REPORT_LEN};
pub use self::types::{
    ButtonEvent, ButtonState, DecodeError, FlydigiButton, FlydigiButtons, FlydigiInput,
    ReportDecoder,
};
