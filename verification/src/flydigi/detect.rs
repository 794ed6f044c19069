//! Flydigi device identification.
//!
//! Everything here is based on observed USB descriptors. Claims are marked as
//! `CONFIRMED`, `INFERRED` or `UNVERIFIED`. Never turn an `UNVERIFIED` entry into a
//! hard-coded mapping without documenting it - that is why [`identify`] only
//! returns a device for the `CONFIRMED` combinations and [`DeviceInfo::verified`]
//! tells callers how much the identification can be trusted.
use vstd::prelude::*;

use super::protocol_v1::Vader4ProDecoder;

verus! {

/// Flydigi's own USB vendor ID.
///
/// Used by the Vader 5 Pro / Apex 5 2.4 GHz receiver (`37D7:2401`, `37D7:2501`).
/// CONFIRMED - SDL3 `usb_ids.h` `USB_VENDOR_FLYDIGI_V2`.
pub const FLYDIGI_VENDOR_ID: u16 = 0x37d7;

/// Cypress Semiconductor vendor ID.
///
/// Flydigi used a Cypress based wireless receiver for the first protocol
/// generation. CONFIRMED - SDL3 `usb_ids.h` `USB_VENDOR_FLYDIGI_V1`.
pub const CYPRESS_VENDOR_ID: u16 = 0x04b4;

/// Vader 5 Pro (and Vader 4 Pro in DInput mode) vendor product ID behind the
/// Cypress receiver. CONFIRMED - SDL3 `USB_PRODUCT_FLYDIGI_V1_GAMEPAD`.
pub const VADER4_PRO_DINPUT_PRODUCT_ID: u16 = 0x2412;

/// Vader 4 Pro claiming the Flydigi vendor ID directly.
///
/// UNVERIFIED. This combination is not confirmed by any examined implementation.
/// It is therefore *not* part of [`identify`] and remains here only so that the
/// open question is recorded in code.
pub const VADER4_PRO_PRODUCT_ID: u16 = 0x3001;

/// Vader 5 Pro 2.4 GHz receiver. CONFIRMED - SDL3 `USB_PRODUCT_FLYDIGI_V2_VADER`.
pub const VADER5_PRO_PRODUCT_ID: u16 = 0x2401;

/// Apex 5 2.4 GHz receiver. CONFIRMED - SDL3 `USB_PRODUCT_FLYDIGI_V2_APEX`.
pub const APEX5_PRODUCT_ID: u16 = 0x2501;

/// Vendor HID usage page used by the second generation Flydigi devices.
pub const VENDOR_USAGE_PAGE: u32 = 0xffa0;

/// Vendor protocol generation.
#[derive(Debug, Clone, Copy, PartialEq, Eq, Structural, Hash)]
pub enum Protocol {
    /// Numbered reports (`Report ID 0x04`), no initialization required, extra
    /// buttons in the same report as the standard buttons.
    V1,
    /// `5A A5` framed reports on a separate vendor HID interface. Requires an
    /// initialization handshake before it emits input reports.
    V2,
}

/// Model family as far as it can be determined from USB IDs alone.
#[derive(Debug, Clone, Copy, PartialEq, Eq, Structural, Hash)]
pub enum Model {
    /// Vader 2/2 Pro/3/3 Pro/4 Pro (and Apex 2/3/4).
    Vader4Family,
    /// Vader 5 Pro.
    Vader5Pro,
    /// Apex 5.
    Apex5,
    /// A Flydigi device that could not be identified more precisely.
    Unknown,
}

/// Which extra buttons the device is known to have.
#[derive(Debug, Clone, Copy, PartialEq, Eq, Structural, Hash)]
pub struct Capabilities {
    pub c: bool,
    pub z: bool,
    pub m1: bool,
    pub m2: bool,
    pub m3: bool,
    pub m4: bool,
}

impl Capabilities {
    /// No extra buttons.
    pub open spec fn spec_none() -> Capabilities {
        Capabilities { c: false, z: false, m1: false, m2: false, m3: false, m4: false }
    }

    /// `C`, `Z` and `M1`-`M4`, as exposed by the V1 protocol.
    pub open spec fn spec_cz_m1_m4() -> Capabilities {
        Capabilities { c: true, z: true, m1: true, m2: true, m3: true, m4: true }
    }

    /// No extra buttons.
    #[verifier::when_used_as_spec(spec_none)]
    pub fn none() -> (r: Capabilities)
        ensures
            r == Capabilities::spec_none(),
    {
        Capabilities { c: false, z: false, m1: false, m2: false, m3: false, m4: false }
    }

    /// `C`, `Z` and `M1`-`M4`, as exposed by the V1 protocol.
    #[verifier::when_used_as_spec(spec_cz_m1_m4)]
    pub fn cz_m1_m4() -> (r: Capabilities)
        ensures
            r == Capabilities::spec_cz_m1_m4(),
    {
        Capabilities { c: true, z: true, m1: true, m2: true, m3: true, m4: true }
    }
}

impl Default for Capabilities {
    fn default() -> (r: Capabilities)
        ensures
            r == Capabilities::spec_none(),
    {
        Capabilities::none()
    }
}

/// Identification result for a USB VID/PID pair.
#[derive(Debug, Clone, Copy, PartialEq, Eq, Structural, Hash)]
pub struct DeviceInfo {
    pub vendor_id: u16,
    pub product_id: u16,
    pub model: Model,
    pub protocol: Protocol,
    pub capabilities: Capabilities,
    /// `true` when the VID/PID pair is confirmed by an independent implementation.
    pub verified: bool,
}

impl DeviceInfo {
    /// Returns the decoder that should be used for reports from this device.
    pub fn decoder(self) -> (d: Vader4ProDecoder)
        ensures
            d == Vader4ProDecoder,
    {
        Vader4ProDecoder
    }
}

/// Model and protocol of the confirmed VID/PID combinations.
pub open spec fn confirmed_device(vendor_id: u16, product_id: u16) -> Option<(Model, Protocol)> {
    if vendor_id == CYPRESS_VENDOR_ID && product_id == VADER4_PRO_DINPUT_PRODUCT_ID {
        Some((Model::Vader4Family, Protocol::V1))
    } else if vendor_id == FLYDIGI_VENDOR_ID && product_id == VADER5_PRO_PRODUCT_ID {
        Some((Model::Vader5Pro, Protocol::V2))
    } else if vendor_id == FLYDIGI_VENDOR_ID && product_id == APEX5_PRODUCT_ID {
        Some((Model::Apex5, Protocol::V2))
    } else {
        None
    }
}

/// What [`identify`] answers for a VID/PID pair.
pub open spec fn identified(vendor_id: u16, product_id: u16) -> Option<DeviceInfo> {
    match confirmed_device(vendor_id, product_id) {
        Some((model, protocol)) => Some(
            DeviceInfo {
                vendor_id,
                product_id,
                model,
                protocol,
                capabilities: Capabilities::cz_m1_m4(),
                verified: true,
            },
        ),
        None => None,
    }
}

/// Identifies a Flydigi controller from its USB IDs.
///
/// Only confirmed combinations return `Some`. `None` means "this is not a known
/// Flydigi device", which is the answer callers must handle by doing nothing at
/// all.
pub fn identify(vendor_id: u16, product_id: u16) -> (r: Option<DeviceInfo>)
    ensures
        r == identified(vendor_id, product_id),
{
    if vendor_id == CYPRESS_VENDOR_ID && product_id == VADER4_PRO_DINPUT_PRODUCT_ID {
        // CONFIRMED: Cypress receiver, V1 protocol, DInput mode.
        Some(
            DeviceInfo {
                vendor_id,
                product_id,
                model: Model::Vader4Family,
                protocol: Protocol::V1,
                capabilities: Capabilities::cz_m1_m4(),
                verified: true,
            },
        )
    } else if vendor_id == FLYDIGI_VENDOR_ID && product_id == VADER5_PRO_PRODUCT_ID {
        // CONFIRMED: Vader 5 Pro 2.4 GHz receiver. The vendor HID interface is a
        // separate interface and needs initialization, so no decoder is wired up
        // yet - but the device is recognized so callers can report it.
        Some(
            DeviceInfo {
                vendor_id,
                product_id,
                model: Model::Vader5Pro,
                protocol: Protocol::V2,
                capabilities: Capabilities::cz_m1_m4(),
                verified: true,
            },
        )
    } else if vendor_id == FLYDIGI_VENDOR_ID && product_id == APEX5_PRODUCT_ID {
        // CONFIRMED: Apex 5 2.4 GHz receiver.
        Some(
            DeviceInfo {
                vendor_id,
                product_id,
                model: Model::Apex5,
                protocol: Protocol::V2,
                capabilities: Capabilities::cz_m1_m4(),
                verified: true,
            },
        )
    } else {
        None
    }
}

/// Returns `true` if `vendor_id`/`product_id` is a confirmed V1 Flydigi device.
pub fn is_vader4_pro(vendor_id: u16, product_id: u16) -> (r: bool)
    ensures
        r == (identified(vendor_id, product_id) matches Some(info) && info.protocol
            == Protocol::V1),
{
    match identify(vendor_id, product_id) {
        Some(info) => info.protocol == Protocol::V1,
        None => false,
    }
}

/// Law: a device is identified only with the IDs it was asked about, and only as
/// a confirmed device with all six extra buttons.
pub proof fn lemma_identify_echoes_ids(vendor_id: u16, product_id: u16)
    ensures
        identified(vendor_id, product_id) matches Some(info) ==> info.vendor_id == vendor_id
            && info.product_id == product_id && info.verified && info.capabilities
            == Capabilities::cz_m1_m4() && info.model != Model::Unknown,
{
}

/// Law: the only confirmed `V1` device is the Cypress receiver in DInput mode;
/// the unverified Flydigi product ID is not recognized at all.
pub proof fn lemma_only_cypress_receiver_speaks_v1(vendor_id: u16, product_id: u16)
    ensures
        (identified(vendor_id, product_id) matches Some(info) && info.protocol == Protocol::V1)
            <==> (vendor_id == CYPRESS_VENDOR_ID && product_id == VADER4_PRO_DINPUT_PRODUCT_ID),
        identified(FLYDIGI_VENDOR_ID, VADER4_PRO_PRODUCT_ID) is None,
{
}

/// Law: exactly three vendor/product pairs are identified: `04B4:2412`,
/// `37D7:2401` and `37D7:2501`; so every identified device has the Cypress or
/// the Flydigi vendor ID.
pub proof fn lemma_identified_pairs(vendor_id: u16, product_id: u16)
    ensures
        identified(vendor_id, product_id) is Some <==> ((vendor_id == 0x04b4u16 && product_id
            == 0x2412u16) || (vendor_id == 0x37d7u16 && product_id == 0x2401u16) || (vendor_id
            == 0x37d7u16 && product_id == 0x2501u16)),
        identified(vendor_id, product_id) matches Some(info) ==> (info.vendor_id == 0x04b4u16
            || info.vendor_id == 0x37d7u16),
{
}

} // verus!
