use gilrs_core::flydigi::detect::{
    identify, is_vader4_pro, Capabilities, Model, Protocol, APEX5_PRODUCT_ID, CYPRESS_VENDOR_ID,
    FLYDIGI_VENDOR_ID, VADER4_PRO_DINPUT_PRODUCT_ID, VADER4_PRO_PRODUCT_ID, VADER5_PRO_PRODUCT_ID,
};
use gilrs_core::flydigi::Vader4ProDecoder;

#[test]
fn confirmed_vader4_pro_is_recognized() {
    let info = identify(CYPRESS_VENDOR_ID, VADER4_PRO_DINPUT_PRODUCT_ID).unwrap();
    assert_eq!(info.model, Model::Vader4Family);
    assert_eq!(info.protocol, Protocol::V1);
    assert!(info.verified);
    assert_eq!(info.capabilities, Capabilities::cz_m1_m4());
    assert!(is_vader4_pro(
        CYPRESS_VENDOR_ID,
        VADER4_PRO_DINPUT_PRODUCT_ID
    ));
}

#[test]
fn unverified_vader4_pro_pid_is_not_activated() {
    assert_eq!(identify(FLYDIGI_VENDOR_ID, VADER4_PRO_PRODUCT_ID), None);
    assert!(!is_vader4_pro(FLYDIGI_VENDOR_ID, VADER4_PRO_PRODUCT_ID));
}

#[test]
fn vader5_pro_is_recognized_but_uses_v2() {
    let info = identify(FLYDIGI_VENDOR_ID, VADER5_PRO_PRODUCT_ID).unwrap();
    assert_eq!(info.model, Model::Vader5Pro);
    assert_eq!(info.protocol, Protocol::V2);
    assert!(!is_vader4_pro(FLYDIGI_VENDOR_ID, VADER5_PRO_PRODUCT_ID));
}

#[test]
fn unrelated_devices_are_rejected() {
    assert_eq!(identify(0x045e, 0x028e), None); // Xbox 360 / XInput
    assert_eq!(identify(0x054c, 0x09cc), None); // DualShock 4
    assert_eq!(identify(0x0f0d, 0x00c1), None); // HORIPAD
    assert_eq!(identify(CYPRESS_VENDOR_ID, 0x0000), None);
    assert_eq!(identify(FLYDIGI_VENDOR_ID, 0x0000), None);
}

#[test]
fn apex5_is_recognized_with_all_fields() {
    let info = identify(FLYDIGI_VENDOR_ID, APEX5_PRODUCT_ID).unwrap();
    assert_eq!(info.vendor_id, FLYDIGI_VENDOR_ID);
    assert_eq!(info.product_id, APEX5_PRODUCT_ID);
    assert_eq!(info.model, Model::Apex5);
    assert_eq!(info.protocol, Protocol::V2);
    assert!(info.verified);
    assert_eq!(info.capabilities, Capabilities::cz_m1_m4());
    assert!(!is_vader4_pro(FLYDIGI_VENDOR_ID, APEX5_PRODUCT_ID));
}

#[test]
fn swapped_vendor_and_product_are_rejected() {
    assert_eq!(identify(VADER4_PRO_DINPUT_PRODUCT_ID, CYPRESS_VENDOR_ID), None);
    assert_eq!(identify(CYPRESS_VENDOR_ID, VADER5_PRO_PRODUCT_ID), None);
    assert_eq!(identify(FLYDIGI_VENDOR_ID, VADER4_PRO_DINPUT_PRODUCT_ID), None);
}

#[test]
fn capabilities_constants() {
    let none = Capabilities::none();
    assert!(!none.c && !none.z && !none.m1 && !none.m2 && !none.m3 && !none.m4);
    assert_eq!(Capabilities::default(), none);
    let all = Capabilities::cz_m1_m4();
    assert!(all.c && all.z && all.m1 && all.m2 && all.m3 && all.m4);
}

#[test]
fn every_device_uses_the_v1_decoder() {
    let info = identify(CYPRESS_VENDOR_ID, VADER4_PRO_DINPUT_PRODUCT_ID).unwrap();
    assert_eq!(info.decoder(), Vader4ProDecoder);
}
