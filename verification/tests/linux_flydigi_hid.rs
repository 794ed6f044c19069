use gilrs_core::flydigi::protocol_v1::{EXTRA_BUTTONS_OFFSET, REPORT_ID, REPORT_LEN};
use gilrs_core::flydigi::types::{DecodeError, FlydigiButton};
use gilrs_core::platform::linux::flydigi_hid::{
    button_index, parse_hid_id, select_codes, ReportRouter, N_BUTTONS,
};

/// Native codes used by these tests, in `FlydigiButton::ALL` order.
const BTN_C: u16 = 0x132;
const BTN_Z: u16 = 0x135;
const BTN_SOUTH: u16 = 0x130;
const BTN_M1: u16 = 0x2e0;
const BTN_M2: u16 = 0x2e1;
const BTN_M3: u16 = 0x2e2;
const BTN_M4: u16 = 0x2e3;
const NATIVE: [u16; N_BUTTONS] = [BTN_C, BTN_Z, BTN_M1, BTN_M2, BTN_M3, BTN_M4];

fn router(evdev_buttons: &[u16]) -> ReportRouter<u16> {
    ReportRouter::new(select_codes(
        evdev_buttons.contains(&BTN_C),
        evdev_buttons.contains(&BTN_Z),
        NATIVE,
    ))
}

fn push(router: &mut ReportRouter<u16>, report: &[u8]) -> Vec<(u16, bool)> {
    router.push_report(report).unwrap_or_default()
}

#[test]
fn parses_hid_id() {
    let uevent = "DRIVER=hid-generic\nHID_ID=0003:000004B4:00002412\nHID_NAME=Flydigi \
                  VADER4\nHID_PHYS=usb-0000:00:14.0-3/input2\n";
    assert_eq!(parse_hid_id(uevent), Some((0x04b4, 0x2412)));
}

#[test]
fn rejects_malformed_hid_id() {
    assert_eq!(parse_hid_id(""), None);
    assert_eq!(parse_hid_id("DRIVER=hid-generic\n"), None);
    assert_eq!(parse_hid_id("HID_ID=0003:000004B4\n"), None);
    assert_eq!(parse_hid_id("HID_ID=0003:zzzz:00002412\n"), None);
    assert_eq!(parse_hid_id("HID_ID=0003:000004B4:00002412:extra\n"), None);
}

#[test]
fn hid_id_edge_cases_follow_from_str_radix_and_trim() {
    // Only the first HID_ID line counts.
    assert_eq!(
        parse_hid_id("HID_ID=0003:1:2\nHID_ID=0003:3:4\n"),
        Some((1, 2))
    );
    // The key must start a line.
    assert_eq!(parse_hid_id("X HID_ID=0003:1:2\n"), None);
    // White space around the value is trimmed, including CRLF line ends.
    assert_eq!(parse_hid_id("HID_ID= \t0003:04b4:2412 \r\n"), Some((0x04b4, 0x2412)));
    // A leading '+' is accepted, as from_str_radix does.
    assert_eq!(parse_hid_id("HID_ID=0003:+4b4:+2412"), Some((0x04b4, 0x2412)));
    // Values above 16 bits, empty fields and signs are rejected.
    assert_eq!(parse_hid_id("HID_ID=0003:00010000:2412"), None);
    assert_eq!(parse_hid_id("HID_ID=0003::2412"), None);
    assert_eq!(parse_hid_id("HID_ID=0003:+:2412"), None);
    assert_eq!(parse_hid_id("HID_ID=0003:-1:2412"), None);
    // White space inside a field is not trimmed.
    assert_eq!(parse_hid_id("HID_ID=0003: 4b4:2412"), None);
    // The bus field may hold anything but a colon.
    assert_eq!(parse_hid_id("HID_ID=bus?:FFFF:0"), Some((0xffff, 0)));
    // Non-ASCII white space is trimmed as well.
    assert_eq!(parse_hid_id("HID_ID=\u{3000}1:2:3\u{a0}"), Some((2, 3)));
}

#[test]
fn button_indices_follow_all() {
    for (i, button) in FlydigiButton::ALL.iter().enumerate() {
        assert_eq!(button_index(*button), i);
    }
}

#[test]
fn c_and_z_are_not_synthesized_when_evdev_exposes_them() {
    let exposed = [BTN_C, BTN_Z, BTN_SOUTH];
    let codes = select_codes(
        exposed.contains(&BTN_C),
        exposed.contains(&BTN_Z),
        NATIVE,
    );
    assert_eq!(codes[0], None);
    assert_eq!(codes[1], None);
    assert_eq!(codes[2], Some(BTN_M1));

    let exposed = [BTN_SOUTH];
    let codes = select_codes(
        exposed.contains(&BTN_C),
        exposed.contains(&BTN_Z),
        NATIVE,
    );
    assert_eq!(codes[0], Some(BTN_C));
    assert_eq!(codes[1], Some(BTN_Z));
}

/// End to end test of the decode path without hardware: feed synthetic reports
/// into the router and check the emitted code events.
#[test]
fn decodes_synthetic_reports_into_events() {
    let mut reader = router(&[]);

    let mut report = [0u8; REPORT_LEN];
    report[0] = REPORT_ID;
    report[1] = 0xfe;
    report[EXTRA_BUTTONS_OFFSET] = 0x00;

    assert!(push(&mut reader, &report).is_empty());

    // M1 + M2 pressed in one report.
    report[EXTRA_BUTTONS_OFFSET] = 0x0c;
    let events = push(&mut reader, &report);
    assert_eq!(events, vec![(BTN_M1, true), (BTN_M2, true)]);

    // Holding them must not repeat the events.
    assert!(push(&mut reader, &report).is_empty());

    // Add C and release M1.
    report[EXTRA_BUTTONS_OFFSET] = 0x08 | 0x01;
    let events = push(&mut reader, &report);
    assert_eq!(events, vec![(BTN_C, true), (BTN_M1, false)]);

    // Release everything.
    report[EXTRA_BUTTONS_OFFSET] = 0x00;
    let events = push(&mut reader, &report);
    assert_eq!(events, vec![(BTN_C, false), (BTN_M2, false)]);
}

#[test]
fn ignores_unrelated_reports() {
    let mut reader = router(&[]);

    // Flydigi command report (report ID 0x05) and the V2 idle packet.
    let mut command = [0u8; REPORT_LEN];
    command[0] = 0x05;
    command[1] = 0xec;
    assert!(push(&mut reader, &command).is_empty());

    let mut idle = [0u8; REPORT_LEN];
    idle[0] = 0x5a;
    idle[1] = 0xa5;
    idle[2] = 0xef;
    assert!(push(&mut reader, &idle).is_empty());
}

#[test]
fn exposed_c_produces_no_events_and_errors_keep_state() {
    let mut reader = router(&[BTN_C]);
    assert_eq!(reader.codes(), vec![BTN_Z, BTN_M1, BTN_M2, BTN_M3, BTN_M4]);

    let mut report = [0u8; REPORT_LEN];
    report[0] = REPORT_ID;
    report[1] = 0xfe;
    report[EXTRA_BUTTONS_OFFSET] = 0x05; // C + M1
    assert_eq!(reader.push_report(&report), Ok(vec![(BTN_M1, true)]));

    // A short report is an error and changes nothing.
    assert_eq!(reader.push_report(&report[..3]), Err(DecodeError::TooShort));
    let mut command = report;
    command[0] = 0x05;
    assert_eq!(reader.push_report(&command), Err(DecodeError::UnexpectedReport));
    assert!(push(&mut reader, &report).is_empty());
}
