use gilrs_core::flydigi::protocol_v1::{
    decode_extra_buttons, is_v1_input_report, EXTRA_BUTTONS_OFFSET, MIN_REPORT_LEN,
    REPORT_ID, REPORT_LEN, REPORT_MARKER,
};
use gilrs_core::flydigi::types::{
    DecodeError, FlydigiButton, FlydigiButtons, FlydigiInput, ReportDecoder,
};
use gilrs_core::flydigi::Vader4ProDecoder;

/// Builds a minimal synthetic `V1` report with the given extra button byte.
fn report_with(bits: u8) -> [u8; REPORT_LEN] {
    let mut report = [0u8; REPORT_LEN];
    report[0] = REPORT_ID;
    report[1] = REPORT_MARKER;
    report[2] = 0x66;
    report[EXTRA_BUTTONS_OFFSET] = bits;
    report
}

fn buttons(bits: u8) -> FlydigiButtons {
    FlydigiButtons::from_bits(bits)
}

#[test]
fn every_individual_bit() {
    let cases = [
        (0x01, FlydigiButton::C),
        (0x02, FlydigiButton::Z),
        (0x04, FlydigiButton::M1),
        (0x08, FlydigiButton::M2),
        (0x10, FlydigiButton::M3),
        (0x20, FlydigiButton::M4),
    ];

    for (bits, expected) in cases {
        let decoded = decode_extra_buttons(&report_with(bits)).unwrap();
        for button in FlydigiButton::ALL {
            assert_eq!(
                decoded.is_pressed(button),
                button == expected,
                "bits {bits:#04x} decoded as {decoded:?}"
            );
        }
    }
}

#[test]
fn combinations() {
    assert_eq!(
        decode_extra_buttons(&report_with(0x03)).unwrap(),
        FlydigiButtons {
            c: true,
            z: true,
            ..Default::default()
        }
    );

    assert_eq!(
        decode_extra_buttons(&report_with(0x0c)).unwrap(),
        FlydigiButtons {
            m1: true,
            m2: true,
            ..Default::default()
        }
    );

    assert_eq!(
        decode_extra_buttons(&report_with(0x30)).unwrap(),
        FlydigiButtons {
            m3: true,
            m4: true,
            ..Default::default()
        }
    );

    let mut all = FlydigiButtons {
        c: true,
        z: true,
        ..Default::default()
    };
    all.m1 = true;
    all.m2 = true;
    all.m3 = true;
    all.m4 = true;
    assert_eq!(decode_extra_buttons(&report_with(0x3f)).unwrap(), all);
}

#[test]
fn all_zero_means_no_buttons() {
    assert_eq!(
        decode_extra_buttons(&report_with(0x00)).unwrap(),
        FlydigiButtons::default()
    );
}

#[test]
fn all_ones_reports_extension_bits_as_unknown() {
    // 0x40/0x80 are LM/RM on the Vader 5 Pro; on a V4 Pro they are undefined.
    let decoded = decode_extra_buttons(&report_with(0xff)).unwrap();
    assert_eq!(decoded.to_bits(), 0x3f);
    assert!(FlydigiButton::ALL.iter().all(|b| decoded.is_pressed(*b)));
}

#[test]
fn short_reports_are_rejected_without_panicking() {
    for len in 0..MIN_REPORT_LEN {
        let report = report_with(0x3f);
        assert_eq!(decode_extra_buttons(&report[..len]), None, "len {len}");
        assert_eq!(
            Vader4ProDecoder.decode(&report[..len]),
            Err(DecodeError::TooShort)
        );
    }
}

#[test]
fn longer_reports_are_accepted() {
    let mut report = vec![0u8; 64];
    report[0] = REPORT_ID;
    report[1] = REPORT_MARKER;
    report[EXTRA_BUTTONS_OFFSET] = 0x04;
    assert_eq!(decode_extra_buttons(&report), Some(buttons(0x04)));
}

#[test]
fn unexpected_report_ids_are_rejected() {
    let mut report = report_with(0x3f);
    report[0] = 0x05; // a Flydigi command report ID, not an input report
    assert_eq!(decode_extra_buttons(&report), None);
    assert_eq!(
        Vader4ProDecoder.decode(&report),
        Err(DecodeError::UnexpectedReport)
    );

    let mut report = report_with(0x3f);
    report[1] = 0x00;
    assert_eq!(decode_extra_buttons(&report), None);
}

#[test]
fn every_combination_round_trips() {
    for bits in 0u16..=0x3f {
        let bits = bits as u8;
        let report = report_with(bits);
        let decoded = decode_extra_buttons(&report).unwrap();
        assert_eq!(decoded, buttons(bits));
        assert_eq!(decoded.to_bits(), bits);
    }
}

#[test]
fn unknown_bits_do_not_produce_buttons() {
    for bits in 0x40u8..=0xff {
        let decoded = decode_extra_buttons(&report_with(bits)).unwrap();
        let known = FlydigiButtons::from_bits(bits);
        assert_eq!(decoded, known);
        assert_eq!(decoded.to_bits(), bits & 0x3f);
    }
}

#[test]
fn decoder_trait_matches_free_function() {
    for bits in 0u16..=0xff {
        let bits = bits as u8;
        let report = report_with(bits);
        assert_eq!(
            Vader4ProDecoder.decode(&report).unwrap(),
            FlydigiInput {
                buttons: decode_extra_buttons(&report).unwrap()
            }
        );
    }
}

#[test]
fn simultaneous_extra_and_standard_buttons_do_not_interfere() {
    // The standard buttons live in other bytes; changing them must not change the
    // decoded extra buttons.
    let mut report = report_with(0x08);
    report[9] = 0x10 | 0x20; // A + B
    report[10] = 0x04 | 0x08; // LB + RB
    report[15] = 0xff; // left trigger
    report[16] = 0xff; // right trigger

    let decoded = decode_extra_buttons(&report).unwrap();
    assert!(decoded.m2);
    assert_eq!(decoded.to_bits(), 0x08);
}

#[test]
fn minimal_report_is_a_v1_input_report() {
    let report = report_with(0x00);
    assert!(is_v1_input_report(&report[..MIN_REPORT_LEN]));
    assert!(!is_v1_input_report(&report[..MIN_REPORT_LEN - 1]));
    let mut wrong_marker = report;
    wrong_marker[1] = 0xfd;
    assert!(!is_v1_input_report(&wrong_marker));
    assert!(!is_v1_input_report(&[]));
}

#[test]
fn marker_check_gives_unexpected_report_not_too_short() {
    let mut report = report_with(0x3f);
    report[1] = 0x00;
    assert_eq!(
        Vader4ProDecoder.decode(&report[..MIN_REPORT_LEN]),
        Err(DecodeError::UnexpectedReport)
    );
}

#[test]
fn decoder_returns_the_extra_buttons() {
    let report = report_with(0x21);
    assert_eq!(
        Vader4ProDecoder.decode(&report),
        Ok(FlydigiInput {
            buttons: FlydigiButtons {
                c: true,
                m4: true,
                ..Default::default()
            }
        })
    );
}

#[test]
fn only_framing_and_extra_byte_matter_on_concrete_reports() {
    let a = report_with(0x15);
    let mut b = [0xa5u8; 9];
    b[0] = REPORT_ID;
    b[1] = REPORT_MARKER;
    b[EXTRA_BUTTONS_OFFSET] = 0x15;
    assert_eq!(decode_extra_buttons(&a), decode_extra_buttons(&b));
    assert_eq!(Vader4ProDecoder.decode(&a), Vader4ProDecoder.decode(&b));
}
