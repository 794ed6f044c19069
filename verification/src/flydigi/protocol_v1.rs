//! Decoder for the first generation Flydigi vendor protocol.
//!
//! # Report layout
//!
//! ```text
//! offset  size  content
//! ------  ----  -------
//! 0       1     report ID (0x04)
//! 1       1     0xFE (fixed marker)
//! 2       1     unknown (observed 0x66)
//! 3       1     air mouse active flag (0x80) on the Vader 4 Pro
//! 4..6    3     legacy motion data
//! 7       1     extra buttons: C, Z, M1, M2, M3, M4
//! 8       1     system buttons: 0x01 = Fn/'+', 0x08 = Home
//! 9       1     D-Pad (low nibble) + A/B/Select/X
//! 10      1     Y/Start/LB/RB/LT/RT/LS/RS
//! 11..31  ..    accelerometer, sticks, triggers, gyroscope
//! ```
//!
//! Only offset 0, 1 and 7 are used by this decoder. Everything else is left to the
//! platform's normal gamepad handling, so this decoder cannot interfere with the
//! standard buttons, sticks or triggers.
use vstd::prelude::*;

use super::types::{DecodeError, FlydigiButtons, FlydigiInput, ReportDecoder};

verus! {

/// HID report ID of the `V1` vendor input report.
pub const REPORT_ID: u8 = 0x04;

/// Second byte of the `V1` vendor input report.
pub const REPORT_MARKER: u8 = 0xfe;

/// Offset of the extra button byte.
pub const EXTRA_BUTTONS_OFFSET: usize = 7;

/// Length of the report as observed for this controller family.
pub const REPORT_LEN: usize = 32;

/// The decoder needs the report ID, the marker and the extra button byte.
pub const MIN_REPORT_LEN: usize = EXTRA_BUTTONS_OFFSET + 1;

/// A `V1` vendor input report: long enough to hold the extra button byte, and
/// starting with the report ID and the marker byte.
pub open spec fn is_v1_report(report: Seq<u8>) -> bool {
    report.len() >= MIN_REPORT_LEN && report[0] == REPORT_ID && report[1] == REPORT_MARKER
}

/// The extra buttons that a report carries, if it is a `V1` input report.
pub open spec fn extra_buttons(report: Seq<u8>) -> Option<FlydigiButtons> {
    if is_v1_report(report) {
        Some(FlydigiButtons::decoded(report[EXTRA_BUTTONS_OFFSET as int]))
    } else {
        None
    }
}

/// What the `V1` decoder makes of a report: too short, not a `V1` input report,
/// or the extra buttons it carries.
pub open spec fn v1_decoded(report: Seq<u8>) -> Result<FlydigiInput, DecodeError> {
    if report.len() < MIN_REPORT_LEN {
        Err(DecodeError::TooShort)
    } else if !is_v1_report(report) {
        Err(DecodeError::UnexpectedReport)
    } else {
        Ok(FlydigiInput { buttons: FlydigiButtons::decoded(report[EXTRA_BUTTONS_OFFSET as int]) })
    }
}

/// Returns `true` if `report` looks like a `V1` vendor input report.
///
/// This is deliberately strict (report ID *and* marker byte) because it is used to
/// decide whether a device that only matched by VID/PID really speaks this protocol.
pub fn is_v1_input_report(report: &[u8]) -> (r: bool)
    ensures
        r == is_v1_report(report@),
{
    report.len() >= MIN_REPORT_LEN && report[0] == REPORT_ID && report[1] == REPORT_MARKER
}

/// Decodes the extra buttons (`C`, `Z`, `M1`-`M4`) from a `V1` report.
///
/// Returns `None` if the report is too short or does not carry the expected report
/// ID/marker. Never panics, whatever the length of `report`.
pub fn decode_extra_buttons(report: &[u8]) -> (r: Option<FlydigiButtons>)
    ensures
        r == extra_buttons(report@),
{
    if !is_v1_input_report(report) {
        return None;
    }
    Some(FlydigiButtons::from_bits(report[EXTRA_BUTTONS_OFFSET]))
}

/// [`ReportDecoder`] implementation for the `V1` protocol.
///
/// Used by every platform backend that can read the vendor report; the decoder itself
/// has no OS dependencies.
#[derive(Debug, Clone, Copy, Default, PartialEq, Eq, Structural, Hash)]
pub struct Vader4ProDecoder;

impl ReportDecoder for Vader4ProDecoder {
    fn decode(&self, report: &[u8]) -> (r: Result<FlydigiInput, DecodeError>)
        ensures
            r == v1_decoded(report@),
    {
        if report.len() < MIN_REPORT_LEN {
            return Err(DecodeError::TooShort);
        }
        match decode_extra_buttons(report) {
            Some(buttons) => Ok(FlydigiInput { buttons }),
            None => Err(DecodeError::UnexpectedReport),
        }
    }
}

/// Law: the decoder and [`decode_extra_buttons`] agree: a report of at least
/// [`MIN_REPORT_LEN`] bytes decodes to the extra buttons when there are any and
/// is an unexpected report otherwise; a shorter one is too short.
pub proof fn lemma_decoder_matches_free_function(report: Seq<u8>)
    ensures
        report.len() < MIN_REPORT_LEN ==> v1_decoded(report) == Err::<FlydigiInput, DecodeError>(
            DecodeError::TooShort,
        ) && extra_buttons(report) is None,
        report.len() >= MIN_REPORT_LEN ==> v1_decoded(report) == (match extra_buttons(report) {
            Some(buttons) => Ok(FlydigiInput { buttons }),
            None => Err(DecodeError::UnexpectedReport),
        }),
{
}

/// Law: only the report ID, the marker and the extra button byte matter. Two
/// reports long enough for the decoder that agree on those bytes decode alike,
/// whatever their length and their other bytes (the standard buttons, sticks and
/// triggers).
pub proof fn lemma_only_framing_and_extra_byte_matter(a: Seq<u8>, b: Seq<u8>)
    requires
        a.len() >= MIN_REPORT_LEN,
        b.len() >= MIN_REPORT_LEN,
        a[0] == b[0],
        a[1] == b[1],
        a[EXTRA_BUTTONS_OFFSET as int] == b[EXTRA_BUTTONS_OFFSET as int],
    ensures
        extra_buttons(a) == extra_buttons(b),
        v1_decoded(a) == v1_decoded(b),
{
}

/// Law: only reports that carry the report ID and the marker yield buttons.
pub proof fn lemma_buttons_need_framing(report: Seq<u8>)
    ensures
        extra_buttons(report) is Some <==> (report.len() >= MIN_REPORT_LEN && report[0]
            == REPORT_ID && report[1] == REPORT_MARKER),
{
}

} // verus!
