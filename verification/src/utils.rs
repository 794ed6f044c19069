//! Small helpers shared by the backends.
use vstd::prelude::*;

use std::time::SystemTime;

verus! {

/// The wall clock time type of std.
#[verifier::external_type_specification]
#[verifier::external_body]
pub struct ExSystemTime(SystemTime);

/// Bit `n` of `array`, counting from the least significant bit of `array[0]`.
pub open spec fn bit_of(array: Seq<u8>, n: int) -> bool {
    (array[n / 8] >> ((n % 8) as u8)) & 1u8 == 1u8
}

/// Returns true if nth bit in array is 1.
pub fn test_bit(n: u16, array: &[u8]) -> (r: bool)
    requires
        (n / 8) < array@.len(),
    ensures
        r == bit_of(array@, n as int),
{
    let byte = array[(n / 8) as usize];
    let shift = (n % 8) as u8;
    assert((byte >> shift) & 1u8 != 0u8 <==> (byte >> shift) & 1u8 == 1u8) by (bit_vector);
    (byte >> shift) & 1 != 0
}

/// Nanoseconds in `secs` seconds and `nanos` nanoseconds, as a clock reading
/// (`struct timespec`) is turned into one number.
pub fn timespec_to_ns(secs: u64, nanos: u64) -> (ns: u64)
    requires
        secs * 1_000_000_000 + nanos <= u64::MAX,
    ensures
        ns == secs * 1_000_000_000 + nanos,
{
    secs * 1_000_000_000 + nanos
}

/// The current wall clock time.
///
/// Calls `std::time::SystemTime::now`. What it returns depends on the clock, so
/// nothing is stated of it.
#[verifier::external_body]
pub fn time_now() -> SystemTime {
    SystemTime::now()
}

} // verus!
