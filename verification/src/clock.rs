//! The wall clock, as whole numbers.
use vstd::prelude::*;

verus! {

/// `SystemTime::now`, as the nanoseconds since the Unix epoch, or `None` where
/// the clock stands before it. Nothing is known of the reading.
#[verifier::external_body]
fn clock_nanos() -> (r: Option<u128>) {
    std::time::SystemTime::now().duration_since(std::time::UNIX_EPOCH).ok().map(|d| d.as_nanos())
}

/// The low 64 bits of a number.
pub open spec fn low_64(n: int) -> int {
    n % 0x1_0000_0000_0000_0000
}

/// A clock reading in nanoseconds, in 64 bits; zero before the epoch.
pub fn unix_nanos_from(reading: Option<u128>) -> (r: u64)
    ensures
        r == (match reading {
            Some(n) => low_64(n as int),
            None => 0,
        }),
{
    match reading {
        Some(n) => {
            assert(n as u64 == n % 0x1_0000_0000_0000_0000u128) by (bit_vector);
            n as u64
        },
        None => 0,
    }
}

/// A clock reading in milliseconds, in 64 bits; zero before the epoch.
pub fn unix_millis_from(reading: Option<u128>) -> (r: u64)
    ensures
        r == (match reading {
            Some(n) => low_64(n as int / 1_000_000),
            None => 0,
        }),
{
    match reading {
        Some(n) => {
            let millis: u128 = n / 1_000_000;
            assert(millis as u64 == millis % 0x1_0000_0000_0000_0000u128) by (bit_vector);
            millis as u64
        },
        None => 0,
    }
}

/// The current time in nanoseconds since the Unix epoch. Nothing is known of
/// it but that it is a reading of the clock.
pub(crate) fn now_unix_nanos() -> (r: u64) {
    unix_nanos_from(clock_nanos())
}

/// The current time in milliseconds since the Unix epoch. Nothing is known of
/// it but that it is a reading of the clock.
pub(crate) fn now_unix_millis() -> (r: u64) {
    unix_millis_from(clock_nanos())
}

} // verus!
