//! Wall-clock time in milliseconds since the Unix epoch.
use vstd::prelude::*;

verus! {

/// Calls `std::time::SystemTime::now` and gives the milliseconds elapsed since
/// the Unix epoch, or `None` when the clock stands before the epoch. Nothing
/// is claimed of the value: it is the machine's clock.
#[verifier::external_body]
fn system_millis_since_epoch() -> (ms: Option<u128>) {
    std::time::SystemTime::now()
        .duration_since(std::time::UNIX_EPOCH)
        .ok()
        .map(|elapsed| elapsed.as_millis())
}

/// Milliseconds as a `u64`: the low 64 bits of a reading, 0 when there is none.
pub fn millis_as_u64(reading: Option<u128>) -> (ms: u64)
    ensures
        ms == match reading {
            Some(m) => m as u64,
            None => 0u64,
        },
{
    match reading {
        Some(m) => #[verifier::truncate] (m as u64),
        None => 0,
    }
}

/// The current time in milliseconds since the Unix epoch (0 when the clock
/// stands before the epoch).
pub fn now_ms() -> (ms: u64) {
    millis_as_u64(system_millis_since_epoch())
}

} // verus!
