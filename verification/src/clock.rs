//! The wall clock, in milliseconds.

use vstd::prelude::*;

verus! {

/// Calls `std::time::SystemTime::elapsed` on `std::time::UNIX_EPOCH` and takes the duration apart
/// into whole seconds and the nanoseconds of the second that has begun, of which there are less
/// than a billion; `None` where the clock stands before the epoch. Nothing else is known of it.
#[verifier::external_body]
fn since_epoch() -> (elapsed: Option<(u64, u32)>)
    ensures
        elapsed matches Some((_, nanos)) ==> nanos < 1_000_000_000,
{
    match std::time::UNIX_EPOCH.elapsed() {
        Ok(duration) => Some((duration.as_secs(), duration.subsec_nanos())),
        Err(_) => None,
    }
}

/// Whole milliseconds of a duration, cut to the range of `i64` as a cast does; 0 without one.
pub open spec fn whole_millis(elapsed: Option<(u64, u32)>) -> i64 {
    match elapsed {
        Some((secs, nanos)) => (secs * 1000 + nanos as int / 1_000_000) as u128 as i64,
        None => 0,
    }
}

/// The milliseconds in a duration since the epoch.
pub fn millis(elapsed: Option<(u64, u32)>) -> (ms: i64)
    ensures
        ms == whole_millis(elapsed),
{
    match elapsed {
        Some((secs, nanos)) => {
            let ms: u128 = secs as u128 * 1000 + nanos as u128 / 1_000_000;
            ms as i64
        },
        None => 0,
    }
}

/// The wall clock in milliseconds since the epoch; 0 where it stands before the epoch.
pub fn now_ms() -> (ms: i64)
    ensures
        exists|elapsed: Option<(u64, u32)>| ms == #[trigger] whole_millis(elapsed),
{
    millis(since_epoch())
}

/// The milliseconds of a time that fits are whole, and none is lost or gained: they are the ones
/// in the seconds, and those in the part of a second that has begun.
pub proof fn law_millis(secs: u64, nanos: u32)
    requires
        nanos < 1_000_000_000,
        secs <= 0x1f_ffff_ffff_ffff,
    ensures
        ({
            let ms = whole_millis(Some((secs, nanos)));
            &&& ms / 1000 == secs
            &&& (ms % 1000) * 1_000_000 <= nanos < (ms % 1000 + 1) * 1_000_000
        }),
        whole_millis(None) == 0,
{
    let ms: int = secs * 1000 + nanos as int / 1_000_000;
    assert(0 <= ms <= i64::MAX);
    let wide = ms as u128;
    assert(wide as i64 == wide) by (bit_vector)
        requires
            wide <= 0x7fff_ffff_ffff_ffff,
    ;
}

} // verus!
