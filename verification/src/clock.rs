//! The wall clock, read as time since the Unix epoch.

use vstd::prelude::*;

verus! {

/// Milliseconds of a time given as whole seconds and nanoseconds, modulo 2^64.
pub open spec fn millis_of(secs: u64, nanos: u32) -> int {
    (secs * 1_000 + nanos as int / 1_000_000) % 0x1_0000_0000_0000_0000
}

/// Microseconds of a time given as whole seconds and nanoseconds, modulo 2^64.
pub open spec fn micros_of(secs: u64, nanos: u32) -> int {
    (secs * 1_000_000 + nanos as int / 1_000) % 0x1_0000_0000_0000_0000
}

/// Calls `SystemTime::elapsed` on the Unix epoch: the time that has passed since then, as whole seconds
/// and the nanoseconds of the second that has begun. `None` stands for the error that the clock is set
/// to a time before the epoch. The reading depends on the machine's clock, so all that is claimed of it
/// is that the nanoseconds make up less than a second.
#[verifier::external_body]
fn since_epoch() -> (reading: Option<(u64, u32)>)
    ensures
        reading matches Some((_, nanos)) ==> nanos < 1_000_000_000,
{
    match std::time::UNIX_EPOCH.elapsed() {
        Ok(passed) => Some((passed.as_secs(), passed.subsec_nanos())),
        Err(_) => None,
    }
}

/// The milliseconds in a time given as whole seconds and nanoseconds; the upper bits are cut off where
/// they do not fit.
pub fn to_millis(secs: u64, nanos: u32) -> (millis: u64)
    ensures
        millis == millis_of(secs, nanos),
{
    let wide: u128 = secs as u128 * 1_000 + (nanos / 1_000_000) as u128;
    let millis = wide as u64;
    assert(millis == wide % 0x1_0000_0000_0000_0000) by (bit_vector)
        requires
            millis == wide as u64,
    ;
    millis
}

/// The microseconds in a time given as whole seconds and nanoseconds; the upper bits are cut off where
/// they do not fit.
pub fn to_micros(secs: u64, nanos: u32) -> (micros: u64)
    ensures
        micros == micros_of(secs, nanos),
{
    let wide: u128 = secs as u128 * 1_000_000 + (nanos / 1_000) as u128;
    let micros = wide as u64;
    assert(micros == wide % 0x1_0000_0000_0000_0000) by (bit_vector)
        requires
            micros == wide as u64,
    ;
    micros
}

/// The milliseconds of a reading of the clock; `None` where there is none, because the clock is set to a
/// time before the Unix epoch.
pub fn reading_to_millis(reading: Option<(u64, u32)>) -> (millis: Option<u64>)
    ensures
        match reading {
            Some((secs, nanos)) => millis matches Some(ms) && ms == millis_of(secs, nanos),
            None => millis is None,
        },
{
    match reading {
        Some((secs, nanos)) => Some(to_millis(secs, nanos)),
        None => None,
    }
}

/// The microseconds of a reading of the clock; `None` where there is none, because the clock is set to a
/// time before the Unix epoch.
pub fn reading_to_micros(reading: Option<(u64, u32)>) -> (micros: Option<u64>)
    ensures
        match reading {
            Some((secs, nanos)) => micros matches Some(us) && us == micros_of(secs, nanos),
            None => micros is None,
        },
{
    match reading {
        Some((secs, nanos)) => Some(to_micros(secs, nanos)),
        None => None,
    }
}

/// The current time in milliseconds since the Unix epoch; `None` where the clock is set to a time before
/// it.
pub fn now_ms() -> (now: Option<u64>)
    ensures
        now matches Some(ms) ==> exists|secs: u64, nanos: u32|
            nanos < 1_000_000_000 && ms == #[trigger] millis_of(secs, nanos),
{
    reading_to_millis(since_epoch())
}

/// The current time in microseconds since the Unix epoch; `None` where the clock is set to a time before
/// it.
pub fn now_us() -> (now: Option<u64>)
    ensures
        now matches Some(us) ==> exists|secs: u64, nanos: u32|
            nanos < 1_000_000_000 && us == #[trigger] micros_of(secs, nanos),
{
    reading_to_micros(since_epoch())
}

/// The milliseconds of a reading are the whole milliseconds in that time, modulo 2^64, and so
/// for microseconds.
pub proof fn lemma_readings_count_whole_units(
    secs: u64,
    nanos: u32,
    whole_ms: int,
    whole_us: int,
    millis: Option<u64>,
    micros: Option<u64>,
)
    requires
        whole_ms * 1_000_000 <= secs * 1_000_000_000 + nanos < (whole_ms + 1) * 1_000_000,
        whole_us * 1_000 <= secs * 1_000_000_000 + nanos < (whole_us + 1) * 1_000,
        call_ensures(reading_to_millis, (Some((secs, nanos)),), millis),
        call_ensures(reading_to_micros, (Some((secs, nanos)),), micros),
    ensures
        millis matches Some(ms) && ms == whole_ms % 0x1_0000_0000_0000_0000,
        micros matches Some(us) && us == whole_us % 0x1_0000_0000_0000_0000,
        whole_ms <= u64::MAX ==> (millis matches Some(ms) && ms == whole_ms),
        whole_us <= u64::MAX ==> (micros matches Some(us) && us == whole_us),
{
    assert(whole_ms == secs * 1_000 + nanos as int / 1_000_000);
    assert(whole_us == secs * 1_000_000 + nanos as int / 1_000);
}

} // verus!
