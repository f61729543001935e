//! Entropy mixing for automatic seeding.
//!
//! Weak, non-uniform inputs — an address-like varying value supplied by the
//! caller, a reading of the system clock and, when available, the operating
//! system's randomness source — are combined into one candidate word and
//! expanded through SplitMix64 into a full lane of well-distributed state.
//! The operating system source takes priority; when it is unavailable the
//! procedure falls back to the varying value mixed with the time and never
//! fails.

use vstd::prelude::*;

use crate::splitmix::{split_mix_64, split_mix_lane};

verus! {

/// How the current state of an engine was obtained. Carried for caller
/// diagnostics only; it never affects the transition function.
#[derive(Clone, Copy, PartialEq, Eq, Structural, Debug)]
pub enum SeedSource {
    /// No external entropy was available: the state was mixed from an
    /// address-like varying value and a time reading only.
    Fixed,
    /// The operating system's randomness source supplied the bits.
    Os,
    /// The caller supplied the seed explicitly.
    User,
}

#[verifier::external_type_specification]
#[verifier::external_body]
pub struct ExSystemTime(std::time::SystemTime);

/// Relies on std::time::SystemTime::now: a reading of the system clock.
#[verifier::external_body]
fn clock_now() -> std::time::SystemTime {
    std::time::SystemTime::now()
}

/// Relies on std::time::SystemTime::duration_since: the span from the Unix
/// epoch up to `t`, or `None` when the clock reads before the epoch.
#[verifier::external_body]
fn since_epoch(t: &std::time::SystemTime) -> Option<core::time::Duration> {
    t.duration_since(std::time::UNIX_EPOCH).ok()
}

/// Relies on core::time::Duration::as_nanos: the whole span in nanoseconds,
/// truncated to its low 64 bits.
#[verifier::external_body]
fn duration_nanos(d: &core::time::Duration) -> u64 {
    d.as_nanos() as u64
}

/// Relies on getrandom::u64: one word from the operating system's preferred
/// randomness source, or `None` when that source is unavailable.
#[verifier::external_body]
fn os_entropy() -> Option<u64> {
    getrandom::u64().ok()
}

/// A reading of the system clock as nanoseconds since the Unix epoch, or 0
/// when the clock reads before the epoch.
pub(crate) fn time_entropy() -> u64 {
    let t = clock_now();
    match since_epoch(&t) {
        Some(d) => duration_nanos(&d),
        None => 0,
    }
}

/// Mixes the best available entropy with the caller's varying input into
/// one lane of initial state, and reports where the bits came from.
///
/// Whatever the entropy sources returned, the installed state is a
/// SplitMix64 expansion of a single candidate word, so its three words are
/// well distributed even when the inputs were not.
pub fn generate_seed(varying: u64) -> (r: ([u64; 3], SeedSource))
    ensures
        r.1 != SeedSource::User,
        exists|c: u64|
            r.0[0] == split_mix_lane(c).x && r.0[1] == split_mix_lane(c).y && r.0[2]
                == split_mix_lane(c).z,
{
    let (candidate, source) = match os_entropy() {
        Some(bits) => (bits, SeedSource::Os),
        None => (varying.wrapping_add(time_entropy()), SeedSource::Fixed),
    };
    let words = split_mix_64(candidate);
    assert(words[0] == split_mix_lane(candidate).x && words[1] == split_mix_lane(candidate).y
        && words[2] == split_mix_lane(candidate).z);
    (words, source)
}

} // verus!
