//! Indices drawn from the system clock.
//!
//! The clock is the only source of chance here: the nanoseconds since the
//! Unix epoch, counted round the number of choices. Where the clock cannot be
//! read the index is 0, so that a caller always gets one.

use std::time::{Duration, SystemTime, SystemTimeError};
use vstd::prelude::*;

verus! {

/// `std::time::SystemTime`, a point in time as the system clock gives it.
/// Nothing is known of what a value holds.
#[verifier::external_type_specification]
#[verifier::external_body]
pub struct ExSystemTime(SystemTime);

/// `std::time::SystemTimeError`, the error of `SystemTime::duration_since`.
/// Nothing is known of what a value holds.
#[verifier::external_type_specification]
#[verifier::external_body]
pub struct ExSystemTimeError(SystemTimeError);

/// `SystemTime::now` of std reads the system clock. Nothing is claimed of the
/// time it returns.
pub assume_specification[ SystemTime::now ]() -> (now: SystemTime);

/// `SystemTime::duration_since` of std gives the time elapsed since an earlier
/// point, or an error where that point is in fact later. Nothing is claimed of
/// which it is, nor of the duration.
pub assume_specification[ SystemTime::duration_since ](
    time: &SystemTime,
    earlier: SystemTime,
) -> (elapsed: Result<Duration, SystemTimeError>);

/// `Duration::as_nanos` of std gives a duration in whole nanoseconds. Nothing
/// is claimed of the number.
pub assume_specification[ Duration::as_nanos ](duration: &Duration) -> (nanos: u128);

/// The constant `std::time::UNIX_EPOCH`. Nothing is claimed of it.
#[verifier::external_body]
fn unix_epoch() -> (epoch: SystemTime) {
    std::time::UNIX_EPOCH
}

/// The index that a clock reading selects among `max` choices: the low bits
/// of the reading that fit a `usize`, counted round `max`. It is 0 where
/// there is no reading or no choice.
pub open spec fn index_of(reading: Option<u128>, max: usize) -> usize {
    match reading {
        Some(nanos) => if max == 0 {
            0
        } else {
            ((nanos as usize) % max) as usize
        },
        None => 0,
    }
}

/// A reading that fits a `usize` is counted round `max` as it is.
pub proof fn lemma_small_reading(nanos: u128, max: usize)
    requires
        nanos <= usize::MAX,
        max > 0,
    ensures
        index_of(Some(nanos), max) == nanos % (max as u128),
        index_of(Some(nanos), max) < max,
{
}

/// The nanoseconds since the Unix epoch, or `None` where the clock stands
/// before the epoch.
fn read_clock() -> (reading: Option<u128>) {
    let now = SystemTime::now();
    match now.duration_since(unix_epoch()) {
        Ok(elapsed) => Some(elapsed.as_nanos()),
        Err(_) => None,
    }
}

/// Turns a clock reading into an index among `max` choices; `None` stands for
/// a clock that could not be read.
pub fn fold_reading(reading: Option<u128>, max: usize) -> (index: usize)
    ensures
        index == index_of(reading, max),
        max > 0 ==> index < max,
        max == 0 ==> index == 0,
{
    if max == 0 {
        return 0;
    }
    match reading {
        Some(nanos) => {
            let low: usize = #[verifier::truncate] (nanos as usize);
            low % max
        },
        None => 0,
    }
}

/// An index below `max`, drawn from the clock; 0 where `max` is 0.
///
/// Which index, the clock decides: it is the one that [`fold_reading`] gives
/// for the reading taken.
pub fn random_usize(max: usize) -> (index: usize)
    ensures
        max == 0 ==> index == 0,
        max > 0 ==> index < max,
{
    if max == 0 {
        return 0;
    }
    fold_reading(read_clock(), max)
}

} // verus!
