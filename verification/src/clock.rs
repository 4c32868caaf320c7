//! The wall clock, in milliseconds since the Unix epoch.

use vstd::prelude::*;

verus! {

/// A point in time of the system clock.
#[verifier::external_type_specification]
#[verifier::external_body]
pub struct ExSystemTime(std::time::SystemTime);

/// What `std::time` gives for a point in time that comes too early.
#[verifier::external_type_specification]
#[verifier::external_body]
pub struct ExSystemTimeError(std::time::SystemTimeError);

/// `SystemTime::now`: whatever the system clock says.
pub assume_specification[ std::time::SystemTime::now ]() -> (r: std::time::SystemTime)
;

/// `SystemTime::duration_since`, from the Unix epoch on: an error where the
/// point in time is before the epoch. It is a reading of the clock, so nothing
/// is claimed of it.
#[verifier::external_body]
fn since_epoch(t: &std::time::SystemTime) -> (r: Result<
    std::time::Duration,
    std::time::SystemTimeError,
>) {
    t.duration_since(std::time::UNIX_EPOCH)
}

/// `Duration::as_millis`: the whole milliseconds of a span. The span is opaque
/// here and comes off the clock, so nothing is claimed of the number.
pub assume_specification[ std::time::Duration::as_millis ](this: &std::time::Duration) -> (r: u128)
;

/// Whether the clock may read so: the whole milliseconds, as
/// [`std::time::Duration::as_millis`] gives them, of the span from the Unix
/// epoch to what the clock says, or nothing where the clock is set before it.
pub closed spec fn may_read(millis: Option<u128>) -> bool {
    exists|now: std::time::SystemTime, span: Result<
        std::time::Duration,
        std::time::SystemTimeError,
    >|
        {
            &&& call_ensures(std::time::SystemTime::now, (), now)
            &&& #[trigger] call_ensures(since_epoch, (&now,), span)
            &&& match span {
                Ok(d) => millis matches Some(ms) && call_ensures(
                    std::time::Duration::as_millis,
                    (&d,),
                    ms,
                ),
                Err(_) => millis is None,
            }
        }
}

/// The whole milliseconds since the Unix epoch, or nothing where the clock is
/// set before it.
pub(crate) fn millis() -> (r: Option<u128>)
    ensures
        may_read(r),
{
    let now = std::time::SystemTime::now();
    let span = since_epoch(&now);
    assert(call_ensures(since_epoch, (&now,), span));
    match span {
        Ok(d) => Some(d.as_millis()),
        Err(_) => None,
    }
}

/// The number, or the greatest `u64` where it is too great for one.
pub open spec fn saturated(n: u128) -> u64 {
    if n <= u64::MAX {
        n as u64
    } else {
        u64::MAX
    }
}

/// A reading of the clock as a `u64`: `before_epoch` where the clock is set
/// before the Unix epoch, saturated where it does not fit.
pub open spec fn reading(millis: Option<u128>, before_epoch: u64) -> u64 {
    match millis {
        Some(n) => saturated(n),
        None => before_epoch,
    }
}

/// A reading of the clock as a `u64`.
pub fn reading_of(millis: Option<u128>, before_epoch: u64) -> (r: u64)
    ensures
        r == reading(millis, before_epoch),
{
    match millis {
        Some(n) => if n <= u64::MAX as u128 {
            n as u64
        } else {
            u64::MAX
        },
        None => before_epoch,
    }
}

} // verus!
