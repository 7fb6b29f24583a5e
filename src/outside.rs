use rand::Rng;
use vstd::prelude::*;

verus! {

/// Relies on `rand::thread_rng` and `Rng::gen_range` on an inclusive range:
/// a value between the two bounds, both included; the range is not empty.
#[verifier::external_body]
pub(crate) fn uniform_between(low: i64, high: i64) -> (r: i64)
    requires
        low <= high,
    ensures
        low <= r <= high,
{
    rand::thread_rng().gen_range(low..=high)
}

/// Relies on `chrono::Local::now` and `DateTime::timestamp_nanos_opt`: the
/// wall clock in nanoseconds since the Unix epoch, `None` when it does not
/// fit in an `i64`. Nothing is known of the reading itself.
#[verifier::external_body]
pub(crate) fn wall_clock_nanos() -> (r: Option<i64>) {
    chrono::Local::now().timestamp_nanos_opt()
}

} // verus!
