use vstd::prelude::*;

verus! {

/// The instant of the `k`-th tick of a schedule that starts at `start` and
/// ticks every `interval`.
pub open spec fn tick_at(start: nat, interval: nat, k: nat) -> nat {
    start + k * interval
}

/// How long to sleep at `now` so as to wake at `tick`: nothing when the tick
/// has already passed.
pub open spec fn sleep_for(tick: nat, now: nat) -> nat {
    if now < tick {
        (tick - now) as nat
    } else {
        0
    }
}

/// Computes `sleep_for`.
pub fn sleep_until(tick: u64, now: u64) -> (r: u64)
    ensures
        r == sleep_for(tick as nat, now as nat),
{
    if now < tick {
        tick - now
    } else {
        0
    }
}

/// The instant at which the `k`-th iteration ends when iteration `i` works for
/// `work[i]` and then sleeps as `sleep_for` says, up to its tick.
pub open spec fn wake_at(start: nat, interval: nat, work: Seq<nat>, k: nat) -> nat
    decreases k,
{
    if k == 0 {
        start
    } else {
        let busy_until = wake_at(start, interval, work, (k - 1) as nat) + work[k - 1];
        busy_until + sleep_for(tick_at(start, interval, k), busy_until)
    }
}

/// How far the `k`-th wake-up lags behind the `k`-th tick.
pub open spec fn lateness(start: nat, interval: nat, work: Seq<nat>, k: nat) -> int {
    wake_at(start, interval, work, k) - tick_at(start, interval, k)
}

/// Waking is never early: every wake-up is at or after its tick, and an
/// on-time iteration wakes exactly on it.
pub proof fn lemma_never_early(start: nat, interval: nat, work: Seq<nat>, k: nat)
    requires
        k <= work.len(),
    ensures
        wake_at(start, interval, work, k) >= tick_at(start, interval, k),
        k > 0 && wake_at(start, interval, work, (k - 1) as nat) + work[k - 1] <= tick_at(
            start,
            interval,
            k,
        ) ==> wake_at(start, interval, work, k) == tick_at(start, interval, k),
    decreases k,
{
    if k > 0 {
        lemma_never_early(start, interval, work, (k - 1) as nat);
    } else {
        assert(0 * interval == 0);
    }
}

/// Drift correction: an iteration that works no longer than the interval
/// never adds to the lag, so the lag after a slow iteration shrinks again
/// rather than carrying over into every later tick.
pub proof fn lemma_lag_does_not_grow(start: nat, interval: nat, work: Seq<nat>, k: nat)
    requires
        0 < k <= work.len(),
        work[k - 1] <= interval,
    ensures
        lateness(start, interval, work, k) <= lateness(start, interval, work, (k - 1) as nat)
            || lateness(start, interval, work, k) == 0,
        lateness(start, interval, work, k) <= if lateness(
            start,
            interval,
            work,
            (k - 1) as nat,
        ) + work[k - 1] - interval > 0 {
            lateness(start, interval, work, (k - 1) as nat) + work[k - 1] - interval
        } else {
            0
        },
{
    let t = tick_at(start, interval, k);
    let tp = tick_at(start, interval, (k - 1) as nat);
    assert(t == tp + interval) by (nonlinear_arith)
        requires
            t == start + k * interval,
            tp == start + (k - 1) * interval,
            k > 0,
    ;
    lemma_never_early(start, interval, work, (k - 1) as nat);
}

/// The lag at the end of a run is at most the single largest overrun of one
/// iteration, when at most one iteration overran: lags do not accumulate.
pub proof fn lemma_single_overrun_bounded(
    start: nat,
    interval: nat,
    work: Seq<nat>,
    slow: nat,
    overrun: nat,
    k: nat,
)
    requires
        k <= work.len(),
        forall|i: int| 0 <= i < work.len() && i != slow ==> work[i] <= interval,
        slow < work.len() ==> work[slow as int] <= interval + overrun,
    ensures
        0 <= lateness(start, interval, work, k) <= overrun,
    decreases k,
{
    lemma_never_early(start, interval, work, k);
    if k > 0 {
        let j = (k - 1) as nat;
        lemma_single_overrun_bounded(start, interval, work, slow, overrun, j);
        let t = tick_at(start, interval, k);
        let tp = tick_at(start, interval, j);
        assert(t == tp + interval) by (nonlinear_arith)
            requires
                t == start + k * interval,
                tp == start + j * interval,
                k == j + 1,
        ;
        if j == slow {
            assert(lateness(start, interval, work, j) == 0) by {
                lemma_lag_zero_before(start, interval, work, slow, j);
            }
        }
    }
}

/// Before the one slow iteration every iteration is on time, so the lag is
/// zero there.
proof fn lemma_lag_zero_before(start: nat, interval: nat, work: Seq<nat>, slow: nat, k: nat)
    requires
        k <= slow,
        k <= work.len(),
        forall|i: int| 0 <= i < work.len() && i != slow ==> work[i] <= interval,
    ensures
        lateness(start, interval, work, k) == 0,
    decreases k,
{
    lemma_never_early(start, interval, work, k);
    if k > 0 {
        let j = (k - 1) as nat;
        lemma_lag_zero_before(start, interval, work, slow, j);
        let t = tick_at(start, interval, k);
        let tp = tick_at(start, interval, j);
        assert(t == tp + interval) by (nonlinear_arith)
            requires
                t == start + k * interval,
                tp == start + j * interval,
                k == j + 1,
        ;
    }
}

} // verus!
