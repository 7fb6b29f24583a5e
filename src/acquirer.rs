use vstd::prelude::*;
use vstd::arithmetic::div_mod::lemma_fundamental_div_mod_converse;

use crate::outside::{uniform_between, wall_clock_nanos};
use crate::sample::{
    next_stamp, stamp_after, stamps_increasing, step_in_range, walk_within, Sample, WalkState,
    INITIAL_TENTHS, MAX_STEP_TENTHS,
};
use crate::schedule::{sleep_for, sleep_until, tick_at};

verus! {

/// Why the acquirer could not take another sample.
#[derive(Clone, Copy, Debug, PartialEq, Eq, Structural)]
pub enum AcquireError {
    /// All batches of the run have been handed out.
    Finished,
    /// The previous stamp is the largest one an `i64` holds.
    StampsExhausted,
    /// The wall clock gave no reading that fits the stamp type.
    ClockUnavailable,
}

/// What the caller does after a sample: sleep for `sleep_nanos`, then hand
/// `batch`, when there is one, to the channel.
pub struct SampleOutcome {
    pub sleep_nanos: u64,
    pub batch: Option<Vec<Sample>>,
}

/// The acquirer's state as plain values. `history` is every sample taken so
/// far, `pending` the part of it not yet handed out as a batch.
pub ghost struct AcquirerModel {
    pub batch_count: nat,
    pub batch_size: nat,
    pub interval: nat,
    pub start: nat,
    pub batches_sent: nat,
    pub pending: Seq<Sample>,
    pub history: Seq<Sample>,
    pub walk: WalkState,
    pub last_stamp: Option<i64>,
}

impl AcquirerModel {
    pub open spec fn is_finished(self) -> bool {
        self.batches_sent == self.batch_count
    }

    /// The instant the sampler is to wake at after its latest sample.
    pub open spec fn next_tick(self) -> nat {
        tick_at(self.start, self.interval, self.history.len())
    }

    /// The `i`-th batch of the run, as a slice of the history.
    pub open spec fn batch(self, i: nat) -> Seq<Sample> {
        self.history.subrange((i * self.batch_size) as int, ((i + 1) * self.batch_size) as int)
    }

    pub open spec fn inv(self) -> bool {
        &&& self.batch_size >= 1
        &&& self.batches_sent <= self.batch_count
        &&& self.pending.len() < self.batch_size
        &&& self.is_finished() ==> self.pending.len() == 0
        &&& self.history.len() == self.batches_sent * self.batch_size + self.pending.len()
        &&& self.pending == self.history.subrange(
            (self.batches_sent * self.batch_size) as int,
            self.history.len() as int,
        )
        &&& stamps_increasing(self.history)
        &&& self.history.len() == 0 ==> self.last_stamp is None
        &&& self.history.len() > 0 ==> self.last_stamp == Some(
            self.history.last().timestamp_nanos,
        )
    }

    /// The same run, with the same settings.
    pub open spec fn same_settings(self, other: AcquirerModel) -> bool {
        &&& self.batch_count == other.batch_count
        &&& self.batch_size == other.batch_size
        &&& self.interval == other.interval
        &&& self.start == other.start
    }

    /// `new` is `self` after one sample, with `sleep` handed to the caller
    /// for monotonic instant `now`; the sample's stamp and the walk's steps
    /// are left open.
    pub open spec fn took_sample(
        self,
        new: AcquirerModel,
        now: u64,
        sleep: u64,
        batch: Option<Seq<Sample>>,
    ) -> bool {
        &&& self.advanced(new, batch)
        &&& sleep == sleep_for(new.next_tick(), now as nat)
    }

    /// `new` is `self` with one more sample, handing out `batch` when that
    /// sample completes one.
    pub open spec fn advanced(self, new: AcquirerModel, batch: Option<Seq<Sample>>) -> bool {
        let s = new.history.last();
        &&& new.same_settings(self)
        &&& new.history == self.history.push(s)
        &&& s.tempureture_1 == self.walk.tempureture_1
        &&& s.tempureture_2 == self.walk.tempureture_2
        &&& s.tempureture_3 == self.walk.tempureture_3
        &&& new.last_stamp == Some(s.timestamp_nanos)
        &&& if self.pending.len() + 1 == self.batch_size {
            &&& batch == Some(self.pending.push(s))
            &&& batch == Some(new.batch(self.batches_sent))
            &&& new.batches_sent == self.batches_sent + 1
            &&& new.pending.len() == 0
        } else {
            &&& batch is None
            &&& new.batches_sent == self.batches_sent
            &&& new.pending == self.pending.push(s)
        }
    }
}

/// The batches handed out along a sequence of steps, in order.
pub open spec fn handed_out(outs: Seq<Option<Seq<Sample>>>) -> Seq<Seq<Sample>>
    decreases outs.len(),
{
    if outs.len() == 0 {
        Seq::empty()
    } else {
        let earlier = handed_out(outs.drop_last());
        match outs.last() {
            Some(b) => earlier.push(b),
            None => earlier,
        }
    }
}

/// `ms` are the states of an acquirer along successful steps that handed
/// out `outs`.
pub open spec fn is_run(ms: Seq<AcquirerModel>, outs: Seq<Option<Seq<Sample>>>) -> bool {
    &&& ms.len() == outs.len() + 1
    &&& forall|i: int| 0 <= i < ms.len() ==> (#[trigger] ms[i]).inv()
    &&& forall|i: int| 0 <= i < outs.len() ==> #[trigger] ms[i].advanced(ms[i + 1], outs[i])
}

/// A whole run from a fresh acquirer: the batches handed out, in the order
/// they were handed out, are exactly the consecutive slices of the samples
/// taken, as many as were completed; after `batch_count * batch_size` steps
/// the run is finished and has handed out exactly `batch_count` batches.
pub proof fn lemma_run_hands_out_batches(ms: Seq<AcquirerModel>, outs: Seq<Option<Seq<Sample>>>)
    requires
        is_run(ms, outs),
        ms[0].history.len() == 0,
    ensures
        ms.last().history.len() == outs.len(),
        handed_out(outs).len() == ms.last().batches_sent,
        forall|i: int|
            0 <= i < handed_out(outs).len() ==> #[trigger] handed_out(outs)[i] == ms.last().batch(
                i as nat,
            ),
        outs.len() == ms.last().batch_count * ms.last().batch_size ==> ms.last().is_finished()
            && handed_out(outs).len() == ms.last().batch_count,
    decreases outs.len(),
{
    let n = outs.len();
    let last = ms.last();
    if n == 0 {
        assert(ms[0].batches_sent * ms[0].batch_size == 0);
        assert(ms[0].batches_sent == 0) by (nonlinear_arith)
            requires
                ms[0].batches_sent * ms[0].batch_size == 0,
                ms[0].batch_size >= 1,
        ;
    } else {
        let ms1 = ms.drop_last();
        let outs1 = outs.drop_last();
        assert(is_run(ms1, outs1)) by {
            assert forall|i: int| 0 <= i < outs1.len() implies #[trigger] ms1[i].advanced(
                ms1[i + 1],
                outs1[i],
            ) by {
                assert(ms[i].advanced(ms[i + 1], outs[i]));
            }
        }
        lemma_run_hands_out_batches(ms1, outs1);
        let prev = ms[n - 1];
        assert(prev.advanced(last, outs[n - 1]));
        assert(prev == ms1.last());
        let b = prev.batch_size;
        assert forall|i: int| 0 <= i < prev.batches_sent implies #[trigger] last.batch(i as nat)
            == prev.batch(i as nat) by {
            assert((i + 1) * b <= prev.batches_sent * b) by (nonlinear_arith)
                requires
                    i < prev.batches_sent,
            ;
            assert(0 <= i * b) by (nonlinear_arith)
                requires
                    0 <= i,
            ;
            assert(i * b <= (i + 1) * b) by (nonlinear_arith)
                requires
                    0 <= i,
                    b >= 1,
            ;
            assert(last.batch(i as nat) =~= prev.batch(i as nat));
        }
    }
    lemma_run_shape(last);
}

/// The sampler of one run: `batch_count` batches of `batch_size` samples, one
/// sample every `interval` nanoseconds of a monotonic clock, on a schedule
/// that starts at `start` and does not drift with slow iterations.
pub struct Acquirer {
    batch_count: u64,
    batch_size: u64,
    interval: u64,
    start: u64,
    next_tick: u64,
    batches_sent: u64,
    pending: Vec<Sample>,
    walk: WalkState,
    last_stamp: Option<i64>,
    history: Ghost<Seq<Sample>>,
}

impl View for Acquirer {
    type V = AcquirerModel;

    closed spec fn view(&self) -> AcquirerModel {
        AcquirerModel {
            batch_count: self.batch_count as nat,
            batch_size: self.batch_size as nat,
            interval: self.interval as nat,
            start: self.start as nat,
            batches_sent: self.batches_sent as nat,
            pending: self.pending@,
            history: self.history@,
            walk: self.walk,
            last_stamp: self.last_stamp,
        }
    }
}

/// A run whose every tick fits a `u64` and whose walk stays within an `i64`.
pub open spec fn run_fits(batch_count: nat, batch_size: nat, interval: nat, start: nat) -> bool {
    &&& start + batch_count * batch_size * interval <= u64::MAX
    &&& INITIAL_TENTHS + batch_count * batch_size * MAX_STEP_TENTHS <= i64::MAX
}

impl Acquirer {
    pub closed spec fn wf(&self) -> bool {
        &&& self@.inv()
        &&& run_fits(
            self.batch_count as nat,
            self.batch_size as nat,
            self.interval as nat,
            self.start as nat,
        )
        &&& self.next_tick == self@.next_tick()
        &&& walk_within(self.walk, self@.history.len() * MAX_STEP_TENTHS)
    }

    /// Starts a run. `None` when a batch would be empty or the run does not
    /// fit the machine's integers.
    pub fn new(batch_count: u64, batch_size: u64, interval: u64, start: u64) -> (r: Option<
        Acquirer,
    >)
        ensures
            r is None <==> (batch_size == 0 || !run_fits(
                batch_count as nat,
                batch_size as nat,
                interval as nat,
                start as nat,
            )),
            r is Some ==> r->Some_0.wf(),
            r is Some ==> r->Some_0@ == (AcquirerModel {
                batch_count: batch_count as nat,
                batch_size: batch_size as nat,
                interval: interval as nat,
                start: start as nat,
                batches_sent: 0,
                pending: Seq::empty(),
                history: Seq::empty(),
                walk: WalkState {
                    tempureture_1: INITIAL_TENTHS,
                    tempureture_2: INITIAL_TENTHS,
                    tempureture_3: INITIAL_TENTHS,
                },
                last_stamp: None,
            }),
    {
        if batch_size == 0 {
            return None;
        }
        let total = match batch_count.checked_mul(batch_size) {
            Some(t) => t,
            None => {
                proof {
                    lemma_product_overflow(batch_count as nat, batch_size as nat, interval as nat);
                }
                return None;
            },
        };
        let fits = match total.checked_mul(interval) {
            None => false,
            Some(span) => match start.checked_add(span) {
                None => false,
                Some(_) => match total.checked_mul(MAX_STEP_TENTHS as u64) {
                    None => false,
                    Some(w) => w <= (i64::MAX - INITIAL_TENTHS) as u64,
                },
            },
        };
        if !fits {
            return None;
        }
        let r = Acquirer {
            batch_count,
            batch_size,
            interval,
            start,
            next_tick: start,
            batches_sent: 0,
            pending: Vec::new(),
            walk: WalkState::initial(),
            last_stamp: None,
            history: Ghost(Seq::empty()),
        };
        proof {
            assert(r@.pending =~= r@.history.subrange(0, 0));
            assert(0 * interval == 0);
        }
        Some(r)
    }

    pub fn is_finished(&self) -> (r: bool)
        requires
            self.wf(),
        ensures
            r == self@.is_finished(),
    {
        self.batches_sent == self.batch_count
    }

    /// Takes one sample stamped `wall_nanos` (moved past the previous stamp
    /// where the clock did not advance), moves the walk by the three steps,
    /// advances the schedule by one interval, and says how long to sleep at
    /// monotonic instant `now` to wake on the new tick. The sample that
    /// completes a batch hands the batch out.
    pub fn step(&mut self, wall_nanos: i64, d1: i64, d2: i64, d3: i64, now: u64) -> (r: Result<
        SampleOutcome,
        AcquireError,
    >)
        requires
            old(self).wf(),
            step_in_range(d1),
            step_in_range(d2),
            step_in_range(d3),
        ensures
            final(self).wf(),
            old(self)@.is_finished() ==> r == Err::<SampleOutcome, AcquireError>(
                AcquireError::Finished,
            ),
            !old(self)@.is_finished() && old(self)@.last_stamp == Some(i64::MAX) ==> r == Err::<
                SampleOutcome,
                AcquireError,
            >(AcquireError::StampsExhausted),
            r is Err ==> final(self)@ == old(self)@,
            r is Ok <==> !old(self)@.is_finished() && old(self)@.last_stamp != Some(i64::MAX),
            r is Ok ==> old(self)@.took_sample(
                final(self)@,
                now,
                r->Ok_0.sleep_nanos,
                match r->Ok_0.batch {
                    Some(b) => Some(b@),
                    None => None,
                },
            ),
            r is Ok ==> final(self)@.history.last().timestamp_nanos == next_stamp(
                old(self)@.last_stamp,
                wall_nanos,
            ),
            r is Ok ==> final(self)@.walk == old(self)@.walk.advance_spec(d1, d2, d3),
            r is Ok ==> final(self)@.walk.tempureture_1 == old(self)@.walk.tempureture_1 + d1,
            r is Ok ==> final(self)@.walk.tempureture_2 == old(self)@.walk.tempureture_2 + d2,
            r is Ok ==> final(self)@.walk.tempureture_3 == old(self)@.walk.tempureture_3 + d3,
            r is Ok ==> final(self)@.walk.within_one_step_of(old(self)@.walk),
    {
        if self.batches_sent == self.batch_count {
            return Err(AcquireError::Finished);
        }
        let stamp = match stamp_after(self.last_stamp, wall_nanos) {
            Some(s) => s,
            None => return Err(AcquireError::StampsExhausted),
        };
        let ghost old_model = self@;
        let ghost n = old_model.history.len();
        proof {
            self.lemma_room_for_sample();
        }
        let sample = self.walk.sample_at(stamp);
        self.walk = self.walk.advance(d1, d2, d3);
        self.next_tick = self.next_tick + self.interval;
        self.last_stamp = Some(stamp);
        self.history = Ghost(self.history@.push(sample));
        self.pending.push(sample);
        let sleep_nanos = sleep_until(self.next_tick, now);
        proof {
            lemma_tick_advance(self.start as nat, self.interval as nat, n);
            let h = self.history@;
            assert(h.last() == sample);
            assert forall|i: int, j: int| 0 <= i < j < h.len() implies #[trigger] h[i].timestamp_nanos
                < #[trigger] h[j].timestamp_nanos by {
                if j < h.len() - 1 {
                    assert(h[i] == old_model.history[i]);
                    assert(h[j] == old_model.history[j]);
                } else if n > 0 {
                    assert(h[i] == old_model.history[i]);
                    assert(old_model.history[i].timestamp_nanos <= old_model.history.last().timestamp_nanos);
                }
            }
            let start_of_batch = old_model.batches_sent * old_model.batch_size;
            assert(self.pending@ =~= h.subrange(start_of_batch as int, h.len() as int));
        }
        let batch = if self.pending.len() as u64 == self.batch_size {
            let b = self.pending.split_off(0);
            self.batches_sent = self.batches_sent + 1;
            proof {
                let h = self.history@;
                let k = old_model.batches_sent;
                let m = old_model.batch_size;
                assert((k + 1) * m == k * m + m) by (nonlinear_arith);
                assert(self@.pending =~= h.subrange(((k + 1) * m) as int, h.len() as int));
                assert(b@ == self@.batch(k));
            }
            Some(b)
        } else {
            None
        };
        Ok(SampleOutcome { sleep_nanos, batch })
    }

    /// Takes one sample stamped with the wall clock and moved by uniformly
    /// drawn steps, as `step` does for those values. `ClockUnavailable` when
    /// the wall clock has no reading that fits a stamp.
    pub fn sample_now(&mut self, now: u64) -> (r: Result<SampleOutcome, AcquireError>)
        requires
            old(self).wf(),
        ensures
            final(self).wf(),
            old(self)@.is_finished() <==> r == Err::<SampleOutcome, AcquireError>(
                AcquireError::Finished,
            ),
            !old(self)@.is_finished() && old(self)@.last_stamp == Some(i64::MAX) && r is Err
                ==> r == Err::<SampleOutcome, AcquireError>(AcquireError::StampsExhausted)
                || r == Err::<SampleOutcome, AcquireError>(AcquireError::ClockUnavailable),
            !old(self)@.is_finished() && old(self)@.last_stamp != Some(i64::MAX) && r is Err
                ==> r == Err::<SampleOutcome, AcquireError>(AcquireError::ClockUnavailable),
            r is Err ==> final(self)@ == old(self)@,
            r is Ok ==> old(self)@.took_sample(
                final(self)@,
                now,
                r->Ok_0.sleep_nanos,
                match r->Ok_0.batch {
                    Some(b) => Some(b@),
                    None => None,
                },
            ),
            r is Ok ==> old(self)@.last_stamp is Some ==> old(self)@.last_stamp->Some_0
                < final(self)@.history.last().timestamp_nanos,
            r is Ok ==> final(self)@.walk.within_one_step_of(old(self)@.walk),
    {
        if self.is_finished() {
            return Err(AcquireError::Finished);
        }
        let wall_nanos = match wall_clock_nanos() {
            Some(t) => t,
            None => return Err(AcquireError::ClockUnavailable),
        };
        let d1 = uniform_between(-MAX_STEP_TENTHS, MAX_STEP_TENTHS);
        let d2 = uniform_between(-MAX_STEP_TENTHS, MAX_STEP_TENTHS);
        let d3 = uniform_between(-MAX_STEP_TENTHS, MAX_STEP_TENTHS);
        self.step(wall_nanos, d1, d2, d3, now)
    }

    /// There is room for one more sample: its tick and its walk fit.
    proof fn lemma_room_for_sample(&self)
        requires
            self.wf(),
            !self@.is_finished(),
        ensures
            self@.history.len() + 1 <= self.batch_count * self.batch_size,
            self.next_tick + self.interval <= u64::MAX,
            INITIAL_TENTHS + (self@.history.len() + 1) * MAX_STEP_TENTHS <= i64::MAX,
    {
        let m = self@;
        let k = m.batches_sent;
        let b = m.batch_size;
        let p = m.pending.len();
        let total = m.batch_count * b;
        assert(k * b + p + 1 <= m.batch_count * b) by (nonlinear_arith)
            requires
                k < m.batch_count,
                p < b,
        ;
        let len = m.history.len();
        assert(start_plus(m.start, len + 1, m.interval) <= start_plus(m.start, total, m.interval))
            by (nonlinear_arith)
            requires
                len + 1 <= total,
        ;
        assert(m.batch_count * b * m.interval == total * m.interval) by (nonlinear_arith)
            requires
                total == m.batch_count * b,
        ;
        assert((len + 1) * MAX_STEP_TENTHS <= total * MAX_STEP_TENTHS) by (nonlinear_arith)
            requires
                len + 1 <= total,
        ;
        assert(m.batch_count * b * MAX_STEP_TENTHS == total * MAX_STEP_TENTHS) by (nonlinear_arith)
            requires
                total == m.batch_count * b,
        ;
        assert(tick_at(m.start, m.interval, len) + m.interval == start_plus(m.start, len + 1, m.interval)) by (nonlinear_arith);
    }
}

spec fn start_plus(start: nat, k: nat, interval: nat) -> nat {
    start + k * interval
}

proof fn lemma_tick_advance(start: nat, interval: nat, n: nat)
    ensures
        tick_at(start, interval, n) + interval == tick_at(start, interval, n + 1),
{
    assert(n * interval + interval == (n + 1) * interval) by (nonlinear_arith);
}

/// A product of counts that overflows leaves the run too large to fit.
proof fn lemma_product_overflow(batch_count: nat, batch_size: nat, interval: nat)
    requires
        batch_count * batch_size > u64::MAX,
    ensures
        INITIAL_TENTHS + batch_count * batch_size * MAX_STEP_TENTHS > i64::MAX,
{
    assert(batch_count * batch_size * MAX_STEP_TENTHS >= batch_count * batch_size) by (nonlinear_arith);
}

/// The shape of a run: the batches handed out so far are the consecutive
/// `batch_size`-long slices of the history, each of `batch_size` samples,
/// with stamps that increase within them and from each batch to every later
/// one; the count of batches is
/// the count of samples divided by the batch size; and the run is finished
/// exactly when `batch_count * batch_size` samples have been taken.
pub proof fn lemma_run_shape(m: AcquirerModel)
    requires
        m.inv(),
    ensures
        m.batches_sent == m.history.len() / m.batch_size,
        m.is_finished() <==> m.history.len() == m.batch_count * m.batch_size,
        forall|i: nat| i < m.batches_sent ==> (#[trigger] m.batch(i)).len() == m.batch_size,
        forall|i: nat, a: int|
            i < m.batches_sent && 0 <= a < m.batch_size ==> #[trigger] m.batch(i)[a] == m.history[i
                * m.batch_size + a],
        forall|i: nat, j: nat, a: int, b: int|
            i < j < m.batches_sent && 0 <= a < m.batch_size && 0 <= b < m.batch_size
                ==> #[trigger] m.batch(i)[a].timestamp_nanos < #[trigger] m.batch(
                j,
            )[b].timestamp_nanos,
        stamps_increasing(m.history),
{
    let b = m.batch_size;
    let k = m.batches_sent;
    let p = m.pending.len();
    lemma_fundamental_div_mod_converse(m.history.len() as int, b as int, k as int, p as int);
    if m.history.len() == m.batch_count * b && !m.is_finished() {
        assert(k * b + p < m.batch_count * b) by (nonlinear_arith)
            requires
                k < m.batch_count,
                p < b,
        ;
    }
    assert forall|i: nat| i < m.batches_sent implies (#[trigger] m.batch(i)).len() == m.batch_size by {
        assert((i + 1) * b <= k * b) by (nonlinear_arith)
            requires
                i < k,
        ;
        assert((i + 1) * b == i * b + b) by (nonlinear_arith);
        assert(0 <= i * b) by (nonlinear_arith);
    }
    assert forall|i: nat, a: int|
        i < m.batches_sent && 0 <= a < m.batch_size implies #[trigger] m.batch(i)[a] == m.history[i
            * m.batch_size + a] by {
        assert((i + 1) * b <= k * b) by (nonlinear_arith)
            requires
                i < k,
        ;
        assert((i + 1) * b == i * b + b) by (nonlinear_arith);
        assert(0 <= i * b) by (nonlinear_arith);
    }
    assert forall|i: nat, j: nat, x: int, y: int|
        i < j < m.batches_sent && 0 <= x < m.batch_size && 0 <= y < m.batch_size
            implies #[trigger] m.batch(i)[x].timestamp_nanos < #[trigger] m.batch(
            j,
        )[y].timestamp_nanos by {
        assert(m.batch(i)[x] == m.history[i * b + x]);
        assert(m.batch(j)[y] == m.history[j * b + y]);
        assert(i * b + x < j * b + y) by (nonlinear_arith)
            requires
                i < j,
                0 <= x < b,
                0 <= y,
        ;
        assert((j + 1) * b <= k * b) by (nonlinear_arith)
            requires
                j < k,
        ;
        assert((j + 1) * b == j * b + b) by (nonlinear_arith);
        assert(0 <= i * b) by (nonlinear_arith);
    }
}

} // verus!
