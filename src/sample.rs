use vstd::prelude::*;

verus! {

/// Largest change of one temperature channel between two samples, in tenths
/// of a degree.
pub const MAX_STEP_TENTHS: i64 = 100;

/// Temperature every channel starts from, in tenths of a degree.
pub const INITIAL_TENTHS: i64 = 500;

/// One acquisition instant: three temperature channels in tenths of a degree
/// and a wall-clock stamp in nanoseconds since the Unix epoch.
#[derive(Clone, Copy, Debug, PartialEq, Eq, Structural)]
pub struct Sample {
    pub tempureture_1: i64,
    pub tempureture_2: i64,
    pub tempureture_3: i64,
    pub timestamp_nanos: i64,
}

/// Stamps that strictly increase along the sequence.
pub open spec fn stamps_increasing(s: Seq<Sample>) -> bool {
    forall|i: int, j: int|
        0 <= i < j < s.len() ==> #[trigger] s[i].timestamp_nanos < #[trigger] s[j].timestamp_nanos
}

/// A step that the random walk may take.
pub open spec fn step_in_range(d: i64) -> bool {
    -MAX_STEP_TENTHS <= d <= MAX_STEP_TENTHS
}

/// Position of the random walk: the current value of each channel.
#[derive(Clone, Copy, Debug, PartialEq, Eq, Structural)]
pub struct WalkState {
    pub tempureture_1: i64,
    pub tempureture_2: i64,
    pub tempureture_3: i64,
}

/// Every channel lies within `bound` of the starting temperature.
pub open spec fn walk_within(w: WalkState, bound: int) -> bool {
    &&& INITIAL_TENTHS - bound <= w.tempureture_1 <= INITIAL_TENTHS + bound
    &&& INITIAL_TENTHS - bound <= w.tempureture_2 <= INITIAL_TENTHS + bound
    &&& INITIAL_TENTHS - bound <= w.tempureture_3 <= INITIAL_TENTHS + bound
}

impl WalkState {
    pub fn initial() -> (r: WalkState)
        ensures
            r.tempureture_1 == INITIAL_TENTHS,
            r.tempureture_2 == INITIAL_TENTHS,
            r.tempureture_3 == INITIAL_TENTHS,
    {
        WalkState {
            tempureture_1: INITIAL_TENTHS,
            tempureture_2: INITIAL_TENTHS,
            tempureture_3: INITIAL_TENTHS,
        }
    }

    /// Moves each channel by its own step.
    pub fn advance(self, d1: i64, d2: i64, d3: i64) -> (r: WalkState)
        requires
            i64::MIN <= self.tempureture_1 + d1 <= i64::MAX,
            i64::MIN <= self.tempureture_2 + d2 <= i64::MAX,
            i64::MIN <= self.tempureture_3 + d3 <= i64::MAX,
        ensures
            r == self.advance_spec(d1, d2, d3),
            r.tempureture_1 == self.tempureture_1 + d1,
            r.tempureture_2 == self.tempureture_2 + d2,
            r.tempureture_3 == self.tempureture_3 + d3,
    {
        WalkState {
            tempureture_1: self.tempureture_1 + d1,
            tempureture_2: self.tempureture_2 + d2,
            tempureture_3: self.tempureture_3 + d3,
        }
    }

    pub open spec fn advance_spec(self, d1: i64, d2: i64, d3: i64) -> WalkState {
        WalkState {
            tempureture_1: (self.tempureture_1 + d1) as i64,
            tempureture_2: (self.tempureture_2 + d2) as i64,
            tempureture_3: (self.tempureture_3 + d3) as i64,
        }
    }

    /// Each channel differs from `prev` by a step the walk may take.
    pub open spec fn within_one_step_of(self, prev: WalkState) -> bool {
        &&& -MAX_STEP_TENTHS <= self.tempureture_1 - prev.tempureture_1 <= MAX_STEP_TENTHS
        &&& -MAX_STEP_TENTHS <= self.tempureture_2 - prev.tempureture_2 <= MAX_STEP_TENTHS
        &&& -MAX_STEP_TENTHS <= self.tempureture_3 - prev.tempureture_3 <= MAX_STEP_TENTHS
    }

    /// The sample that this position gives at the given stamp.
    pub fn sample_at(self, timestamp_nanos: i64) -> (r: Sample)
        ensures
            r.tempureture_1 == self.tempureture_1,
            r.tempureture_2 == self.tempureture_2,
            r.tempureture_3 == self.tempureture_3,
            r.timestamp_nanos == timestamp_nanos,
    {
        Sample {
            tempureture_1: self.tempureture_1,
            tempureture_2: self.tempureture_2,
            tempureture_3: self.tempureture_3,
            timestamp_nanos,
        }
    }
}

/// The stamp a new sample gets: the wall-clock reading, unless the clock did
/// not move past the previous stamp, in which case the stamp just after it.
pub open spec fn next_stamp(last: Option<i64>, wall_nanos: i64) -> int {
    match last {
        None => wall_nanos as int,
        Some(l) => if wall_nanos > l {
            wall_nanos as int
        } else {
            l + 1
        },
    }
}

/// Computes `next_stamp`; `None` when no later stamp fits in an `i64`.
pub fn stamp_after(last: Option<i64>, wall_nanos: i64) -> (r: Option<i64>)
    ensures
        r is None <==> last == Some(i64::MAX),
        r is Some ==> r->Some_0 == next_stamp(last, wall_nanos),
{
    match last {
        None => Some(wall_nanos),
        Some(l) => if wall_nanos > l {
            Some(wall_nanos)
        } else if l < i64::MAX {
            Some(l + 1)
        } else {
            None
        },
    }
}

} // verus!
