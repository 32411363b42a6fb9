//! The profiling-timer driver's arithmetic: a precomputed table of jittered
//! intervals between a minimum and a maximum, the cursor that walks it, and
//! the split of a nanosecond interval into timer fields. Arming the timer
//! itself is the caller's business.

use vstd::prelude::*;

verus! {

/// How many jittered intervals the table holds.
pub const MAX_SIGNAL_SIZE: usize = 1024;

/// Multiplier of the jitter generator's linear-congruential step.
pub const JITTER_MULTIPLIER: u64 = 6364136223846793005;

/// Increment of the jitter generator's linear-congruential step.
pub const JITTER_INCREMENT: u64 = 1442695040888963407;

/// Where the jitter generator starts.
pub const JITTER_SEED: u64 = 0x5deece66d;

/// One linear-congruential step, modulo the word size.
pub open spec fn spec_jitter_next(s: u64) -> u64 {
    vstd::wrapping::u64_specs::wrapping_add(
        vstd::wrapping::u64_specs::wrapping_mul(s, JITTER_MULTIPLIER),
        JITTER_INCREMENT,
    )
}

/// The generator's state after `k + 1` steps from the seed.
pub open spec fn spec_jitter_state(k: int) -> u64
    decreases k,
{
    if k <= 0 {
        spec_jitter_next(JITTER_SEED)
    } else {
        spec_jitter_next(spec_jitter_state(k - 1))
    }
}

/// The `k`-th jittered interval: the minimum plus the `k`-th jitter value
/// folded into the interval's width.
pub open spec fn spec_interval(min: u32, max: u32, k: int) -> u32 {
    (min + ((spec_jitter_state(k) >> 33u64) as u32 % (max - min + 1) as u32)) as u32
}

/// The interval table and its cursor.
pub struct SignalProf {
    pub intervals: Vec<u32>,
    pub curr_interval_idx: usize,
}

impl SignalProf {
    pub open spec fn wf(&self) -> bool {
        &&& self.intervals@.len() == MAX_SIGNAL_SIZE
        &&& self.curr_interval_idx < MAX_SIGNAL_SIZE
    }

    /// Build the table of jittered intervals, every one in `[min, max]`.
    pub fn new(min: u32, max: u32) -> (r: Self)
        requires
            min <= max,
            max - min < u32::MAX,
        ensures
            r.wf(),
            r.curr_interval_idx == 0,
            forall|k: int|
                0 <= k < MAX_SIGNAL_SIZE ==> #[trigger] r.intervals@[k] == spec_interval(
                    min,
                    max,
                    k,
                ),
            forall|k: int|
                0 <= k < MAX_SIGNAL_SIZE ==> min <= #[trigger] r.intervals@[k] <= max,
    {
        let avarage: u32 = max - min + 1;
        let mut intervals: Vec<u32> = Vec::new();
        let mut state: u64 = JITTER_SEED;
        let mut k: usize = 0;
        while k < MAX_SIGNAL_SIZE
            invariant
                0 <= k <= MAX_SIGNAL_SIZE,
                min <= max,
                avarage == max - min + 1,
                intervals@.len() == k,
                k == 0 ==> state == JITTER_SEED,
                k > 0 ==> state == spec_jitter_state(k - 1),
                forall|j: int|
                    0 <= j < k ==> #[trigger] intervals@[j] == spec_interval(min, max, j),
                forall|j: int| 0 <= j < k ==> min <= #[trigger] intervals@[j] <= max,
            decreases MAX_SIGNAL_SIZE - k,
        {
            state = state.wrapping_mul(JITTER_MULTIPLIER).wrapping_add(JITTER_INCREMENT);
            proof {
                assert(state == spec_jitter_state(k as int));
            }
            let draw: u32 = (state >> 33u64) as u32;
            let iv: u32 = min + draw % avarage;
            proof {
                assert(iv == spec_interval(min, max, k as int));
            }
            intervals.push(iv);
            k = k + 1;
        }
        SignalProf { intervals, curr_interval_idx: 0 }
    }

    /// Hand out the interval under the cursor and advance the cursor,
    /// wrapping at the table's end.
    pub fn update_interval(&mut self) -> (r: u32)
        requires
            old(self).wf(),
        ensures
            final(self).wf(),
            r == old(self).intervals@[old(self).curr_interval_idx as int],
            final(self).intervals@ == old(self).intervals@,
            final(self).curr_interval_idx == (old(self).curr_interval_idx + 1) % (
            MAX_SIGNAL_SIZE as int),
    {
        let r = self.intervals[self.curr_interval_idx];
        self.curr_interval_idx = if self.curr_interval_idx + 1 == MAX_SIGNAL_SIZE {
            0
        } else {
            self.curr_interval_idx + 1
        };
        r
    }

    /// The interval under the cursor, without moving it.
    pub fn current_interval(&self) -> (r: u32)
        requires
            self.wf(),
        ensures
            r == self.intervals@[self.curr_interval_idx as int],
    {
        self.intervals[self.curr_interval_idx]
    }
}

/// Split a nanosecond interval into whole seconds and microseconds, the
/// shape a one-shot interval timer is armed with.
pub fn interval_timeval(interval: u32) -> (r: (i64, i64))
    ensures
        r.0 == interval / 1_000_000_000,
        r.1 == (interval % 1_000_000_000) / 1_000,
{
    let tv_sec: i64 = (interval / 1_000_000_000) as i64;
    let tv_usec: i64 = ((interval % 1_000_000_000) / 1_000) as i64;
    (tv_sec, tv_usec)
}

} // verus!
