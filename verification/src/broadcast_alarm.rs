//! The alarm broadcaster's decisions: which live threads get a per-thread
//! alarm on one tick. The loop that sleeps, reads thread states and sends
//! the signals runs outside; it hands the thread list in and receives the
//! targets back.

use vstd::prelude::*;
use crate::os_stat::ThreadState;

verus! {

/// How many threads one tick signals at most.
pub const THREAD_PER_TICKS: usize = 8;

/// The broadcaster's sleep between ticks, in nanoseconds.
pub const MIN_INTERVAL: u64 = 10_000_000;

/// The tids one tick signals: the first `max` running threads of the list,
/// the broadcaster's own thread skipped.
pub open spec fn spec_targets(threads: Seq<(u32, ThreadState)>, self_tid: u32, max: int) -> Seq<
    u32,
>
    decreases threads.len(),
{
    if threads.len() == 0 || max <= 0 {
        Seq::empty()
    } else {
        {
            let tid = threads[0].0;
            let st = threads[0].1;
            if tid != self_tid && st is Running {
                seq![tid] + spec_targets(threads.drop_first(), self_tid, max - 1)
            } else {
                spec_targets(threads.drop_first(), self_tid, max)
            }
        }
    }
}

/// Pick the threads one tick signals.
pub fn select_targets(threads: &Vec<(u32, ThreadState)>, self_tid: u32, max: usize) -> (r: Vec<
    u32,
>)
    ensures
        r@ == spec_targets(threads@, self_tid, max as int),
        r@.len() <= max,
{
    let mut out: Vec<u32> = Vec::new();
    let mut i: usize = 0;
    proof {
        assert(threads@.skip(0) =~= threads@);
    }
    while i < threads.len() && out.len() < max
        invariant
            0 <= i <= threads@.len(),
            out@.len() <= max,
            spec_targets(threads@, self_tid, max as int) == out@ + spec_targets(
                threads@.skip(i as int),
                self_tid,
                max - out@.len(),
            ),
        decreases threads@.len() - i,
    {
        let ghost pre = out@;
        let tid = threads[i].0;
        let running = match threads[i].1 {
            ThreadState::Running => true,
            _ => false,
        };
        proof {
            assert(threads@.skip(i as int)[0] == threads@[i as int]);
            assert(threads@.skip(i as int).drop_first() =~= threads@.skip(i + 1));
        }
        if tid != self_tid && running {
            out.push(tid);
            proof {
                assert(out@ =~= pre.push(tid));
                assert(pre + (seq![tid] + spec_targets(
                    threads@.skip(i + 1),
                    self_tid,
                    max - pre.len() - 1,
                )) =~= out@ + spec_targets(threads@.skip(i + 1), self_tid, max - out@.len()));
            }
        }
        i = i + 1;
    }
    proof {
        if i >= threads@.len() {
            assert(threads@.skip(i as int) =~= Seq::<(u32, ThreadState)>::empty());
            assert(out@ + spec_targets(threads@.skip(i as int), self_tid, max - out@.len())
                =~= out@);
        } else {
            assert(out@.len() == max);
            assert(out@ + spec_targets(threads@.skip(i as int), self_tid, 0) =~= out@);
        }
    }
    out
}

/// The broadcaster's switch: the outside loop keeps ticking while `running`
/// stands.
pub struct WalkerTrace {
    pub running: bool,
    pub interval: u64,
}

impl WalkerTrace {
    pub fn new() -> (r: Self)
        ensures
            !r.running,
            r.interval == MIN_INTERVAL,
    {
        WalkerTrace { running: false, interval: MIN_INTERVAL }
    }

    pub fn start(&mut self)
        ensures
            final(self).running,
            final(self).interval == old(self).interval,
    {
        self.running = true;
    }

    pub fn stop(&mut self)
        ensures
            !final(self).running,
            final(self).interval == old(self).interval,
    {
        self.running = false;
    }

    pub fn is_running(&self) -> (r: bool)
        ensures
            r == self.running,
    {
        self.running
    }
}

} // verus!
