//! The bounded handoff ring between the signal-time producers and the
//! background consumer: a slot array with a producer cursor and a consumer
//! cursor, each slot carrying one captured trace and its commit flag. The
//! ring holds at most one slot fewer than its capacity; a push onto a full
//! ring fails and the sample is dropped.

use vstd::prelude::*;
use crate::vm::JVMPICallFrame;
use crate::vm::JVMPICallTrace;
use crate::vm::TraceView;

verus! {

/// The capacity of the default ring.
pub const HOLDER_SIZE: usize = 1024;

/// One slot: a trace and the flag that publishes it to the consumer.
pub struct CallTraceHolder {
    pub trace: JVMPICallTrace,
    pub is_commit: bool,
}

/// Copy of a frame vector.
pub fn copy_frames(v: &Vec<JVMPICallFrame>) -> (r: Vec<JVMPICallFrame>)
    ensures
        r@ == v@,
{
    let mut out: Vec<JVMPICallFrame> = Vec::new();
    let mut i: usize = 0;
    while i < v.len()
        invariant
            0 <= i <= v@.len(),
            out@ == v@.take(i as int),
        decreases v@.len() - i,
    {
        out.push(v[i]);
        proof {
            assert(out@ =~= v@.take(i + 1));
        }
        i = i + 1;
    }
    proof {
        assert(v@.take(v@.len() as int) =~= v@);
    }
    out
}

/// Copy of a whole trace.
pub fn copy_trace(t: &JVMPICallTrace) -> (r: JVMPICallTrace)
    ensures
        r@ == t@,
{
    JVMPICallTrace { env: t.env, num_frames: t.num_frames, frames: copy_frames(&t.frames) }
}

impl CallTraceHolder {
    /// A fresh, not yet committed slot holding a copy of the trace.
    pub fn new(holder: &JVMPICallTrace) -> (r: Self)
        ensures
            r.trace@ == holder@,
            !r.is_commit,
    {
        CallTraceHolder { trace: copy_trace(holder), is_commit: false }
    }
}

/// The handoff ring.
pub struct CircleQueue {
    pub i_idx: usize,
    pub o_idx: usize,
    pub capacity: usize,
    pub holders: Vec<CallTraceHolder>,
}

impl CircleQueue {
    /// How many committed traces wait between the consumer cursor and the
    /// producer cursor.
    pub open spec fn spec_pending_len(&self) -> int {
        if self.o_idx <= self.i_idx {
            self.i_idx - self.o_idx
        } else {
            self.capacity - self.o_idx + self.i_idx
        }
    }

    /// Whether slot `k` lies in the pending window.
    pub open spec fn spec_in_window(&self, k: int) -> bool {
        if self.o_idx <= self.i_idx {
            self.o_idx <= k < self.i_idx
        } else {
            k < self.i_idx || self.o_idx <= k < self.capacity
        }
    }

    /// The slot index holding the `n`-th pending trace.
    pub open spec fn spec_slot(&self, n: int) -> int {
        if self.o_idx + n < self.capacity {
            self.o_idx + n
        } else {
            self.o_idx + n - self.capacity
        }
    }

    /// The pending traces, oldest first.
    pub open spec fn pending(&self) -> Seq<TraceView> {
        Seq::new(
            self.spec_pending_len() as nat,
            |n: int| self.holders@[self.spec_slot(n)].trace@,
        )
    }

    /// Structural soundness: cursors inside the slot array, exactly the
    /// slots of the pending window committed.
    pub open spec fn wf(&self) -> bool {
        &&& 2 <= self.capacity
        &&& self.holders@.len() == self.capacity
        &&& self.i_idx < self.capacity
        &&& self.o_idx < self.capacity
        &&& forall|k: int|
            0 <= k < self.capacity ==> ((#[trigger] self.holders@[k]).is_commit
                <==> self.spec_in_window(k))
    }

    /// A ring of the given capacity, all slots free.
    pub fn with_capacity(capacity: usize) -> (r: Self)
        requires
            2 <= capacity,
        ensures
            r.wf(),
            r.capacity == capacity,
            r.pending().len() == 0,
    {
        let mut holders: Vec<CallTraceHolder> = Vec::new();
        let mut k: usize = 0;
        while k < capacity
            invariant
                0 <= k <= capacity,
                holders@.len() == k,
                forall|j: int| 0 <= j < k ==> !(#[trigger] holders@[j]).is_commit,
            decreases capacity - k,
        {
            holders.push(
                CallTraceHolder { trace: JVMPICallTrace::default(), is_commit: false },
            );
            k = k + 1;
        }
        CircleQueue { i_idx: 0, o_idx: 0, capacity, holders }
    }

    /// The default ring.
    pub fn new() -> (r: Self)
        ensures
            r.wf(),
            r.capacity == HOLDER_SIZE,
            r.pending().len() == 0,
    {
        Self::with_capacity(HOLDER_SIZE)
    }

    /// The cursor following `i` on the default ring.
    pub fn advice(i: usize) -> (r: usize)
        ensures
            r == ((i + 1) % (HOLDER_SIZE as int)),
    {
        (i % HOLDER_SIZE) + 1 - if (i % HOLDER_SIZE) + 1 == HOLDER_SIZE {
            HOLDER_SIZE
        } else {
            0
        }
    }

    /// Reserve the producer slot, write the trace, and commit it. A full
    /// ring (one free slot left) refuses and leaves everything unchanged:
    /// the sample is dropped rather than ever blocking the producer.
    pub fn push(&mut self, trace: &JVMPICallTrace) -> (r: bool)
        requires
            old(self).wf(),
        ensures
            final(self).wf(),
            final(self).capacity == old(self).capacity,
            r <==> old(self).pending().len() < old(self).capacity - 1,
            r ==> final(self).pending() == old(self).pending().push(trace@),
            !r ==> *final(self) == *old(self),
    {
        let holder = CallTraceHolder::new(trace);
        let next_i = if self.i_idx + 1 == self.capacity {
            0
        } else {
            self.i_idx + 1
        };
        if next_i == self.o_idx {
            proof {
                assert(self.pending().len() == self.capacity - 1);
            }
            return false;
        }
        let ghost q0 = *self;
        let mut committed = holder;
        committed.is_commit = true;
        self.holders.set(self.i_idx, committed);
        self.i_idx = next_i;
        proof {
            assert(q0.pending().len() < q0.capacity - 1);
            assert forall|k: int|
                0 <= k < self.capacity implies ((#[trigger] self.holders@[k]).is_commit
                <==> self.spec_in_window(k)) by {
                if k != q0.i_idx {
                    assert(self.holders@[k] == q0.holders@[k]);
                }
            }
            assert(self.pending() =~= q0.pending().push(trace@)) by {
                assert forall|n: int| 0 <= n < self.pending().len() implies self.pending()[n]
                    == q0.pending().push(trace@)[n] by {
                    if n < q0.pending().len() {
                        assert(self.spec_slot(n) == q0.spec_slot(n));
                        assert(q0.spec_slot(n) != q0.i_idx);
                        assert(self.holders@[self.spec_slot(n)] == q0.holders@[q0.spec_slot(n)]);
                    } else {
                        assert(self.spec_slot(n) == q0.i_idx);
                    }
                }
            }
        }
        true
    }

    /// Take the oldest committed trace off the ring, or nothing while the
    /// ring is empty.
    pub fn pop(&mut self) -> (r: Option<JVMPICallTrace>)
        requires
            old(self).wf(),
        ensures
            final(self).wf(),
            final(self).capacity == old(self).capacity,
            match r {
                Some(t) => old(self).pending().len() > 0 && t@ == old(self).pending()[0]
                    && final(self).pending() == old(self).pending().drop_first(),
                None => old(self).pending().len() == 0 && *final(self) == *old(self),
            },
    {
        if self.o_idx == self.i_idx {
            return None;
        }
        let ghost q0 = *self;
        proof {
            assert(q0.spec_in_window(q0.o_idx as int));
            assert(q0.spec_slot(0) == q0.o_idx);
        }
        let t = copy_trace(&self.holders[self.o_idx].trace);
        let mut freed = CallTraceHolder { trace: JVMPICallTrace::default(), is_commit: false };
        self.holders.set(self.o_idx, freed);
        let next_o = if self.o_idx + 1 == self.capacity {
            0
        } else {
            self.o_idx + 1
        };
        self.o_idx = next_o;
        proof {
            assert forall|k: int|
                0 <= k < self.capacity implies ((#[trigger] self.holders@[k]).is_commit
                <==> self.spec_in_window(k)) by {
                if k != q0.o_idx {
                    assert(self.holders@[k] == q0.holders@[k]);
                }
            }
            assert(self.pending() =~= q0.pending().drop_first()) by {
                assert forall|n: int| 0 <= n < self.pending().len() implies self.pending()[n]
                    == q0.pending()[n + 1] by {
                    assert(self.spec_slot(n) == q0.spec_slot(n + 1));
                    assert(q0.spec_slot(n + 1) != q0.o_idx);
                    assert(self.holders@[self.spec_slot(n)] == q0.holders@[q0.spec_slot(n + 1)]);
                }
            }
        }
        Some(t)
    }
}

} // verus!
