//! The sampler coordinator: per-bucket locks and scratch space keyed by a
//! hash of the OS thread id, the image registry, the runtime-stub
//! pseudo-image, the handoff ring, the jittered timer table and the
//! thread-metadata map. The signal-time capture assembles native frames,
//! managed frames and one trailing thread-id frame into a trace and hands
//! it to the ring.

use vstd::prelude::*;
use std::collections::HashMap;
use crate::code_cache::CodeBlob;
use crate::code_cache::CodeCache;
use crate::code_cache::spec_blobs_regular;
use crate::code_cache::spec_blobs_sorted;
use crate::code_cache::spec_search_result;
use crate::ring::CircleQueue;
use crate::signal::SignalProf;
use crate::spinlock::SpinLock;
use crate::broadcast_alarm::WalkerTrace;
use crate::vm::JVMPICallFrame;
use crate::vm::JVMPICallTrace;
use crate::vm::BCI_NATIVE_FRAME;
use crate::vm::BCI_THREADID;
use crate::vm::MAX_FRAMES;
use crate::vm::MAX_NATIVE_FRAMES;
use crate::vm::RESERVED_FRAMES;

verus! {

/// How many sampling buckets (locks and scratch buffers) there are.
pub const CONCURRENCY_LEVEL: usize = 16;

/// The default shortest jittered sampling interval, in nanoseconds.
pub const DEFAULT_MIN_SIGNAL: u32 = 100_000_000;

/// The default longest jittered sampling interval, in nanoseconds.
pub const DEFAULT_MAX_SIGNAL: u32 = 500_000_000;

/// A managed thread's identity as the renderer needs it, keyed by OS
/// thread id in the coordinator's map.
pub struct ThreadInfo {
    pub jthread_id: u64,
    pub name: Vec<u8>,
}

/// The bucket a thread id falls into: the id folded over itself by two
/// shifted xors, reduced modulo the bucket count. A pure function of the
/// id, so one thread always hashes to the same bucket.
pub open spec fn spec_lock_index(tid: u32) -> u32 {
    {
        let a = tid ^ (tid >> 8u32);
        let b = a ^ (a >> 4u32);
        b % (CONCURRENCY_LEVEL as u32)
    }
}

/// The first image whose bounds contain the address.
pub open spec fn spec_first_lib(caches: Seq<CodeCache>, pc: u64) -> Option<int>
    decreases caches.len(),
{
    if caches.len() == 0 {
        None
    } else if caches[0].min_address <= pc < caches[0].max_address {
        Some(0)
    } else {
        match spec_first_lib(caches.drop_first(), pc) {
            Some(i) => Some(i + 1),
            None => None,
        }
    }
}

/// What one walked counter contributes on a fully well-formed registry:
/// the native frame of the blob the first containing image's index finds,
/// or nothing.
pub open spec fn spec_native_step(caches: Seq<CodeCache>, pc: u64) -> Seq<JVMPICallFrame> {
    match spec_first_lib(caches, pc) {
        None => Seq::empty(),
        Some(i) => match spec_search_result(caches[i].blobs@, pc) {
            Some(b) => seq![JVMPICallFrame { bci: BCI_NATIVE_FRAME, method_id: b.start }],
            None => Seq::empty(),
        },
    }
}

/// The native frames a walked chain resolves to, in walk order.
pub open spec fn spec_native_frames(caches: Seq<CodeCache>, chan: Seq<u64>) -> Seq<JVMPICallFrame>
    decreases chan.len(),
{
    if chan.len() == 0 {
        Seq::empty()
    } else {
        spec_native_step(caches, chan[0]) + spec_native_frames(caches, chan.drop_first())
    }
}

/// The bytes of `[stubs]`.
pub open spec fn spec_stubs_name() -> Seq<u8> {
    seq![91u8, 115u8, 116u8, 117u8, 98u8, 115u8, 93u8]
}

/// The bytes of `call_stub`.
pub open spec fn spec_call_stub_name() -> Seq<u8> {
    seq![99u8, 97u8, 108u8, 108u8, 95u8, 115u8, 116u8, 117u8, 98u8]
}

/// The sampler's whole state.
pub struct Profiler {
    pub sigprof: SignalProf,
    pub running: bool,
    pub queue: CircleQueue,
    pub calltrace_buffer: Vec<Vec<JVMPICallFrame>>,
    pub code_caches: Vec<CodeCache>,
    pub walker_trace: WalkerTrace,
    pub locks: Vec<SpinLock>,
    pub stub_lock: SpinLock,
    pub runtime_stub: CodeCache,
    pub call_stub_begin: u64,
    pub call_stub_end: u64,
    pub max_frames: usize,
    pub jthreads: HashMap<u64, ThreadInfo>,
}

impl Profiler {
    /// Structural soundness: one lock and one scratch buffer per bucket, a
    /// sound ring and timer table, the stub lock at rest.
    pub open spec fn wf(&self) -> bool {
        &&& self.locks@.len() == CONCURRENCY_LEVEL
        &&& self.calltrace_buffer@.len() == CONCURRENCY_LEVEL
        &&& self.queue.wf()
        &&& self.sigprof.wf()
        &&& !self.stub_lock.locked
    }

    /// Every image of the registry is sorted; queries are meaningful only
    /// then.
    pub open spec fn registry_sorted(&self) -> bool {
        forall|i: int|
            0 <= i < self.code_caches@.len() ==> spec_blobs_sorted(
                (#[trigger] self.code_caches@[i]).blobs@,
            )
    }

    /// Every image is fully well formed: sorted, non-overlapping blobs.
    /// Lookups are pinned down exactly then.
    pub open spec fn registry_regular(&self) -> bool {
        forall|i: int|
            0 <= i < self.code_caches@.len() ==> spec_blobs_regular(
                (#[trigger] self.code_caches@[i]).blobs@,
            )
    }


    /// The coordinator's fixed furniture: the timer table, the bucket
    /// locks and scratch, the stub lock, the stub image, the interpreter
    /// call-stub span and the frame cap — equal between two states.
    pub open spec fn spec_same_fixtures(&self, other: &Self) -> bool {
        &&& self.sigprof == other.sigprof
        &&& self.locks == other.locks
        &&& self.stub_lock == other.stub_lock
        &&& self.calltrace_buffer == other.calltrace_buffer
        &&& self.runtime_stub == other.runtime_stub
        &&& self.call_stub_begin == other.call_stub_begin
        &&& self.call_stub_end == other.call_stub_end
        &&& self.max_frames == other.max_frames
    }

    pub fn new() -> (r: Self)
        ensures
            r.wf(),
            !r.running,
            !r.walker_trace.running,
            r.queue.pending().len() == 0,
            r.code_caches@.len() == 0,
            r.runtime_stub.blobs@.len() == 0,
            r.runtime_stub.name.name@ == spec_stubs_name(),
            r.call_stub_begin == 0 && r.call_stub_end == 0,
            r.max_frames == MAX_FRAMES,
            r.jthreads@ == Map::<u64, ThreadInfo>::empty(),
            forall|k: int| 0 <= k < CONCURRENCY_LEVEL ==> !(#[trigger] r.locks@[k]).locked,
            forall|k: int|
                0 <= k < CONCURRENCY_LEVEL ==> (#[trigger] r.calltrace_buffer@[k])@.len()
                    == MAX_FRAMES + MAX_NATIVE_FRAMES + RESERVED_FRAMES,
            forall|k: int|
                0 <= k < crate::signal::MAX_SIGNAL_SIZE ==> DEFAULT_MIN_SIGNAL <= (
                #[trigger] r.sigprof.intervals@[k]) <= DEFAULT_MAX_SIGNAL,
    {
        broadcast use vstd::std_specs::hash::group_hash_axioms;

        let sigprof = SignalProf::new(DEFAULT_MIN_SIGNAL, DEFAULT_MAX_SIGNAL);
        let queue = CircleQueue::new();
        let deeps = MAX_FRAMES + MAX_NATIVE_FRAMES + RESERVED_FRAMES;
        let mut calltrace_buffer: Vec<Vec<JVMPICallFrame>> = Vec::new();
        let mut i: usize = 0;
        while i < CONCURRENCY_LEVEL
            invariant
                0 <= i <= CONCURRENCY_LEVEL,
                calltrace_buffer@.len() == i,
                deeps == MAX_FRAMES + MAX_NATIVE_FRAMES + RESERVED_FRAMES,
                forall|j: int|
                    0 <= j < i ==> (#[trigger] calltrace_buffer@[j])@.len() == deeps,
            decreases CONCURRENCY_LEVEL - i,
        {
            let mut buf: Vec<JVMPICallFrame> = Vec::new();
            let mut k: usize = 0;
            while k < deeps
                invariant
                    0 <= k <= deeps,
                    buf@.len() == k,
                decreases deeps - k,
            {
                buf.push(JVMPICallFrame { bci: 0, method_id: 0 });
                k = k + 1;
            }
            calltrace_buffer.push(buf);
            i = i + 1;
        }
        let mut locks: Vec<SpinLock> = Vec::new();
        let mut j: usize = 0;
        while j < CONCURRENCY_LEVEL
            invariant
                0 <= j <= CONCURRENCY_LEVEL,
                locks@.len() == j,
                forall|k: int| 0 <= k < j ==> !(#[trigger] locks@[k]).locked,
            decreases CONCURRENCY_LEVEL - j,
        {
            locks.push(SpinLock::new());
            j = j + 1;
        }
        let mut stubs_name: Vec<u8> = Vec::new();
        stubs_name.push(91);
        stubs_name.push(115);
        stubs_name.push(116);
        stubs_name.push(117);
        stubs_name.push(98);
        stubs_name.push(115);
        stubs_name.push(93);
        proof {
            assert(stubs_name@ =~= spec_stubs_name());
        }
        let runtime_stub = CodeCache::new(stubs_name.as_slice(), 0xffff);
        Profiler {
            sigprof,
            running: false,
            queue,
            calltrace_buffer,
            code_caches: Vec::new(),
            walker_trace: WalkerTrace::new(),
            locks,
            stub_lock: SpinLock::new(),
            runtime_stub,
            call_stub_begin: 0,
            call_stub_end: 0,
            max_frames: MAX_FRAMES,
            jthreads: HashMap::new(),
        }
    }

    /// Take freshly parsed images into the registry.
    pub fn update_symbols(&mut self, images: &mut Vec<CodeCache>)
        ensures
            final(self).code_caches@ == old(self).code_caches@ + old(images)@,
            final(self).running == old(self).running,
            final(self).queue == old(self).queue,
            final(self).jthreads == old(self).jthreads,
            final(self).locks == old(self).locks,
            final(self).calltrace_buffer == old(self).calltrace_buffer,
            final(self).sigprof == old(self).sigprof,
            final(self).stub_lock == old(self).stub_lock,
            final(self).runtime_stub == old(self).runtime_stub,
            final(self).call_stub_begin == old(self).call_stub_begin,
            final(self).call_stub_end == old(self).call_stub_end,
            final(self).max_frames == old(self).max_frames,
            final(self).walker_trace == old(self).walker_trace,
    {
        self.code_caches.append(images);
    }

    /// The first image whose bounds contain the address.
    pub fn find_library_by_address(&self, pc: u64) -> (r: Option<&CodeCache>)
        ensures
            match r {
                Some(cc) => spec_first_lib(self.code_caches@, pc) matches Some(i)
                    && *cc == self.code_caches@[i],
                None => spec_first_lib(self.code_caches@, pc) is None,
            },
    {
        let mut i: usize = 0;
        proof {
            lemma_first_lib_nonneg(self.code_caches@, pc);
        }
        while i < self.code_caches.len()
            invariant
                0 <= i <= self.code_caches@.len(),
                forall|j: int|
                    0 <= j < i ==> !((#[trigger] self.code_caches@[j]).min_address <= pc
                        < self.code_caches@[j].max_address),
                match spec_first_lib(self.code_caches@, pc) {
                    Some(k) => i <= k,
                    None => true,
                },
            decreases self.code_caches@.len() - i,
        {
            if self.code_caches[i].contains(pc) {
                proof {
                    lemma_first_lib_is_first(self.code_caches@, pc, i as int);
                }
                return Some(&self.code_caches[i]);
            }
            proof {
                lemma_first_lib_is_first_none(self.code_caches@, pc, i as int);
            }
            i = i + 1;
        }
        proof {
            lemma_first_lib_exists(self.code_caches@, pc);
        }
        None
    }

    /// The code blob covering a native program counter, through the first
    /// containing image's sorted index.
    pub fn find_native_method(&self, pc: u64) -> (r: Option<&CodeBlob>)
        requires
            self.registry_sorted(),
        ensures
            match spec_first_lib(self.code_caches@, pc) {
                None => r is None,
                Some(i) => {
                    &&& (spec_blobs_regular(self.code_caches@[i].blobs@) ==> (match r {
                        Some(b) => spec_search_result(self.code_caches@[i].blobs@, pc) == Some(
                            *b,
                        ),
                        None => spec_search_result(self.code_caches@[i].blobs@, pc) is None,
                    }))
                    &&& (r matches Some(b) ==> exists|j: int|
                        0 <= j < self.code_caches@[i].blobs@.len()
                            && #[trigger] self.code_caches@[i].blobs@[j] == *b)
                },
            },
    {
        let lib = self.find_library_by_address(pc);
        match lib {
            None => None,
            Some(cc) => {
                proof {
                    lemma_first_lib_nonneg(self.code_caches@, pc);
                    if let Some(i) = spec_first_lib(self.code_caches@, pc) {
                        assert(spec_blobs_sorted((#[trigger] self.code_caches@[i]).blobs@));
                        assert(cc.blobs@ == self.code_caches@[i].blobs@);
                    }
                }
                cc.binary_search(pc)
            },
        }
    }

    /// Hand one captured trace to the ring; a full ring drops it.
    pub fn push_trace(&mut self, trace: &JVMPICallTrace) -> (r: bool)
        requires
            old(self).wf(),
        ensures
            final(self).wf(),
            r <==> old(self).queue.pending().len() < old(self).queue.capacity - 1,
            r ==> final(self).queue.pending() == old(self).queue.pending().push(trace@),
            !r ==> final(self).queue == old(self).queue,
            final(self).spec_same_fixtures(&old(self)),
            final(self).code_caches == old(self).code_caches,
            final(self).running == old(self).running,
            final(self).walker_trace == old(self).walker_trace,
            final(self).jthreads == old(self).jthreads,
    {
        self.queue.push(trace)
    }

    /// The sampling bucket for a thread id.
    pub fn get_lock_index(&self, tid: u32) -> (r: u32)
        ensures
            r == spec_lock_index(tid),
            r < CONCURRENCY_LEVEL,
    {
        let mut t = tid;
        t = t ^ (t >> 8u32);
        t = t ^ (t >> 4u32);
        t % (CONCURRENCY_LEVEL as u32)
    }

    /// Record a thread's identity under its OS thread id.
    pub fn set_thread_info(&mut self, nthread_id: u64, thr_info: ThreadInfo)
        ensures
            final(self).jthreads@ == old(self).jthreads@.insert(nthread_id, thr_info),
            final(self).spec_same_fixtures(&old(self)),
            final(self).queue == old(self).queue,
            final(self).code_caches == old(self).code_caches,
            final(self).running == old(self).running,
            final(self).walker_trace == old(self).walker_trace,
    {
        broadcast use vstd::std_specs::hash::group_hash_axioms;

        self.jthreads.insert(nthread_id, thr_info);
    }

    /// Record one runtime-generated stub in the stub pseudo-image, widen
    /// its bounds, and note the interpreter call stub's span when it goes
    /// by. The returned span is what the caller widens the code-heap
    /// bounds with.
    pub fn add_runtime_stub(&mut self, name: &[u8], address: u64, len: u32) -> (r: (u64, u64))
        requires
            old(self).wf(),
            address + len <= u64::MAX,
        ensures
            final(self).wf(),
            r.0 == address && r.1 == address + len,
            final(self).runtime_stub.blobs@.len() == old(self).runtime_stub.blobs@.len() + 1,
            final(self).runtime_stub.blobs@.last().start == address,
            final(self).runtime_stub.blobs@.last().end == address + len,
            final(self).runtime_stub.blobs@.last().name.name@ == crate::code_cache::spec_sanitized(
                name@,
            ),
            final(self).runtime_stub.blobs@.drop_last() == old(self).runtime_stub.blobs@,
            final(self).call_stub_begin == if name@ == spec_call_stub_name() {
                address
            } else {
                old(self).call_stub_begin
            },
            final(self).call_stub_end == if name@ == spec_call_stub_name() {
                (address + len) as u64
            } else {
                old(self).call_stub_end
            },
            final(self).code_caches == old(self).code_caches,
            final(self).queue == old(self).queue,
            final(self).jthreads == old(self).jthreads,
            final(self).running == old(self).running,
            final(self).walker_trace == old(self).walker_trace,
            final(self).sigprof == old(self).sigprof,
            final(self).locks == old(self).locks,
            final(self).calltrace_buffer == old(self).calltrace_buffer,
            final(self).max_frames == old(self).max_frames,
            final(self).stub_lock == old(self).stub_lock,
            final(self).runtime_stub.spec_same_meta(&old(self).runtime_stub),
            final(self).runtime_stub.min_address == if address < old(
                self,
            ).runtime_stub.min_address {
                address
            } else {
                old(self).runtime_stub.min_address
            },
            final(self).runtime_stub.max_address == if address + len > old(
                self,
            ).runtime_stub.max_address {
                (address + len) as u64
            } else {
                old(self).runtime_stub.max_address
            },
    {
        self.stub_lock.lock();
        self.runtime_stub.add(address, len as u64, name, true);
        self.stub_lock.unlock();
        let end = address + len as u64;
        let mut w: Vec<u8> = Vec::new();
        w.push(99);
        w.push(97);
        w.push(108);
        w.push(108);
        w.push(95);
        w.push(115);
        w.push(116);
        w.push(117);
        w.push(98);
        proof {
            assert(w@ =~= spec_call_stub_name());
        }
        if crate::bytes::bytes_eq(name, w.as_slice()) {
            self.call_stub_begin = address;
            self.call_stub_end = end;
        }
        (address, end)
    }

    /// The span newly compiled managed code covers; the caller widens the
    /// code-heap bounds with it. Managed code is resolved through the
    /// runtime, so no blob is recorded.
    pub fn add_java_method(&self, address: u64, len: u32) -> (r: (u64, u64))
        requires
            address + len <= u64::MAX,
        ensures
            r.0 == address && r.1 == address + len,
    {
        (address, address + len as u64)
    }

    /// Mark the sampler running; the caller spawns the consumer thread.
    pub fn start(&mut self)
        ensures
            final(self).running,
            final(self).spec_same_fixtures(&old(self)),
            final(self).queue == old(self).queue,
            final(self).code_caches == old(self).code_caches,
            final(self).jthreads == old(self).jthreads,
            final(self).walker_trace == old(self).walker_trace,
    {
        self.running = true;
    }

    /// Stop sampling: the broadcaster halts and the running flag drops.
    /// Everything else stays as it was, so a second stop leaves the state
    /// identical.
    pub fn stop(&mut self)
        ensures
            !final(self).running,
            !final(self).walker_trace.running,
            final(self).walker_trace.interval == old(self).walker_trace.interval,
            final(self).spec_same_fixtures(&old(self)),
            final(self).queue == old(self).queue,
            final(self).code_caches == old(self).code_caches,
            final(self).jthreads == old(self).jthreads,
    {
        self.walker_trace.stop();
        self.running = false;
    }

    /// Turn walked native program counters into frames: one native frame
    /// per counter the index resolves, in walk order, counters without a
    /// blob dropped. On a fully well-formed registry the result is exactly
    /// the resolvable counters' blobs.
    pub fn convert_native_trace(&self, call_chan: &Vec<u64>) -> (r: Vec<JVMPICallFrame>)
        requires
            self.registry_sorted(),
        ensures
            r@.len() <= call_chan@.len(),
            forall|k: int|
                0 <= k < r@.len() ==> (#[trigger] r@[k]).bci == BCI_NATIVE_FRAME,
            self.registry_regular() ==> r@ == spec_native_frames(self.code_caches@, call_chan@),
    {
        let ghost regular = self.registry_regular();
        let mut out: Vec<JVMPICallFrame> = Vec::new();
        let mut i: usize = 0;
        proof {
            assert(call_chan@.skip(0) =~= call_chan@);
        }
        while i < call_chan.len()
            invariant
                0 <= i <= call_chan@.len(),
                out@.len() <= i,
                self.registry_sorted(),
                regular == self.registry_regular(),
                forall|k: int|
                    0 <= k < out@.len() ==> (#[trigger] out@[k]).bci == BCI_NATIVE_FRAME,
                regular ==> spec_native_frames(self.code_caches@, call_chan@) == out@
                    + spec_native_frames(self.code_caches@, call_chan@.skip(i as int)),
            decreases call_chan@.len() - i,
        {
            let ghost pre = out@;
            proof {
                assert(call_chan@.skip(i as int)[0] == call_chan@[i as int]);
                assert(call_chan@.skip(i as int).drop_first() =~= call_chan@.skip(i + 1));
            }
            match self.find_native_method(call_chan[i]) {
                Some(blob) => {
                    out.push(JVMPICallFrame { bci: BCI_NATIVE_FRAME, method_id: blob.start });
                    proof {
                        if regular {
                            lemma_first_lib_nonneg(self.code_caches@, call_chan@[i as int]);
                            if let Some(li) = spec_first_lib(
                                self.code_caches@,
                                call_chan@[i as int],
                            ) {
                                assert(spec_blobs_regular(
                                    (#[trigger] self.code_caches@[li]).blobs@,
                                ));
                                assert(spec_native_step(self.code_caches@, call_chan@[i as int])
                                    =~= seq![
                                    JVMPICallFrame { bci: BCI_NATIVE_FRAME, method_id: blob.start },
                                ]);
                            }
                            assert(pre + (spec_native_step(self.code_caches@, call_chan@[i as int])
                                + spec_native_frames(self.code_caches@, call_chan@.skip(i + 1)))
                                =~= out@ + spec_native_frames(
                                self.code_caches@,
                                call_chan@.skip(i + 1),
                            ));
                        }
                    }
                },
                None => {
                    proof {
                        if regular {
                            lemma_first_lib_nonneg(self.code_caches@, call_chan@[i as int]);
                            if let Some(li) = spec_first_lib(
                                self.code_caches@,
                                call_chan@[i as int],
                            ) {
                                assert(spec_blobs_regular(
                                    (#[trigger] self.code_caches@[li]).blobs@,
                                ));
                            }
                            assert(spec_native_step(self.code_caches@, call_chan@[i as int])
                                =~= Seq::<JVMPICallFrame>::empty());
                            assert(pre + (spec_native_step(self.code_caches@, call_chan@[i as int])
                                + spec_native_frames(self.code_caches@, call_chan@.skip(i + 1)))
                                =~= out@ + spec_native_frames(
                                self.code_caches@,
                                call_chan@.skip(i + 1),
                            ));
                        }
                    }
                },
            }
            i = i + 1;
        }
        proof {
            if regular {
                assert(call_chan@.skip(call_chan@.len() as int) =~= Seq::<u64>::empty());
                assert(out@ + spec_native_frames(
                    self.code_caches@,
                    call_chan@.skip(call_chan@.len() as int),
                ) =~= out@);
            }
        }
        out
    }
}

/// Append every frame of `src` to `dst`.
fn append_frames(dst: &mut Vec<JVMPICallFrame>, src: &Vec<JVMPICallFrame>)
    ensures
        final(dst)@ == old(dst)@ + src@,
{
    let mut i: usize = 0;
    while i < src.len()
        invariant
            0 <= i <= src@.len(),
            dst@ == old(dst)@ + src@.take(i as int),
        decreases src@.len() - i,
    {
        dst.push(src[i]);
        proof {
            assert(dst@ =~= old(dst)@ + src@.take(i + 1));
        }
        i = i + 1;
    }
    proof {
        assert(src@.take(src@.len() as int) =~= src@);
    }
}

/// One captured sample: the native frames, then the managed frames, then
/// exactly one trailing thread-id frame carrying the OS thread id.
pub fn assemble_trace(
    native: &Vec<JVMPICallFrame>,
    java: &Vec<JVMPICallFrame>,
    tid: u32,
    env: u64,
) -> (r: JVMPICallTrace)
    ensures
        r.frames@ == native@ + java@ + seq![
            JVMPICallFrame { bci: BCI_THREADID, method_id: tid as u64 },
        ],
        r.frames@.len() > 0,
        r.frames@.last().bci == BCI_THREADID,
        r.frames@.last().method_id == tid as u64,
        r.env == env,
        r.num_frames == 0,
{
    let mut frames = crate::ring::copy_frames(native);
    append_frames(&mut frames, java);
    frames.push(JVMPICallFrame { bci: BCI_THREADID, method_id: tid as u64 });
    proof {
        assert(frames@ =~= native@ + java@ + seq![
            JVMPICallFrame { bci: BCI_THREADID, method_id: tid as u64 },
        ]);
    }
    JVMPICallTrace { env, num_frames: 0, frames }
}

/// A found first image index lies inside the registry and its image
/// contains the address.
proof fn lemma_first_lib_nonneg(caches: Seq<CodeCache>, pc: u64)
    ensures
        match spec_first_lib(caches, pc) {
            Some(k) => 0 <= k < caches.len() && caches[k].min_address <= pc
                < caches[k].max_address,
            None => true,
        },
    decreases caches.len(),
{
    if caches.len() > 0 {
        lemma_first_lib_nonneg(caches.drop_first(), pc);
        if !(caches[0].min_address <= pc < caches[0].max_address) {
            match spec_first_lib(caches.drop_first(), pc) {
                Some(k) => {
                    assert(caches.drop_first()[k] == caches[k + 1]);
                },
                None => {},
            }
        }
    }
}

/// A containing image at `i` with none before it is the first.
proof fn lemma_first_lib_is_first(caches: Seq<CodeCache>, pc: u64, i: int)
    requires
        0 <= i < caches.len(),
        caches[i].min_address <= pc < caches[i].max_address,
        forall|j: int|
            0 <= j < i ==> !((#[trigger] caches[j]).min_address <= pc < caches[j].max_address),
    ensures
        spec_first_lib(caches, pc) == Some(i),
    decreases i,
{
    if i == 0 {
    } else {
        assert forall|j: int|
            0 <= j < i - 1 implies !((#[trigger] caches.drop_first()[j]).min_address <= pc
            < caches.drop_first()[j].max_address) by {
            assert(caches.drop_first()[j] == caches[j + 1]);
        }
        assert(caches.drop_first()[i - 1] == caches[i]);
        lemma_first_lib_is_first(caches.drop_first(), pc, i - 1);
    }
}

/// While nothing up to `i` contains the address, the first containing
/// image lies past `i`.
proof fn lemma_first_lib_is_first_none(caches: Seq<CodeCache>, pc: u64, i: int)
    requires
        0 <= i < caches.len(),
        !(caches[i].min_address <= pc < caches[i].max_address),
        forall|j: int|
            0 <= j < i ==> !((#[trigger] caches[j]).min_address <= pc < caches[j].max_address),
    ensures
        match spec_first_lib(caches, pc) {
            Some(k) => k > i,
            None => true,
        },
    decreases i,
{
    if i == 0 {
    } else {
        assert forall|j: int|
            0 <= j < i - 1 implies !((#[trigger] caches.drop_first()[j]).min_address <= pc
            < caches.drop_first()[j].max_address) by {
            assert(caches.drop_first()[j] == caches[j + 1]);
        }
        assert(caches.drop_first()[i - 1] == caches[i]);
        lemma_first_lib_is_first_none(caches.drop_first(), pc, i - 1);
        lemma_first_lib_nonneg(caches.drop_first(), pc);
    }
    lemma_first_lib_nonneg(caches, pc);
}

/// Where no image contains the address, there is no first one.
proof fn lemma_first_lib_exists(caches: Seq<CodeCache>, pc: u64)
    ensures
        (forall|j: int|
            0 <= j < caches.len() ==> !((#[trigger] caches[j]).min_address <= pc
                < caches[j].max_address)) ==> spec_first_lib(caches, pc) is None,
    decreases caches.len(),
{
    if caches.len() > 0 {
        lemma_first_lib_exists(caches.drop_first(), pc);
        if forall|j: int|
            0 <= j < caches.len() ==> !((#[trigger] caches[j]).min_address <= pc
                < caches[j].max_address) {
            assert forall|j: int|
                0 <= j < caches.drop_first().len() implies !((
            #[trigger] caches.drop_first()[j]).min_address <= pc
                < caches.drop_first()[j].max_address) by {
                assert(caches.drop_first()[j] == caches[j + 1]);
            }
        }
    }
}

} // verus!
