//! The native frame-pointer walker. Every memory read goes through a
//! bounds- and alignment-checked snapshot of the sampled stack, so the walk
//! tolerates arbitrary garbage: any guard that fails simply ends the walk.
//! A program counter inside the runtime's code heap ends the native walk
//! and records the hand-off context for the managed walker.

use vstd::prelude::*;

verus! {

/// How far above the sampled stack pointer a frame pointer may point.
pub const MAX_FRAME_SIZE: u64 = 0x40000;

/// How deep below the walk's start the stack may be followed.
pub const MAX_WALK_SIZE: u64 = 0x10000;

/// Program counters below this (or within this of the address space's top)
/// are garbage.
pub const MIN_VALID_PC: u64 = 0x1000;

/// Bytes per stack word.
pub const WORD_SIZE: u64 = 8;

/// The saved registers handed off to the managed-stack walker.
#[derive(PartialEq, Eq, Structural, Clone, Copy, Debug)]
pub struct StackContext {
    pub pc: u64,
    pub sp: u64,
    pub fp: u64,
}

impl StackContext {
    pub fn new() -> (r: Self)
        ensures
            r.pc == 0 && r.sp == 0 && r.fp == 0,
    {
        StackContext { pc: 0, sp: 0, fp: 0 }
    }

    pub fn set(&mut self, pc: u64, sp: u64, fp: u64)
        ensures
            final(self).pc == pc && final(self).sp == sp && final(self).fp == fp,
    {
        self.pc = pc;
        self.sp = sp;
        self.fp = fp;
    }
}

/// A bounds-checked snapshot of stack memory: `words[k]` holds the word at
/// address `base + 8k`.
pub struct StackMemory {
    pub base: u64,
    pub words: Vec<u64>,
}

impl StackMemory {
    pub open spec fn wf(&self) -> bool {
        &&& self.base % WORD_SIZE == 0
        &&& self.base + WORD_SIZE * self.words@.len() <= u64::MAX
    }

    /// The word at an address: something only for an aligned address inside
    /// the snapshot.
    pub open spec fn spec_read(&self, addr: int) -> Option<u64> {
        if addr % (WORD_SIZE as int) == 0 && self.base <= addr && (addr - self.base) / (
        WORD_SIZE as int) < self.words@.len() {
            Some(self.words@[(addr - self.base) / (WORD_SIZE as int)])
        } else {
            None
        }
    }

    pub fn new(base: u64, words: Vec<u64>) -> (r: Self)
        requires
            base % WORD_SIZE == 0,
            base + WORD_SIZE * words@.len() <= u64::MAX,
        ensures
            r.wf(),
            r.base == base,
            r.words@ == words@,
    {
        StackMemory { base, words }
    }

    /// Read one guarded word.
    pub fn read(&self, addr: u64) -> (r: Option<u64>)
        requires
            self.wf(),
        ensures
            r == self.spec_read(addr as int),
    {
        if addr % WORD_SIZE == 0 && addr >= self.base {
            let idx = (addr - self.base) / WORD_SIZE;
            if idx < self.words.len() as u64 {
                return Some(self.words[idx as usize]);
            }
        }
        None
    }
}

/// One full walk from the given registers: the recorded program counters
/// and, where the walk met the runtime code heap, the hand-off context.
/// Each step validates the program counter, tests it against the code heap,
/// records it, guards the frame pointer (range against the sampled stack
/// pointer, walk ceiling, alignment), and follows the saved return address
/// and caller frame pointer; any failed guard or unreadable word ends the
/// walk.
pub open spec fn spec_walk(
    mem: StackMemory,
    heap_lo: u64,
    heap_hi: u64,
    sp: u64,
    pc: u64,
    fp: u64,
    fuel: nat,
) -> (Seq<u64>, Option<StackContext>)
    decreases fuel,
{
    if fuel == 0 {
        (Seq::empty(), None::<StackContext>)
    } else if pc < MIN_VALID_PC || pc > u64::MAX - MIN_VALID_PC {
        (Seq::empty(), None::<StackContext>)
    } else if heap_lo <= pc < heap_hi {
        (Seq::empty(), Some(StackContext { pc, sp, fp }))
    } else if fp < sp || fp >= sp + MAX_FRAME_SIZE || fp >= sp + MAX_WALK_SIZE || fp % WORD_SIZE
        != 0 {
        (seq![pc], None::<StackContext>)
    } else {
        match mem.spec_read(fp + WORD_SIZE) {
            None => (seq![pc], None::<StackContext>),
            Some(pc2) => match mem.spec_read(fp as int) {
                None => (seq![pc], None::<StackContext>),
                Some(fp2) => {
                    let rest = spec_walk(
                        mem,
                        heap_lo,
                        heap_hi,
                        sp,
                        pc2,
                        fp2,
                        (fuel - 1) as nat,
                    );
                    (seq![pc] + rest.0, rest.1)
                },
            },
        }
    }
}

fn walk_rec(
    mem: &StackMemory,
    heap_lo: u64,
    heap_hi: u64,
    sp: u64,
    pc: u64,
    fp: u64,
    fuel: usize,
    frames: &mut Vec<u64>,
    java_ctx: &mut StackContext,
)
    requires
        mem.wf(),
    ensures
        final(frames)@ == old(frames)@ + spec_walk(*mem, heap_lo, heap_hi, sp, pc, fp,
            fuel as nat,
        ).0,
        match spec_walk(*mem, heap_lo, heap_hi, sp, pc, fp, fuel as nat).1 {
            Some(c) => *final(java_ctx) == c,
            None => *final(java_ctx) == *old(java_ctx),
        },
    decreases fuel,
{
    let ghost walk = spec_walk(*mem, heap_lo, heap_hi, sp, pc, fp, fuel as nat);
    if fuel == 0 {
        proof {
            assert(frames@ =~= old(frames)@ + walk.0);
        }
        return ;
    }
    if pc < MIN_VALID_PC || pc > u64::MAX - MIN_VALID_PC {
        proof {
            assert(frames@ =~= old(frames)@ + walk.0);
        }
        return ;
    }
    if heap_lo <= pc && pc < heap_hi {
        java_ctx.set(pc, sp, fp);
        proof {
            assert(frames@ =~= old(frames)@ + walk.0);
        }
        return ;
    }
    frames.push(pc);
    if fp < sp || fp - sp >= MAX_FRAME_SIZE || fp - sp >= MAX_WALK_SIZE || fp % WORD_SIZE != 0 {
        proof {
            assert(frames@ =~= old(frames)@ + walk.0);
        }
        return ;
    }
    let ret_slot = if fp <= u64::MAX - WORD_SIZE {
        mem.read(fp + WORD_SIZE)
    } else {
        proof {
            assert(mem.spec_read(fp + WORD_SIZE) is None);
        }
        None
    };
    let pc2 = match ret_slot {
        None => {
            proof {
                assert(frames@ =~= old(frames)@ + walk.0);
            }
            return ;
        },
        Some(v) => v,
    };
    let fp2 = match mem.read(fp) {
        None => {
            proof {
                assert(frames@ =~= old(frames)@ + walk.0);
            }
            return ;
        },
        Some(v) => v,
    };
    let ghost mid = frames@;
    walk_rec(mem, heap_lo, heap_hi, sp, pc2, fp2, fuel - 1, frames, java_ctx);
    proof {
        let rest = spec_walk(*mem, heap_lo, heap_hi, sp, pc2, fp2, (fuel - 1) as nat);
        assert(frames@ =~= old(frames)@ + walk.0) by {
            assert(mid == old(frames)@.push(pc));
            assert(frames@ == mid + rest.0);
            assert(walk.0 == seq![pc] + rest.0);
            assert(old(frames)@ + (seq![pc] + rest.0) =~= (old(frames)@ + seq![pc]) + rest.0);
            assert(old(frames)@ + seq![pc] =~= old(frames)@.push(pc));
        }
    }
}

pub struct StackWalker;

impl StackWalker {
    /// Walk the native stack from the sampled registers, collecting at most
    /// `max_frames` program counters, and record the hand-off context when
    /// the walk reaches the runtime code heap `[heap_lo, heap_hi)`.
    pub fn walk_frame(
        mem: &StackMemory,
        heap_lo: u64,
        heap_hi: u64,
        pc: u64,
        sp: u64,
        fp: u64,
        max_frames: usize,
        java_ctx: &mut StackContext,
    ) -> (r: Vec<u64>)
        requires
            mem.wf(),
        ensures
            r@ == spec_walk(*mem, heap_lo, heap_hi, sp, pc, fp, max_frames as nat).0,
            r@.len() <= max_frames,
            match spec_walk(*mem, heap_lo, heap_hi, sp, pc, fp, max_frames as nat).1 {
                Some(c) => *final(java_ctx) == c,
                None => *final(java_ctx) == *old(java_ctx),
            },
    {
        let mut frames: Vec<u64> = Vec::new();
        walk_rec(mem, heap_lo, heap_hi, sp, pc, fp, max_frames, &mut frames, java_ctx);
        proof {
            lemma_walk_len(*mem, heap_lo, heap_hi, sp, pc, fp, max_frames as nat);
        }
        frames
    }
}

/// A walk never records more frames than it was given fuel.
proof fn lemma_walk_len(
    mem: StackMemory,
    heap_lo: u64,
    heap_hi: u64,
    sp: u64,
    pc: u64,
    fp: u64,
    fuel: nat,
)
    ensures
        spec_walk(mem, heap_lo, heap_hi, sp, pc, fp, fuel).0.len() <= fuel,
    decreases fuel,
{
    if fuel > 0 {
        if !(pc < MIN_VALID_PC || pc > u64::MAX - MIN_VALID_PC) && !(heap_lo <= pc < heap_hi) && !(
        fp < sp || fp >= sp + MAX_FRAME_SIZE || fp >= sp + MAX_WALK_SIZE || fp % WORD_SIZE != 0) {
            match mem.spec_read(fp + WORD_SIZE) {
                None => {},
                Some(pc2) => match mem.spec_read(fp as int) {
                    None => {},
                    Some(fp2) => {
                        lemma_walk_len(mem, heap_lo, heap_hi, sp, pc2, fp2, (fuel - 1) as nat);
                    },
                },
            }
        }
    }
}

} // verus!
