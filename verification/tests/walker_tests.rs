use agent_profiler::walker::StackContext;
use agent_profiler::walker::StackMemory;
use agent_profiler::walker::StackWalker;

#[test]
fn test_walk_rejects_low_pc() {
    // a context with pc just below the valid floor records nothing
    let mem = StackMemory::new(0x8000, vec![0; 16]);
    let mut ctx = StackContext::new();
    let frames = StackWalker::walk_frame(&mem, 0, 0, 0x1000 - 1, 0x8000, 0x8000, 128, &mut ctx);
    assert_eq!(frames.len(), 0);
    assert_eq!(ctx.pc, 0);
}

#[test]
fn test_walk_stops_at_unaligned_fp() {
    let mem = StackMemory::new(0x8000, vec![0; 16]);
    let mut ctx = StackContext::new();
    // valid pc, frame pointer off word alignment: the frame is recorded,
    // then the walk stops
    let frames = StackWalker::walk_frame(&mem, 0, 0, 0x400000, 0x8000, 0x8001, 128, &mut ctx);
    assert_eq!(frames.len(), 1);
    assert_eq!(frames[0], 0x400000);
}

#[test]
fn test_walk_follows_frame_chain() {
    // address 0x8000 holds the caller frame pointer 0x8020; 0x8008 holds
    // the return pc 0x400100; 0x8020 holds a garbage frame pointer below
    // the stack pointer (the walk stops there); 0x8028 holds 0x400200
    let mut w = vec![0u64; 16];
    w[0] = 0x8020;
    w[1] = 0x400100;
    w[4] = 0;
    w[5] = 0x400200;
    let mem = StackMemory::new(0x8000, w);
    let mut ctx = StackContext::new();
    let frames = StackWalker::walk_frame(&mem, 0, 0, 0x400000, 0x8000, 0x8000, 128, &mut ctx);
    // first frame pc, then the return pc found through fp, then the return
    // pc of the second frame; the third frame's fp (0) fails the guard
    assert_eq!(frames, vec![0x400000, 0x400100, 0x400200]);
}

#[test]
fn test_walk_hands_off_to_code_heap() {
    let mem = StackMemory::new(0x8000, vec![0; 16]);
    let mut ctx = StackContext::new();
    let frames =
        StackWalker::walk_frame(&mem, 0x700000, 0x800000, 0x700abc, 0x8000, 0x8000, 128, &mut ctx);
    assert_eq!(frames.len(), 0);
    assert_eq!(ctx.pc, 0x700abc);
    assert_eq!(ctx.sp, 0x8000);
    assert_eq!(ctx.fp, 0x8000);
}

#[test]
fn test_walk_respects_frame_limit() {
    // self-referential frame: fp points at itself, ret pc constant
    let mut w = vec![0u64; 2];
    w[0] = 0x8000;
    w[1] = 0x400100;
    let mem = StackMemory::new(0x8000, w);
    let mut ctx = StackContext::new();
    let frames = StackWalker::walk_frame(&mem, 0, 0, 0x400000, 0x8000, 0x8000, 5, &mut ctx);
    assert_eq!(frames.len(), 5);
}
