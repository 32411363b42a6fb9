use agent_profiler::ring::CircleQueue;
use agent_profiler::vm::JVMPICallFrame;
use agent_profiler::vm::JVMPICallTrace;

fn trace(tag: u64) -> JVMPICallTrace {
    JVMPICallTrace::new(tag, vec![JVMPICallFrame { bci: 0, method_id: tag }])
}

#[test]
fn test_ring_full_policy() {
    let mut q = CircleQueue::with_capacity(4);
    assert!(q.push(&trace(1)));
    assert!(q.push(&trace(2)));
    assert!(q.push(&trace(3)));
    // one free slot is kept: the ring holds at most capacity - 1 traces
    assert!(!q.push(&trace(4)));
    let first = q.pop().expect("ring should hold a trace");
    assert_eq!(first.env, 1);
    assert!(q.push(&trace(4)));
    assert!(!q.push(&trace(5)));
    assert!(!q.push(&trace(6)));
    let a = q.pop().expect("second trace");
    let b = q.pop().expect("third trace");
    let c = q.pop().expect("fourth trace");
    assert_eq!(a.env, 2);
    assert_eq!(b.env, 3);
    assert_eq!(c.env, 4);
    assert!(q.pop().is_none());
}

#[test]
fn test_ring_order_and_no_duplicates() {
    let mut q = CircleQueue::with_capacity(8);
    for i in 0..5u64 {
        assert!(q.push(&trace(i)));
    }
    for i in 0..5u64 {
        let t = q.pop().expect("trace present");
        assert_eq!(t.env, i);
        assert_eq!(t.frames.len(), 1);
        assert_eq!(t.frames[0].method_id, i);
    }
    assert!(q.pop().is_none());
}

#[test]
fn test_ring_wraps_around() {
    let mut q = CircleQueue::with_capacity(4);
    for round in 0..10u64 {
        assert!(q.push(&trace(round)));
        assert!(q.push(&trace(round + 100)));
        assert_eq!(q.pop().unwrap().env, round);
        assert_eq!(q.pop().unwrap().env, round + 100);
    }
}

#[test]
fn test_advice_wraps() {
    assert_eq!(CircleQueue::advice(0), 1);
    assert_eq!(CircleQueue::advice(1023), 0);
}
