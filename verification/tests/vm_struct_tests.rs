use agent_profiler::vm_struct::CodeHeap;
use agent_profiler::vm_struct::CodeHeapDeref;
use agent_profiler::vm_struct::NMethod;
use agent_profiler::vm_struct::VMStruct;
use agent_profiler::vm_struct::VMThread;
use agent_profiler::vm_struct::VmStructEntry;
use agent_profiler::vm_struct::find_block_index;
use agent_profiler::vm_struct::find_nmethod_block;
use agent_profiler::vm_struct::HeapView;

fn entry(t: &[u8], f: &[u8], offset: i32, address: u64) -> VmStructEntry {
    VmStructEntry { struct_name: t.to_vec(), field_name: f.to_vec(), offset, address }
}

#[test]
fn test_initial_offset_assigns_fields() {
    let mut vs = VMStruct::new();
    assert_eq!(vs.klass_name_offset, -1);
    let entries = vec![
        entry(b"Klass", b"_name", 16, 0),
        entry(b"Symbol", b"_body", 8, 0),
        entry(b"JavaThread", b"_osthread", 0x2e0, 0),
        entry(b"OSThread", b"_thread_id", 0x40, 0),
        entry(b"CodeHeap", b"_memory", 0x20, 0),
        entry(b"CodeHeap", b"_segmap", 0x60, 0),
        entry(b"CodeHeap", b"_log2_segment_size", 0x98, 0),
        entry(b"CodeCache", b"_heaps", 0, 0xdead0000),
        entry(b"CodeCache", b"_low_bound", 0, 0xdead0010),
        entry(b"CodeCache", b"_high_bound", 0, 0xdead0020),
        entry(b"java_lang_Class", b"_klass_offset", 0, 0xbeef0000),
        entry(b"SomethingElse", b"_name", 0x99, 0),
        // the last entry naming a pair wins
        entry(b"Klass", b"_name", 20, 0),
    ];
    vs.initial_offset(&entries);
    assert_eq!(vs.klass_name_offset, 20);
    assert_eq!(vs.symbol_body_offset, 8);
    assert_eq!(vs.thread_osthread_offset, 0x2e0);
    assert_eq!(vs.osthread_id_offset, 0x40);
    assert_eq!(vs.code_heap_memory_offset, 0x20);
    assert_eq!(vs.code_heap_segmap_offset, 0x60);
    assert_eq!(vs.code_heap_segment_shift, 0x98);
    assert_eq!(vs.code_heap_addr, 0xdead0000);
    assert_eq!(vs.code_heap_low_addr, 0xdead0010);
    assert_eq!(vs.code_heap_high_addr, 0xdead0020);
    assert_eq!(vs.klass_offset_addr, 0xbeef0000);
    // an unknown type changes nothing
    assert_eq!(vs.flag_name_offset, -1);
}

#[test]
fn test_resolve_offset_caches_heaps() {
    let mut vs = VMStruct::new();
    let entries = vec![
        entry(b"CodeHeap", b"_memory", 0x20, 0),
        entry(b"CodeHeap", b"_segmap", 0x60, 0),
        entry(b"CodeHeap", b"_log2_segment_size", 0x98, 0),
        entry(b"CodeCache", b"_heaps", 0, 0xdead0000),
        entry(b"CodeCache", b"_low_bound", 0, 0xdead0010),
        entry(b"CodeCache", b"_high_bound", 0, 0xdead0020),
        entry(b"GrowableArray<int>", b"_data", 0x10, 0),
    ];
    vs.initial_offset(&entries);
    let deref = CodeHeapDeref {
        count: 2,
        heap0: 0x10000,
        heap1: 0x20000,
        heap2: 0,
        low: 0x10000,
        high: 0x30000,
        segment_shift_value: 9,
    };
    vs.resolve_offset(0, &deref);
    assert_eq!(vs.code_heap0, 0x10000);
    assert_eq!(vs.code_heap1, 0x20000);
    assert_eq!(vs.code_heap_low, 0x10000);
    assert_eq!(vs.code_heap_high, 0x30000);
    assert_eq!(vs.code_heap_segment_shift, 9);
    let heap = vs.code_heap();
    assert!(heap.code_contains(0x10000));
    assert!(heap.code_contains(0x2ffff));
    assert!(!heap.code_contains(0x30000));
}

#[test]
fn test_resolve_offset_drops_unusable_heaps() {
    let mut vs = VMStruct::new();
    let entries = vec![
        entry(b"CodeCache", b"_heaps", 0, 0xdead0000),
        entry(b"CodeCache", b"_low_bound", 0, 0xdead0010),
        entry(b"CodeCache", b"_high_bound", 0, 0xdead0020),
        entry(b"GrowableArray<int>", b"_data", 0x10, 0),
    ];
    vs.initial_offset(&entries);
    let deref = CodeHeapDeref {
        count: 1,
        heap0: 0x10000,
        heap1: 0,
        heap2: 0,
        low: 0x10000,
        high: 0x30000,
        segment_shift_value: 9,
    };
    // the segment map and memory offsets are missing: the heaps drop
    vs.resolve_offset(0, &deref);
    assert_eq!(vs.code_heap0, 0);
}

#[test]
fn test_capability_flags() {
    let mut vs = VMStruct::new();
    let entries = vec![
        entry(b"JavaThread", b"_osthread", 0x2e0, 0),
        entry(b"OSThread", b"_thread_id", 0x40, 0),
    ];
    vs.initial_offset(&entries);
    assert!(!vs.has_native_thread_id());
    vs.set_thread_resolution(-8);
    assert!(vs.has_native_thread_id());
    assert_eq!(vs.thread_env_offset(), -8);
    assert!(!vs.has_method_structs());
}

#[test]
fn test_find_block_index() {
    // segment map: block starts carry values at or below zero; a positive
    // entry counts back toward its block's start; 0xff marks free space
    let segmap = [0u8, 1, 2, 3, 0, 1, 0xff, 1];
    assert_eq!(find_block_index(&segmap, 3), Some(0));
    assert_eq!(find_block_index(&segmap, 0), Some(0));
    assert_eq!(find_block_index(&segmap, 5), Some(4));
    assert_eq!(find_block_index(&segmap, 6), None); // free segment
    assert_eq!(find_block_index(&segmap, 8), None); // out of range
}

#[test]
fn test_nmethod_and_vmthread() {
    let nm = NMethod::new(0x1000, 0x58);
    assert_eq!(nm.at(0x58), 0x1058);
    assert_eq!(nm.at(-8), 0xff8);
    assert!(VMThread::from_eetop(0, 0x40, 0x2e0).is_none());
    let thr = VMThread::from_eetop(0x5000, 0x40, 0x2e0).expect("nonzero eetop");
    assert_eq!(thr.inner(), 0x5000);
}

#[test]
fn test_update_heap_bounds() {
    let mut vs = VMStruct::new();
    vs.update_bounds(0x4000, 0x5000);
    assert_eq!(vs.code_heap_low, 0x4000);
    assert_eq!(vs.code_heap_high, 0x5000);
    vs.update_bounds(0x3000, 0x4800);
    assert_eq!(vs.code_heap_low, 0x3000);
    assert_eq!(vs.code_heap_high, 0x5000);
    let heap = CodeHeap::new(vs.code_heap_low, vs.code_heap_high);
    assert!(heap.code_contains(0x3000));
    assert!(!heap.code_contains(0x5000));
}

#[test]
fn test_find_nmethod_block() {
    // two heaps; the second covers the counter; segment size 2^4 = 16
    let heaps = vec![
        HeapView { start: 0x1000, end: 0x2000, segmap: vec![0, 1, 2] },
        HeapView { start: 0x4000, end: 0x5000, segmap: vec![0, 1, 2, 3, 0xff] },
    ];
    // pc 0x4030 lies in segment 3 of the second heap; its block starts at
    // segment 0, so the block address is the heap start
    assert_eq!(find_nmethod_block(&heaps, 4, 0x4030), Some(0x4000));
    // pc in the first heap, segment 1 -> block at segment 0
    assert_eq!(find_nmethod_block(&heaps, 4, 0x1010), Some(0x1000));
    // a free segment gives nothing
    assert_eq!(find_nmethod_block(&heaps, 4, 0x4040), None);
    // outside every heap
    assert_eq!(find_nmethod_block(&heaps, 4, 0x9000), None);
}
