use agent_profiler::code_cache::CodeCache;
use agent_profiler::sampler::Profiler;
use agent_profiler::sampler::ThreadInfo;
use agent_profiler::sampler::assemble_trace;
use agent_profiler::symbols::RegionKind;
use agent_profiler::symbols::RegionPlan;
use agent_profiler::symbols::SymbolParserImpl;
use agent_profiler::vm::BCI_NATIVE_FRAME;
use agent_profiler::vm::BCI_THREADID;
use agent_profiler::vm::JVMPICallFrame;

#[test]
fn test_lock_index_stable_and_bounded() {
    let p = Profiler::new();
    for tid in [0u32, 1, 4096, 0xdead_beef, u32::MAX] {
        let first = p.get_lock_index(tid);
        let second = p.get_lock_index(tid);
        assert_eq!(first, second);
        assert!(first < 16);
    }
}

#[test]
fn test_registry_lookup() {
    let mut p = Profiler::new();
    let mut img = CodeCache::new_with_address_range(b"libx.so", 0, 0x1000, 0x3000);
    img.add(0x1000, 0x10, b"alpha", false);
    img.add(0x2000, 0x10, b"beta", false);
    img.sort();
    p.update_symbols(&mut vec![img]);
    let lib = p.find_library_by_address(0x1234).expect("library found");
    assert_eq!(lib.name(), &b"libx.so"[..]);
    let blob = p.find_native_method(0x2005).expect("blob found");
    assert_eq!(blob.name(), &b"beta"[..]);
    assert!(p.find_native_method(0x1800).is_none());
    assert!(p.find_library_by_address(0x4000).is_none());
}

#[test]
fn test_push_and_drain_traces() {
    let mut p = Profiler::new();
    let native = vec![JVMPICallFrame { bci: BCI_NATIVE_FRAME, method_id: 0x40 }];
    let java = vec![JVMPICallFrame { bci: 3, method_id: 0x99 }];
    let t = assemble_trace(&native, &java, 777, 5);
    assert!(p.push_trace(&t));
    let got = p.queue.pop().expect("trace queued");
    assert_eq!(got.env, 5);
    assert_eq!(got.frames.len(), 3);
    assert_eq!(got.frames[0].bci, BCI_NATIVE_FRAME);
    assert_eq!(got.frames[1].bci, 3);
    assert_eq!(got.frames[2].bci, BCI_THREADID);
    assert_eq!(got.frames[2].method_id, 777);
}

#[test]
fn test_every_trace_ends_with_thread_id_frame() {
    let t = assemble_trace(&Vec::new(), &Vec::new(), 42, 0);
    assert_eq!(t.frames.len(), 1);
    assert_eq!(t.frames.last().unwrap().bci, BCI_THREADID);
    assert_eq!(t.frames.last().unwrap().method_id, 42);
}

#[test]
fn test_add_runtime_stub_tracks_call_stub() {
    let mut p = Profiler::new();
    let span = p.add_runtime_stub(b"vtable stub", 0x7000, 0x40);
    assert_eq!(span, (0x7000, 0x7040));
    assert_eq!(p.call_stub_begin, 0);
    let span = p.add_runtime_stub(b"call_stub", 0x8000, 0x80);
    assert_eq!(span, (0x8000, 0x8080));
    assert_eq!(p.call_stub_begin, 0x8000);
    assert_eq!(p.call_stub_end, 0x8080);
    assert_eq!(p.runtime_stub.code_blobs().len(), 2);
    assert!(p.runtime_stub.contains(0x7000));
    assert!(p.runtime_stub.contains(0x807f));
}

#[test]
fn test_start_stop() {
    let mut p = Profiler::new();
    p.start();
    assert!(p.running);
    p.stop();
    assert!(!p.running);
    assert!(!p.walker_trace.running);
}

#[test]
fn test_thread_info_map() {
    let mut p = Profiler::new();
    p.set_thread_info(55, ThreadInfo { jthread_id: 9, name: b"main".to_vec() });
    assert_eq!(p.jthreads.len(), 1);
    assert_eq!(p.jthreads.get(&55).unwrap().jthread_id, 9);
}

#[test]
fn test_maps_walk_plans() {
    let mut walk = SymbolParserImpl::new();
    let lib_line = b"00400000-00401000 r-xp 00000000 fd:01 777   /usr/bin/app";
    match walk.step(lib_line) {
        RegionPlan::Image(img) => {
            assert_eq!(img.base, 0x400000);
            assert_eq!(img.end, 0x401000);
            assert_eq!(img.file, b"/usr/bin/app".to_vec());
            assert!(matches!(img.kind, RegionKind::ParseFile { .. }));
        },
        _ => panic!("executable region should become an image"),
    }
    // the same base again: skipped
    assert!(matches!(walk.step(lib_line), RegionPlan::Skip));
    // same inode at a new base: recorded by name only
    let alias = b"00500000-00501000 r-xp 00000000 fd:01 777   /usr/bin/app";
    match walk.step(alias) {
        RegionPlan::Image(img) => assert!(matches!(img.kind, RegionKind::NameOnly)),
        _ => panic!("new base should still become an image"),
    }
    // the vdso parses from memory
    let vdso = b"7fff5a000000-7fff5a001000 r-xp 00000000 00:00 0   [vdso]";
    match walk.step(vdso) {
        RegionPlan::Image(img) => assert!(matches!(img.kind, RegionKind::ParseMem)),
        _ => panic!("vdso should become an image"),
    }
    // unreadable or anonymous regions are skipped
    assert!(matches!(
        walk.step(b"00600000-00601000 ---p 00000000 00:00 0"),
        RegionPlan::Skip
    ));
    assert!(matches!(
        walk.step(b"00700000-00701000 rw-p 00000000 fd:01 778   /usr/lib/data"),
        RegionPlan::Skip
    ));
}
