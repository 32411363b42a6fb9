use std::collections::HashMap;
use agent_profiler::frame_name::FrameName;
use agent_profiler::frame_name::ResolvedFrame;
use agent_profiler::frame_name::render_class_signature;
use agent_profiler::sampler::ThreadInfo;

#[test]
fn test_render_class_signature() {
    assert_eq!(render_class_signature(b"Ljava/lang/String;"), b"java.lang.String".to_vec());
    assert_eq!(render_class_signature(b"[[I"), b"int[][]".to_vec());
    assert_eq!(render_class_signature(b"[Ljava/util/Map$Entry;"), b"java.util.Map$Entry[]".to_vec());
}

#[test]
fn test_class_name_decoding() {
    assert_eq!(render_class_signature(b"[[Ljava/lang/String;"), b"java.lang.String[][]".to_vec());
    assert_eq!(render_class_signature(b"[B"), b"byte[]".to_vec());
    assert_eq!(render_class_signature(b"[J"), b"long[]".to_vec());
    assert_eq!(render_class_signature(b"[Z"), b"boolean[]".to_vec());
    assert_eq!(render_class_signature(b"[F"), b"float[]".to_vec());
}

#[test]
fn test_digit_inner_class_fragment_keeps_slash() {
    // a digit-starting inner-class fragment is not a package separator
    assert_eq!(render_class_signature(b"La/b$1c/2d;"), b"a.b$1c/2d".to_vec());
}

#[test]
fn test_demangle_round_trip() {
    let pool: HashMap<u64, ThreadInfo> = HashMap::new();
    let mut fname = FrameName::new();
    fname.name(&ResolvedFrame::Native(b"_ZN5space3fooEibc"), &pool);
    assert_eq!(fname.bytes(), &b"space::foo(int, bool, char)"[..]);
}

#[test]
fn test_non_mangled_name_passes_through() {
    let pool: HashMap<u64, ThreadInfo> = HashMap::new();
    let mut fname = FrameName::new();
    fname.name(&ResolvedFrame::Native(b"plain_c_symbol"), &pool);
    assert_eq!(fname.bytes(), &b"plain_c_symbol"[..]);
}

#[test]
fn test_java_frame_name_assembly() {
    let pool: HashMap<u64, ThreadInfo> = HashMap::new();
    let mut fname = FrameName::new();
    fname.name(
        &ResolvedFrame::Java {
            class_sig: b"Ljava/lang/String;",
            method_name: b"charAt",
            method_sig: b"(I)C",
        },
        &pool,
    );
    assert_eq!(fname.bytes(), &b"java.lang.String.charAt(I)C"[..]);
}

#[test]
fn test_thread_frame_names() {
    let mut pool: HashMap<u64, ThreadInfo> = HashMap::new();
    pool.insert(7, ThreadInfo { jthread_id: 42, name: b"worker-1".to_vec() });
    let mut fname = FrameName::new();
    fname.name(&ResolvedFrame::ThreadId(7), &pool);
    assert_eq!(fname.bytes(), &b"worker-1"[..]);
    fname.name(&ResolvedFrame::ThreadId(8), &pool);
    assert_eq!(fname.bytes(), &b"unknown thread"[..]);
}

#[test]
fn test_jvmti_error_frame() {
    let pool: HashMap<u64, ThreadInfo> = HashMap::new();
    let mut fname = FrameName::new();
    fname.name(&ResolvedFrame::JavaError, &pool);
    assert_eq!(fname.bytes(), &b"[jvmtiError]"[..]);
}

#[test]
fn test_rejected_mangled_name_passes_through() {
    // carries the prefix but is no well-formed mangled name: the demangler
    // rejects it and the raw bytes come through
    let pool: HashMap<u64, ThreadInfo> = HashMap::new();
    let mut fname = FrameName::new();
    fname.name(&ResolvedFrame::Native(b"_Z!!not-mangled"), &pool);
    assert_eq!(fname.bytes(), &b"_Z!!not-mangled"[..]);
}
