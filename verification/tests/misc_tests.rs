use agent_profiler::broadcast_alarm::WalkerTrace;
use agent_profiler::broadcast_alarm::select_targets;
use agent_profiler::ctrl::Command;
use agent_profiler::ctrl::parse_command;
use agent_profiler::elf::push_plt_name;
use agent_profiler::elf::valid_header;
use agent_profiler::os_stat::ThreadState;
use agent_profiler::os_stat::thread_count_of_stat;
use agent_profiler::os_stat::thread_state_of_stat;
use agent_profiler::os_stat::tid_from_task_entry;
use agent_profiler::signal::SignalProf;
use agent_profiler::signal::interval_timeval;
use agent_profiler::spinlock::SpinLock;
use agent_profiler::vm::resolve_hotspot_version;

#[test]
fn test_plt_synthesis_names() {
    let mut plain = Vec::new();
    push_plt_name(&mut plain, b"foo");
    assert_eq!(plain, b"foo@plt".to_vec());
    let mut mangled = Vec::new();
    push_plt_name(&mut mangled, b"_ZN1A1fEv");
    assert_eq!(mangled, b"_ZN1A1fEv.plt".to_vec());
    let mut nameless = Vec::new();
    push_plt_name(&mut nameless, b"");
    assert_eq!(nameless, b"@plt".to_vec());
}

#[test]
fn test_valid_elf_header() {
    let mut hdr = vec![0u8; 64];
    hdr[0] = 0x7f;
    hdr[1] = b'E';
    hdr[2] = b'L';
    hdr[3] = b'F';
    hdr[4] = 2; // 64-bit
    hdr[5] = 1; // little endian
    hdr[6] = 1; // current version
    hdr[62] = 1; // e_shstrndx
    assert!(valid_header(&hdr));
    hdr[5] = 2;
    assert!(!valid_header(&hdr));
    assert!(!valid_header(&hdr[..32]));
}

#[test]
fn test_hotspot_version() {
    assert_eq!(resolve_hotspot_version(b"25.292-b10"), 8);
    assert_eq!(resolve_hotspot_version(b"24.0-b56"), 7);
    assert_eq!(resolve_hotspot_version(b"20.45-b01"), 6);
    assert_eq!(resolve_hotspot_version(b"8"), 9);
    assert_eq!(resolve_hotspot_version(b"11"), 0);
    assert_eq!(resolve_hotspot_version(b"unknown"), 0);
}

#[test]
fn test_parse_command() {
    assert_eq!(parse_command(b"start\n"), Some(Command::Start));
    assert_eq!(parse_command(b"stop\n"), Some(Command::Stop));
    assert_eq!(parse_command(b"quit"), Some(Command::Quit));
    assert_eq!(parse_command(b"status"), None);
    assert_eq!(parse_command(b""), None);
}

#[test]
fn test_thread_state_parsing() {
    assert_eq!(thread_state_of_stat(b"123 (cat) R 1 2 3"), ThreadState::Running);
    assert_eq!(thread_state_of_stat(b"123 (cat) D 1 2 3"), ThreadState::Running);
    assert_eq!(thread_state_of_stat(b"123 (cat) S 1 2 3"), ThreadState::Sleeping);
    assert_eq!(thread_state_of_stat(b"garbage"), ThreadState::Invalid);
    assert_eq!(thread_state_of_stat(b"1 (x)"), ThreadState::Invalid);
}

#[test]
fn test_thread_count_parsing() {
    // the count is the value between the 18th and 19th space after `)`
    let stat = b"7 (cat) S 1 1 1 0 -1 4194560 120 0 0 0 0 0 0 0 20 0 3 0 1653 0 0\n";
    assert_eq!(thread_count_of_stat(stat), 3);
    assert_eq!(thread_count_of_stat(b"nonsense"), 0);
}

#[test]
fn test_tid_from_task_entry() {
    assert_eq!(tid_from_task_entry(b"1234"), Some(1234));
    assert_eq!(tid_from_task_entry(b".hidden"), None);
    assert_eq!(tid_from_task_entry(b"12x"), None);
    assert_eq!(tid_from_task_entry(b""), None);
}

#[test]
fn test_select_targets() {
    let threads = vec![
        (10, ThreadState::Running),
        (11, ThreadState::Sleeping),
        (12, ThreadState::Running),
        (13, ThreadState::Running),
        (14, ThreadState::Invalid),
        (15, ThreadState::Running),
    ];
    // the broadcaster's own thread (12) is skipped; only running ones count
    assert_eq!(select_targets(&threads, 12, 2), vec![10, 13]);
    assert_eq!(select_targets(&threads, 12, 8), vec![10, 13, 15]);
    assert_eq!(select_targets(&threads, 0, 0), Vec::<u32>::new());
}

#[test]
fn test_walker_trace_switch() {
    let mut wt = WalkerTrace::new();
    assert!(!wt.is_running());
    wt.start();
    assert!(wt.is_running());
    wt.stop();
    assert!(!wt.is_running());
}

#[test]
fn test_signal_intervals_in_range() {
    let mut sp = SignalProf::new(100_000_000, 500_000_000);
    for _ in 0..2048 {
        let iv = sp.update_interval();
        assert!(iv >= 100_000_000);
        assert!(iv <= 500_000_000);
    }
}

#[test]
fn test_interval_timeval_split() {
    assert_eq!(interval_timeval(1_500_000_000), (1, 500_000));
    assert_eq!(interval_timeval(250_000_000), (0, 250_000));
    assert_eq!(interval_timeval(999), (0, 0));
}

#[test]
fn test_spinlock() {
    let mut l = SpinLock::new();
    assert!(l.try_lock());
    assert!(!l.try_lock());
    l.unlock();
    assert!(l.try_lock());
}
