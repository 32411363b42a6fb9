use agent_profiler::maps::MemoryMapDesc;
use agent_profiler::maps::parse_radix;
use agent_profiler::maps::try_parse_radix;

#[test]
fn test_memory_desc() {
    let line = b"0060c000-0060d000 rw-p 0000c000 fd:00 100694562                          /usr/bin/cat\0";
    let desc = MemoryMapDesc::parse(line);
    assert_eq!(&desc.addr[..], &b"0060c000"[..]);
    assert_eq!(&desc.end[..], &b"0060d000"[..]);
    assert_eq!(&desc.perm[..], &b"rw-p"[..]);
    assert_eq!(&desc.offs[..], &b"0000c000"[..]);
    assert_eq!(&desc.dev[..], &b"fd:00"[..]);
    assert_eq!(&desc.inode[..], &b"100694562"[..]);
    assert_eq!(&desc.file[..], &b"/usr/bin/cat\0"[..]);
    assert_eq!(desc.dev(), 0xfd << 8 | 00);
    assert_eq!(desc.inode(), 100694562);
    assert_eq!(desc.addr(), 0x0060c000);
    assert_eq!(desc.end(), 0x0060d000);
    assert_eq!(desc.is_executable(), false);
    assert_eq!(desc.is_readable(), true);
}

#[test]
fn test_memory_desc_file() {
    let line = b"7fa750f39000-7fa750f3c000 ---p 00000000 00:00 0\0";
    let desc = MemoryMapDesc::parse(line);
    assert_eq!(desc.is_empty_file(), true);
}

#[test]
fn test_parse_radix_values() {
    assert_eq!(parse_radix(b"ff", 16), 255);
    assert_eq!(parse_radix(b"0060c000", 16), 0x60c000);
    assert_eq!(parse_radix(b"100694562", 10), 100694562);
    assert_eq!(parse_radix(b"", 16), 0);
    assert_eq!(parse_radix(b"12g4", 16), 0);
    assert_eq!(parse_radix(b"ffffffffffffffff", 16), u64::MAX);
    // one digit past the largest value overflows and reads as malformed
    assert_eq!(parse_radix(b"10000000000000000", 16), 0);
    assert_eq!(try_parse_radix(b"FF", 16), Some(255));
    assert_eq!(try_parse_radix(b"zz", 16), None);
}
