use agent_profiler::code_cache::CodeCache;
use agent_profiler::elf::build_id_debug_path;
use agent_profiler::elf::cstr_at;
use agent_profiler::elf::debuglink_paths;
use agent_profiler::elf::find_section;
use agent_profiler::elf::load_symbol_table;
use agent_profiler::elf::read_u16;
use agent_profiler::elf::read_u32;
use agent_profiler::elf::read_u64;

fn put_u16(b: &mut [u8], off: usize, v: u16) {
    b[off..off + 2].copy_from_slice(&v.to_le_bytes());
}

fn put_u32(b: &mut [u8], off: usize, v: u32) {
    b[off..off + 4].copy_from_slice(&v.to_le_bytes());
}

fn put_u64(b: &mut [u8], off: usize, v: u64) {
    b[off..off + 8].copy_from_slice(&v.to_le_bytes());
}

/// A minimal 64-bit image: a null section, the section-string table, one
/// symbol table with one named symbol, and its string table.
fn tiny_elf() -> Vec<u8> {
    let mut b = vec![0u8; 512];
    b[0] = 0x7f;
    b[1] = b'E';
    b[2] = b'L';
    b[3] = b'F';
    b[4] = 2;
    b[5] = 1;
    b[6] = 1;
    put_u64(&mut b, 40, 64); // e_shoff
    put_u16(&mut b, 58, 64); // e_shentsize
    put_u16(&mut b, 60, 4); // e_shnum
    put_u16(&mut b, 62, 1); // e_shstrndx
    // section 1: the section-string table
    let s1 = 64 + 64;
    put_u32(&mut b, s1, 17); // sh_name: ".shstrtab"
    put_u32(&mut b, s1 + 4, 3); // SHT_STRTAB
    put_u64(&mut b, s1 + 24, 320); // offset
    put_u64(&mut b, s1 + 32, 27); // size
    // section 2: the symbol table
    let s2 = 64 + 128;
    put_u32(&mut b, s2, 1); // sh_name: ".symtab"
    put_u32(&mut b, s2 + 4, 2); // SHT_SYMTAB
    put_u64(&mut b, s2 + 24, 352); // offset
    put_u64(&mut b, s2 + 32, 48); // two entries
    put_u32(&mut b, s2 + 40, 3); // link: the symbol string table
    put_u64(&mut b, s2 + 56, 24); // entsize
    // section 3: the symbol string table
    let s3 = 64 + 192;
    put_u32(&mut b, s3, 9); // sh_name: ".strtab"
    put_u32(&mut b, s3 + 4, 3);
    put_u64(&mut b, s3 + 24, 400);
    put_u64(&mut b, s3 + 32, 8);
    // section-string table contents at 320: "\0.symtab\0.strtab\0.shstrtab\0"
    let names = b"\0.symtab\0.strtab\0.shstrtab\0";
    b[320..320 + names.len()].copy_from_slice(names);
    // symbol 1 at 352+24: name 1, value 0x100, size 0x20
    let sym = 352 + 24;
    put_u32(&mut b, sym, 1); // st_name
    b[sym + 4] = 0x12; // st_info
    put_u64(&mut b, sym + 8, 0x100); // st_value
    put_u64(&mut b, sym + 16, 0x20); // st_size
    // symbol string table at 400: "\0myfunc\0"
    let strs = b"\0myfunc\0";
    b[400..400 + strs.len()].copy_from_slice(strs);
    b
}

#[test]
fn test_readers() {
    let mut b = vec![0u8; 16];
    put_u16(&mut b, 0, 0x1234);
    put_u32(&mut b, 2, 0xdeadbeef);
    put_u64(&mut b, 6, 0x0102030405060708);
    assert_eq!(read_u16(&b, 0), 0x1234);
    assert_eq!(read_u32(&b, 2), 0xdeadbeef);
    assert_eq!(read_u64(&b, 6), 0x0102030405060708);
    assert_eq!(cstr_at(b"ab\0cd", 0), b"ab".to_vec());
    assert_eq!(cstr_at(b"ab\0cd", 3), b"cd".to_vec());
}

#[test]
fn test_find_section_and_load_symbols() {
    let b = tiny_elf();
    assert_eq!(find_section(&b, 2, b".symtab"), Some(2));
    assert_eq!(find_section(&b, 3, b".strtab"), Some(3));
    assert_eq!(find_section(&b, 2, b".dynsym"), None);
    let mut cc = CodeCache::new(b"img", 0);
    load_symbol_table(&mut cc, &b, 2, 0x400000);
    let blobs = cc.code_blobs();
    assert_eq!(blobs.len(), 1);
    assert_eq!(blobs[0].start, 0x400100);
    assert_eq!(blobs[0].end, 0x400120);
    assert_eq!(blobs[0].name(), &b"myfunc"[..]);
}

#[test]
fn test_build_id_and_debuglink_absent() {
    let b = tiny_elf();
    assert!(build_id_debug_path(&b).is_none());
    assert_eq!(debuglink_paths(b"/usr/lib/libx.so", &b).len(), 0);
}

/// An image carrying a build-id note and a debuglink section.
fn debug_elf() -> Vec<u8> {
    let mut b = vec![0u8; 640];
    b[0] = 0x7f;
    b[1] = b'E';
    b[2] = b'L';
    b[3] = b'F';
    b[4] = 2;
    b[5] = 1;
    b[6] = 1;
    put_u64(&mut b, 40, 64); // e_shoff
    put_u16(&mut b, 58, 64); // e_shentsize
    put_u16(&mut b, 60, 4); // e_shnum
    put_u16(&mut b, 62, 1); // e_shstrndx
    // section 1: the section-string table
    let s1 = 64 + 64;
    put_u32(&mut b, s1, 1);
    put_u32(&mut b, s1 + 4, 3);
    put_u64(&mut b, s1 + 24, 448);
    put_u64(&mut b, s1 + 32, 45);
    // section 2: the build-id note
    let s2 = 64 + 128;
    put_u32(&mut b, s2, 11);
    put_u32(&mut b, s2 + 4, 7); // SHT_NOTE
    put_u64(&mut b, s2 + 24, 520);
    put_u64(&mut b, s2 + 32, 18);
    // section 3: the debuglink
    let s3 = 64 + 192;
    put_u32(&mut b, s3, 30);
    put_u32(&mut b, s3 + 4, 1); // SHT_PROGBITS
    put_u64(&mut b, s3 + 24, 560);
    put_u64(&mut b, s3 + 32, 16);
    let names = b"\0.shstrtab\0.note.gnu.build-id\0.gnu_debuglink\0";
    b[448..448 + names.len()].copy_from_slice(names);
    // note contents: namesz 4, descsz 2, type 3, "GNU\0", then the id
    put_u32(&mut b, 520, 4);
    put_u32(&mut b, 524, 2);
    put_u32(&mut b, 528, 3);
    b[532..536].copy_from_slice(b"GNU\0");
    b[536] = 0xab;
    b[537] = 0xcd;
    // debuglink contents: the linked file's name
    let link = b"app.debug\0";
    b[560..560 + link.len()].copy_from_slice(link);
    b
}

#[test]
fn test_build_id_path() {
    let b = debug_elf();
    let path = build_id_debug_path(&b).expect("well-formed note");
    assert_eq!(path, b"/usr/lib/debug/.build-id/abcd.debug".to_vec());
}

#[test]
fn test_debuglink_paths() {
    let b = debug_elf();
    let paths = debuglink_paths(b"/usr/bin/app", &b);
    assert_eq!(paths.len(), 3);
    assert_eq!(paths[0], b"/usr/bin/app.debug".to_vec());
    assert_eq!(paths[1], b"/usr/bin/.debug/app.debug".to_vec());
    assert_eq!(paths[2], b"/usr/lib/debug/usr/bin/app.debug".to_vec());
}

#[test]
fn test_debuglink_skips_self_link() {
    let b = debug_elf();
    // when the link just names the image itself, the first candidate drops
    let paths = debuglink_paths(b"/usr/bin/app.debug", &b);
    assert_eq!(paths.len(), 2);
    assert_eq!(paths[0], b"/usr/bin/.debug/app.debug".to_vec());
}
