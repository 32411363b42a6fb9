use agent_profiler::code_cache::CodeCache;

#[test]
fn test_sort() {
    let mut code_cache = CodeCache::new(b"test", 1);
    code_cache.add(120, 10, b"test1", true);
    code_cache.add(100, 10, b"test1", true);
    code_cache.add(140, 10, b"test1", true);
    code_cache.sort();
    assert_eq!(code_cache.min_address, 100);
    assert_eq!(code_cache.max_address, 150);
}

#[test]
fn test_sort_orders_blobs() {
    let mut cc = CodeCache::new(b"img", 0);
    cc.add(0x3000, 0x10, b"c", false);
    cc.add(0x1000, 0x10, b"a", false);
    cc.add(0x2000, 0x10, b"b", false);
    cc.sort();
    let blobs = cc.code_blobs();
    assert_eq!(blobs.len(), 3);
    assert_eq!(blobs[0].start, 0x1000);
    assert_eq!(blobs[1].start, 0x2000);
    assert_eq!(blobs[2].start, 0x3000);
    // bounds cover every blob after sort
    for b in blobs.iter() {
        assert!(cc.min_address <= b.start);
        assert!(b.end <= cc.max_address);
    }
}

#[test]
fn test_binary_search_boundaries() {
    let mut cc = CodeCache::new(b"img", 0);
    cc.add(0x1000, 0x10, b"only", true);
    cc.sort();
    // inside the interval
    let hit = cc.binary_search(0x1000).expect("start address hits");
    assert_eq!(hit.start, 0x1000);
    let hit = cc.binary_search(0x100f).expect("last byte hits");
    assert_eq!(hit.start, 0x1000);
    // one past the end: the return-address fallback accepts it
    let hit = cc.binary_search(0x1010).expect("end address hits via fallback");
    assert_eq!(hit.start, 0x1000);
    // past that: a miss
    assert!(cc.binary_search(0x1011).is_none());
    assert!(cc.binary_search(0xfff).is_none());
}

#[test]
fn test_binary_search_no_fallback_when_other_blob_starts_there() {
    let mut cc = CodeCache::new(b"img", 0);
    cc.add(0x1000, 0x10, b"first", true);
    cc.add(0x1010, 0x10, b"second", true);
    cc.sort();
    // 0x1010 belongs to the second blob, not the first one's fallback
    let hit = cc.binary_search(0x1010).expect("second blob hits");
    assert_eq!(hit.start, 0x1010);
}

#[test]
fn test_binary_search_every_address_inside() {
    let mut cc = CodeCache::new(b"img", 0);
    cc.add(0x1000, 4, b"a", true);
    cc.add(0x1008, 4, b"b", true);
    cc.sort();
    for addr in 0x1000u64..0x1004 {
        let hit = cc.binary_search(addr).expect("inside first blob");
        assert_eq!(hit.start, 0x1000);
    }
    for addr in 0x1008u64..0x100c {
        let hit = cc.binary_search(addr).expect("inside second blob");
        assert_eq!(hit.start, 0x1008);
    }
    assert!(cc.binary_search(0x1005).is_none());
}

#[test]
fn test_add_sanitizes_names() {
    let mut cc = CodeCache::new(b"img", 0);
    cc.add(0x10, 1, b"bad\x01name\x1f", true);
    let blobs = cc.code_blobs();
    assert_eq!(blobs[0].name(), &b"bad?name?"[..]);
    for byte in blobs[0].name() {
        assert!(*byte >= 0x20);
    }
}

#[test]
fn test_find_symbol_and_prefix() {
    let mut cc = CodeCache::new(b"img", 0);
    cc.add(0x100, 8, b"alpha", true);
    cc.add(0x200, 8, b"beta_gamma", true);
    assert_eq!(cc.find_symbol(b"alpha"), Some(0x100));
    assert_eq!(cc.find_symbol(b"beta"), None);
    assert_eq!(cc.find_symbol_prefix(b"beta"), Some(0x200));
    assert_eq!(cc.find_symbol_prefix(b"delta"), None);
}

#[test]
fn test_contains_and_update_bounds() {
    let mut cc = CodeCache::new_with_address_range(b"img", 0, 0x1000, 0x2000);
    assert!(cc.contains(0x1000));
    assert!(cc.contains(0x1fff));
    assert!(!cc.contains(0x2000));
    cc.update_bounds(0x800, 0x3000);
    assert!(cc.contains(0x800));
    assert!(cc.contains(0x2fff));
}

#[test]
fn test_find_symbol_first_of_duplicates() {
    let mut cc = CodeCache::new(b"img", 0);
    cc.add(0x300, 8, b"dup", true);
    cc.add(0x100, 8, b"dup", true);
    // the first in insertion order wins, whatever the addresses
    assert_eq!(cc.find_symbol(b"dup"), Some(0x300));
    assert_eq!(cc.find_symbol_prefix(b"du"), Some(0x300));
}
