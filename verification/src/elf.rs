//! Byte-level ELF reading: header validation, section lookup by type and
//! name, symbol-table loading into a code-blob index, PLT pseudo-symbol
//! synthesis from relocation tables, global-offset-table discovery through
//! the dynamic segment, and the build-id and debuglink paths where separated
//! debug symbols live. All of it works on a byte image of the file or of
//! the mapped memory; reading files is the caller's business.

use vstd::prelude::*;
use crate::bytes::append_bytes;
use crate::bytes::bytes_eq;
use crate::code_cache::CodeCache;
use crate::code_cache::spec_sanitized;
use crate::code_cache::spec_names_clean;
use crate::maps::spec_find;
use crate::maps::find_byte;
use crate::maps::copy_range;

verus! {

pub const SHT_PROGBITS: u32 = 1;

pub const SHT_SYMTAB: u32 = 2;

pub const SHT_RELA: u32 = 4;

pub const SHT_NOTE: u32 = 7;

pub const SHT_REL: u32 = 9;

pub const SHT_DYNSYM: u32 = 11;

pub const PLT_HEADER_SIZE: u64 = 16;

pub const PLT_ENTRY_SIZE: u64 = 16;

pub const SYM_ENTRY_BYTES: u64 = 24;

pub const EHDR_BYTES: usize = 64;

/// The byte at an offset, zero outside the image.
pub open spec fn spec_u8_at(b: Seq<u8>, off: int) -> u8 {
    if 0 <= off < b.len() {
        b[off]
    } else {
        0
    }
}

/// The little-endian halfword at an offset.
pub open spec fn spec_u16_at(b: Seq<u8>, off: int) -> u16 {
    (spec_u8_at(b, off) + spec_u8_at(b, off + 1) * 0x100) as u16
}

/// The little-endian word at an offset.
pub open spec fn spec_u32_at(b: Seq<u8>, off: int) -> u32 {
    (spec_u16_at(b, off) + spec_u16_at(b, off + 2) * 0x10000) as u32
}

/// The little-endian doubleword at an offset.
pub open spec fn spec_u64_at(b: Seq<u8>, off: int) -> u64 {
    (spec_u32_at(b, off) + spec_u32_at(b, off + 4) * 0x100000000) as u64
}

pub fn read_u16(b: &[u8], off: usize) -> (r: u16)
    requires
        off + 2 <= b@.len(),
    ensures
        r == spec_u16_at(b@, off as int),
{
    b[off] as u16 + (b[off + 1] as u16) * 0x100
}

pub fn read_u32(b: &[u8], off: usize) -> (r: u32)
    requires
        off + 4 <= b@.len(),
    ensures
        r == spec_u32_at(b@, off as int),
{
    // ties the view's length to a machine word for the offset arithmetic
    let n = b.len();
    let _ = n;
    read_u16(b, off) as u32 + (read_u16(b, off + 2) as u32) * 0x10000
}

pub fn read_u64(b: &[u8], off: usize) -> (r: u64)
    requires
        off + 8 <= b@.len(),
    ensures
        r == spec_u64_at(b@, off as int),
{
    // ties the view's length to a machine word for the offset arithmetic
    let n = b.len();
    let _ = n;
    read_u32(b, off) as u64 + (read_u32(b, off + 4) as u64) * 0x100000000
}

/// The zero-terminated byte string at an offset (without its terminator),
/// empty outside the image.
pub open spec fn spec_cstr(b: Seq<u8>, off: int) -> Seq<u8> {
    if 0 <= off <= b.len() {
        b.subrange(off, spec_find(b, off, 0))
    } else {
        Seq::empty()
    }
}

pub fn cstr_at(b: &[u8], off: usize) -> (r: Vec<u8>)
    requires
        off <= b@.len(),
    ensures
        r@ == spec_cstr(b@, off as int),
{
    let end = find_byte(b, off, 0);
    copy_range(b, off, end)
}

/// A sound ELF header for this reader: the magic, a 64-bit little-endian
/// image of the current version, and a named section-string table.
pub open spec fn spec_valid_header(b: Seq<u8>) -> bool {
    &&& b.len() >= EHDR_BYTES
    &&& b[0] == 0x7f
    &&& b[1] == 69  // E
    &&& b[2] == 76  // L
    &&& b[3] == 70  // F
    &&& b[4] == 2  // ELFCLASS64
    &&& b[5] == 1  // little endian
    &&& b[6] == 1  // current version
    &&& spec_u16_at(b, 62) != 0  // e_shstrndx
}

pub fn valid_header(b: &[u8]) -> (r: bool)
    ensures
        r == spec_valid_header(b@),
{
    b.len() >= EHDR_BYTES && b[0] == 0x7f && b[1] == 69 && b[2] == 76 && b[3] == 70 && b[4] == 2
        && b[5] == 1 && b[6] == 1 && read_u16(b, 62) != 0
}

/// The fields of one section header this reader uses.
pub struct SectionHeader {
    pub name: u32,
    pub sh_type: u32,
    pub offset: u64,
    pub size: u64,
    pub link: u32,
    pub entsize: u64,
}

pub open spec fn spec_shoff(b: Seq<u8>) -> int {
    spec_u64_at(b, 40) as int
}

pub open spec fn spec_shentsize(b: Seq<u8>) -> int {
    spec_u16_at(b, 58) as int
}

pub open spec fn spec_shnum(b: Seq<u8>) -> int {
    spec_u16_at(b, 60) as int
}

pub open spec fn spec_shstrndx(b: Seq<u8>) -> int {
    spec_u16_at(b, 62) as int
}

/// Where section header `i` starts in the image.
pub open spec fn spec_sec_pos(b: Seq<u8>, i: int) -> int {
    spec_shoff(b) + i * spec_shentsize(b)
}

/// Whether section header `i` lies fully inside the image.
pub open spec fn spec_sec_in_bounds(b: Seq<u8>, i: int) -> bool {
    &&& 0 <= i
    &&& spec_shentsize(b) >= EHDR_BYTES
    &&& spec_sec_pos(b, i) + EHDR_BYTES <= b.len()
}

/// Section header `i`, read fieldwise (meaningful inside bounds).
pub open spec fn spec_section(b: Seq<u8>, i: int) -> SectionHeader {
    {
        let pos = spec_sec_pos(b, i);
        SectionHeader {
            name: spec_u32_at(b, pos),
            sh_type: spec_u32_at(b, pos + 4),
            offset: spec_u64_at(b, pos + 24),
            size: spec_u64_at(b, pos + 32),
            link: spec_u32_at(b, pos + 40),
            entsize: spec_u64_at(b, pos + 56),
        }
    }
}

/// Read section header `i` where it lies inside the image.
pub fn read_section(b: &[u8], i: usize) -> (r: Option<SectionHeader>)
    requires
        i < 0x10000,
    ensures
        r is Some <==> spec_sec_in_bounds(b@, i as int),
        r matches Some(s) ==> s == spec_section(b@, i as int),
{
    if b.len() < EHDR_BYTES {
        proof {
            assert(spec_sec_pos(b@, i as int) + EHDR_BYTES > b@.len() || spec_shentsize(b@)
                < EHDR_BYTES) by {
                if spec_shentsize(b@) >= EHDR_BYTES {
                    assert(i as int * spec_shentsize(b@) >= 0) by (nonlinear_arith)
                        requires
                            i >= 0,
                            spec_shentsize(b@) >= 0,
                    ;
                }
            }
        }
        return None;
    }
    let shoff = read_u64(b, 40);
    let shentsize = read_u16(b, 58) as u64;
    if shentsize < EHDR_BYTES as u64 {
        return None;
    }
    if shoff > b.len() as u64 {
        proof {
            assert(i as int * spec_shentsize(b@) >= 0) by (nonlinear_arith)
                requires
                    i >= 0,
                    spec_shentsize(b@) >= 0,
            ;
        }
        return None;
    }
    let room = b.len() as u64 - shoff;
    proof {
        assert((i as u64) * shentsize <= u64::MAX) by (nonlinear_arith)
            requires
                i < 0x10000,
                shentsize < 0x10000,
        ;
    }
    let need = (i as u64) * shentsize;
    proof {
        assert(i as int * spec_shentsize(b@) == need) by (nonlinear_arith)
            requires
                need == (i as u64) as int * shentsize as int,
                shentsize == spec_shentsize(b@),
                i < 0x10000,
                shentsize < 0x10000,
        ;
    }
    if need > room || room - need < EHDR_BYTES as u64 {
        return None;
    }
    let pos = (shoff + need) as usize;
    Some(
        SectionHeader {
            name: read_u32(b, pos),
            sh_type: read_u32(b, pos + 4),
            offset: read_u64(b, pos + 24),
            size: read_u64(b, pos + 32),
            link: read_u32(b, pos + 40),
            entsize: read_u64(b, pos + 56),
        },
    )
}

/// The name bytes of section `i`, looked up through the section-string
/// table.
pub open spec fn spec_sec_name(b: Seq<u8>, i: int) -> Seq<u8> {
    spec_cstr(
        b,
        spec_section(b, spec_shstrndx(b)).offset + spec_section(b, i).name,
    )
}

/// Whether section `i` exists, has the wanted type and a nonzero name slot,
/// and carries the wanted name.
pub open spec fn spec_sec_matches(b: Seq<u8>, i: int, typ: u32, name: Seq<u8>) -> bool {
    &&& spec_sec_in_bounds(b, i)
    &&& spec_section(b, i).sh_type == typ
    &&& spec_section(b, i).name != 0
    &&& spec_sec_name(b, i) == name
}

/// The first section at or after `i` matching type and name.
pub open spec fn spec_find_sec_from(b: Seq<u8>, typ: u32, name: Seq<u8>, i: int) -> Option<int>
    decreases spec_shnum(b) - i,
{
    if i < 0 || i >= spec_shnum(b) {
        None
    } else if spec_sec_matches(b, i, typ, name) {
        Some(i)
    } else {
        spec_find_sec_from(b, typ, name, i + 1)
    }
}

/// The byte at `off + k`, zero outside the image.
pub fn read_u8_off(b: &[u8], off: u64, k: u64) -> (r: u8)
    ensures
        r == spec_u8_at(b@, off + k),
{
    let n = b.len();
    if k <= u64::MAX - off && off + k < n as u64 {
        b[(off + k) as usize]
    } else {
        proof {
            assert(b@.len() <= u64::MAX);
            assert(off + k >= b@.len());
        }
        0
    }
}

/// The little-endian doubleword at `off + delta`, zeros standing in for
/// bytes outside the image.
pub fn read_u64_off(b: &[u8], off: u64, delta: u64) -> (r: u64)
    requires
        delta <= u64::MAX - 8,
    ensures
        r == spec_u64_at(b@, off + delta),
{
    let b0 = read_u8_off(b, off, delta) as u64;
    let b1 = read_u8_off(b, off, delta + 1) as u64;
    let b2 = read_u8_off(b, off, delta + 2) as u64;
    let b3 = read_u8_off(b, off, delta + 3) as u64;
    let b4 = read_u8_off(b, off, delta + 4) as u64;
    let b5 = read_u8_off(b, off, delta + 5) as u64;
    let b6 = read_u8_off(b, off, delta + 6) as u64;
    let b7 = read_u8_off(b, off, delta + 7) as u64;
    b0 + b1 * 0x100 + b2 * 0x10000 + b3 * 0x1000000 + b4 * 0x100000000 + b5 * 0x10000000000 + b6
        * 0x1000000000000 + b7 * 0x100000000000000
}

/// The recorded file offset of the section-string table, read fieldwise
/// whether or not the table's header lies inside the image.
fn shstrtab_offset(b: &[u8]) -> (r: u64)
    requires
        b@.len() >= EHDR_BYTES,
    ensures
        r == spec_section(b@, spec_shstrndx(b@)).offset,
{
    let shoff = read_u64(b, 40);
    let shentsize = read_u16(b, 58) as u64;
    let shstrndx = read_u16(b, 62) as u64;
    proof {
        assert(shstrndx * shentsize <= u64::MAX) by (nonlinear_arith)
            requires
                shstrndx < 0x10000,
                shentsize < 0x10000,
        ;
    }
    let need = shstrndx * shentsize;
    proof {
        assert(spec_shstrndx(b@) * spec_shentsize(b@) == need) by (nonlinear_arith)
            requires
                need == shstrndx as int * shentsize as int,
                shstrndx == spec_shstrndx(b@),
                shentsize == spec_shentsize(b@),
                shstrndx < 0x10000,
                shentsize < 0x10000,
        ;
    }
    if shoff <= u64::MAX - need {
        read_u64_off(b, shoff + need, 24)
    } else {
        let n = b.len();
        proof {
            assert(b@.len() <= u64::MAX);
            assert(spec_u64_at(b@, spec_sec_pos(b@, spec_shstrndx(b@)) + 24) == 0);
        }
        0
    }
}

/// The name bytes of section `sec` (already read as header `i`), looked up
/// through the section-string table.
fn section_name(b: &[u8], sec: &SectionHeader, Ghost(i): Ghost<int>) -> (r: Vec<u8>)
    requires
        b@.len() >= EHDR_BYTES,
        *sec == spec_section(b@, i),
    ensures
        r@ == spec_sec_name(b@, i),
{
    let noff = shstrtab_offset(b);
    if noff <= b.len() as u64 && sec.name as u64 <= b.len() as u64 - noff {
        cstr_at(b, (noff + sec.name as u64) as usize)
    } else {
        proof {
            assert(spec_cstr(b@, noff + sec.name) =~= Seq::<u8>::empty());
        }
        Vec::new()
    }
}

/// Find the first section of the given type carrying the given name.
pub fn find_section(b: &[u8], typ: u32, name: &[u8]) -> (r: Option<usize>)
    ensures
        match r {
            Some(i) => spec_find_sec_from(b@, typ, name@, 0) == Some(i as int),
            None => spec_find_sec_from(b@, typ, name@, 0) is None,
        },
{
    if b.len() < EHDR_BYTES {
        proof {
            lemma_find_sec_none_when_oob(b@, typ, name@, 0);
        }
        return None;
    }
    let shnum = read_u16(b, 60) as usize;
    let mut i: usize = 0;
    while i < shnum
        invariant
            0 <= i <= shnum,
            shnum == spec_shnum(b@),
            b@.len() >= EHDR_BYTES,
            spec_find_sec_from(b@, typ, name@, 0) == spec_find_sec_from(b@, typ, name@, i as int),
        decreases shnum - i,
    {
        match read_section(b, i) {
            None => {},
            Some(sec) => {
                if sec.sh_type == typ && sec.name != 0 {
                    let nm = section_name(b, &sec, Ghost(i as int));
                    if bytes_eq(nm.as_slice(), name) {
                        return Some(i);
                    }
                }
            },
        }
        i = i + 1;
    }
    None
}

/// The little-endian word at `off + delta`, zeros standing in for bytes
/// outside the image.
pub fn read_u32_off(b: &[u8], off: u64, delta: u64) -> (r: u32)
    requires
        delta <= u64::MAX - 4,
    ensures
        r == spec_u32_at(b@, off + delta),
{
    let b0 = read_u8_off(b, off, delta) as u32;
    let b1 = read_u8_off(b, off, delta + 1) as u32;
    let b2 = read_u8_off(b, off, delta + 2) as u32;
    let b3 = read_u8_off(b, off, delta + 3) as u32;
    b0 + b1 * 0x100 + b2 * 0x10000 + b3 * 0x1000000
}

/// How many whole table entries of stride `ent` (at least `min_ent` bytes
/// each) both the recorded table size and the image can hold.
pub open spec fn spec_entry_count(
    b: Seq<u8>,
    off: int,
    ent: int,
    size: int,
    min_ent: int,
) -> int {
    if ent < min_ent || off < 0 || off > b.len() {
        0
    } else if size / ent <= (b.len() - off) / ent {
        size / ent
    } else {
        ((b.len() - off) / ent) as int
    }
}

/// Count the readable entries of a table.
pub fn entry_count(b: &[u8], off: u64, ent: u64, size: u64, min_ent: u64) -> (r: u64)
    requires
        min_ent >= 1,
    ensures
        r == spec_entry_count(b@, off as int, ent as int, size as int, min_ent as int),
        off + r * ent <= b@.len() || r == 0,
        r * ent <= size,
{
    let n = b.len();
    if ent < min_ent || off > n as u64 {
        proof {
            assert(0 * ent <= size) by (nonlinear_arith);
        }
        return 0;
    }
    let a = size / ent;
    let c = (n as u64 - off) / ent;
    let r = if a <= c {
        a
    } else {
        c
    };
    proof {
        assert(r * ent <= size && (off + r * ent <= b@.len() || r == 0)) by (nonlinear_arith)
            requires
                ent as int >= 1,
                r as int == (if (size as int) / (ent as int) <= (b@.len() - off) / (ent as int) {
                    (size as int) / (ent as int)
                } else {
                    (b@.len() - off) / (ent as int)
                }),
                0 <= off as int <= b@.len(),
                size as int >= 0,
        ;
    }
    r
}

/// The fields one symbol-table entry contributes: its blob's start, its
/// size and its raw name; nothing for an unnamed or address-less symbol,
/// for an AArch64 mapping symbol (a `$`-named marker with zero size and
/// info), or where the blob would wrap the address space.
pub open spec fn spec_sym_tuple(b: Seq<u8>, off: int, base: u64, str_off: int) -> Option<
    (u64, u64, Seq<u8>),
> {
    {
        let st_name = spec_u32_at(b, off);
        let st_info = spec_u8_at(b, off + 4);
        let st_value = spec_u64_at(b, off + 8);
        let st_size = spec_u64_at(b, off + 16);
        if st_name != 0 && st_value != 0 && (st_size != 0 || st_info != 0 || spec_u8_at(
            b,
            str_off + st_name,
        ) != 36) && base + st_value + st_size <= u64::MAX {
            Some(((base + st_value) as u64, st_size, spec_cstr(b, str_off + st_name)))
        } else {
            None
        }
    }
}

/// The blobs the first `n` entries of a symbol table contribute, in table
/// order.
pub open spec fn spec_sym_blobs(
    b: Seq<u8>,
    tab_off: int,
    entsize: int,
    n: int,
    base: u64,
    str_off: int,
) -> Seq<(u64, u64, Seq<u8>)>
    decreases n,
{
    if n <= 0 {
        Seq::empty()
    } else {
        spec_sym_blobs(b, tab_off, entsize, n - 1, base, str_off) + match spec_sym_tuple(
            b,
            tab_off + (n - 1) * entsize,
            base,
            str_off,
        ) {
            Some(t) => seq![t],
            None => Seq::empty(),
        }
    }
}

/// Whether `blobs` extends a prefix of length `old_len` with exactly the
/// table `tbl`: entry `j` of the table gives the blob at `old_len + j` its
/// start, its end and its sanitized name.
pub open spec fn spec_blobs_match(
    blobs: Seq<crate::code_cache::CodeBlob>,
    old_len: int,
    tbl: Seq<(u64, u64, Seq<u8>)>,
    lib_index: u16,
) -> bool {
    forall|j: int|
        0 <= j < tbl.len() ==> {
            let t = #[trigger] tbl[j];
            let blob = blobs[old_len + j];
            blob.start == t.0 && blob.end == t.0 + t.1 && blob.name.name@ == spec_sanitized(t.2)
                && blob.name.lib_index == lib_index
        }
}

/// Everything the symbol table under section `i` contributes.
pub open spec fn spec_symtab_blobs(b: Seq<u8>, i: int, base: u64) -> Seq<(u64, u64, Seq<u8>)> {
    {
        let sec = spec_section(b, i);
        let str_off = spec_section(b, sec.link as int).offset as int;
        let n = spec_entry_count(
            b,
            sec.offset as int,
            sec.entsize as int,
            sec.size as int,
            SYM_ENTRY_BYTES as int,
        );
        spec_sym_blobs(b, sec.offset as int, sec.entsize as int, n, base, str_off)
    }
}

/// Load the symbol table under section `i` into the index: one blob per
/// accepted symbol, placed at the image base plus the symbol's value,
/// named by the string table the section links to. Bounds are left alone.
pub fn load_symbol_table(cc: &mut CodeCache, b: &[u8], i: usize, base: u64)
    requires
        i < 0x10000,
        b@.len() >= EHDR_BYTES,
    ensures
        final(cc).blobs@.len() == old(cc).blobs@.len() + spec_symtab_blobs(b@, i as int,
            base,
        ).len(),
        forall|j: int|
            0 <= j < old(cc).blobs@.len() ==> final(cc).blobs@[j] == old(cc).blobs@[j],
        spec_blobs_match(final(cc).blobs@, old(cc).blobs@.len() as int, spec_symtab_blobs(b@,
            i as int, base), old(cc).lib_index),
        final(cc).min_address == old(cc).min_address,
        final(cc).max_address == old(cc).max_address,
        final(cc).spec_same_meta(&old(cc)),
        spec_names_clean(old(cc).blobs@) ==> spec_names_clean(final(cc).blobs@),
{
    load_symbol_entries_total(cc, b, i, base);
}

/// Walk a symbol table's entries with total reads, mirroring the fieldwise
/// spec whether or not the headers lie inside the image.
#[verifier::rlimit(60)]
fn load_symbol_entries_total(cc: &mut CodeCache, b: &[u8], i: usize, base: u64)
    requires
        i < 0x10000,
        b@.len() >= EHDR_BYTES,
    ensures
        final(cc).blobs@.len() == old(cc).blobs@.len() + spec_symtab_blobs(b@, i as int,
            base,
        ).len(),
        forall|j: int|
            0 <= j < old(cc).blobs@.len() ==> final(cc).blobs@[j] == old(cc).blobs@[j],
        spec_blobs_match(final(cc).blobs@, old(cc).blobs@.len() as int, spec_symtab_blobs(b@,
            i as int, base), old(cc).lib_index),
        final(cc).min_address == old(cc).min_address,
        final(cc).max_address == old(cc).max_address,
        final(cc).spec_same_meta(&old(cc)),
        spec_names_clean(old(cc).blobs@) ==> spec_names_clean(final(cc).blobs@),
{
    let blen = b.len();
    proof {
        assert(b@.len() <= u64::MAX);
    }
    let shoff = read_u64(b, 40);
    let shentsize = read_u16(b, 58) as u64;
    proof {
        assert((i as u64) * shentsize <= u64::MAX && ((i as u64) * shentsize) as int == (i as int)
            * (shentsize as int)) by (nonlinear_arith)
            requires
                i < 0x10000,
                shentsize < 0x10000,
        ;
    }
    let ipos_ok = shoff <= u64::MAX - (i as u64) * shentsize;
    let tab_off: u64;
    let entsize: u64;
    let size: u64;
    let link: u32;
    if ipos_ok {
        let pos = shoff + (i as u64) * shentsize;
        tab_off = read_u64_off(b, pos, 24);
        size = read_u64_off(b, pos, 32);
        link = read_u32_off(b, pos, 40);
        entsize = read_u64_off(b, pos, 56);
    } else {
        proof {
            assert(b@.len() <= u64::MAX);
            assert(spec_u64_at(b@, spec_sec_pos(b@, i as int) + 24) == 0);
            assert(spec_u64_at(b@, spec_sec_pos(b@, i as int) + 32) == 0);
            assert(spec_u32_at(b@, spec_sec_pos(b@, i as int) + 40) == 0);
            assert(spec_u64_at(b@, spec_sec_pos(b@, i as int) + 56) == 0);
        }
        tab_off = 0;
        size = 0;
        link = 0;
        entsize = 0;
    }
    proof {
        assert((link as u64) * shentsize <= u64::MAX && ((link as u64) * shentsize) as int == (
        link as int) * (shentsize as int)) by (nonlinear_arith)
            requires
                link <= u32::MAX,
                shentsize < 0x10000,
        ;
    }
    let str_off: u64 = if shoff <= u64::MAX - (link as u64) * shentsize {
        read_u64_off(b, shoff + (link as u64) * shentsize, 24)
    } else {
        proof {
            assert(b@.len() <= u64::MAX);
            assert(spec_u64_at(b@, spec_sec_pos(b@, link as int) + 24) == 0);
        }
        0
    };
    let n = entry_count(b, tab_off, entsize, size, SYM_ENTRY_BYTES);
    let ghost tbl_all = spec_symtab_blobs(b@, i as int, base);
    let ghost old_len = cc.blobs@.len() as int;
    let ghost old_cc = *cc;
    let mut k: u64 = 0;
    while k < n
        invariant
            0 <= k <= n,
            b@.len() >= EHDR_BYTES,
            b@.len() <= u64::MAX,
            blen == b@.len(),
            n == spec_entry_count(b@, tab_off as int, entsize as int, size as int,
                SYM_ENTRY_BYTES as int,
            ),
            tab_off + n * entsize <= b@.len() || n == 0,
            entsize >= SYM_ENTRY_BYTES || n == 0,
            old_len == old_cc.blobs@.len(),
            cc.blobs@.len() == old_len + spec_sym_blobs(b@, tab_off as int, entsize as int,
                k as int, base, str_off as int).len(),
            forall|j: int| 0 <= j < old_len ==> cc.blobs@[j] == old_cc.blobs@[j],
            spec_blobs_match(cc.blobs@, old_len, spec_sym_blobs(b@, tab_off as int,
                entsize as int, k as int, base, str_off as int), old_cc.lib_index),
            cc.min_address == old_cc.min_address,
            cc.max_address == old_cc.max_address,
            cc.spec_same_meta(&old_cc),
            cc.lib_index == old_cc.lib_index,
            spec_names_clean(old_cc.blobs@) ==> spec_names_clean(cc.blobs@),
        decreases n - k,
    {
        proof {
            assert((k + 1) * entsize <= n * entsize && (k as int) * (entsize as int) >= 0 && (k
                + 1) * entsize == k * entsize + entsize) by (nonlinear_arith)
                requires
                    0 <= k < n,
                    entsize as int >= 0,
            ;
            assert(tab_off + k * entsize + SYM_ENTRY_BYTES <= b@.len());
        }
        let off = tab_off + k * entsize;
        let ghost offg = off as int;
        let offu = off as usize;
        let st_name = read_u32(b, offu);
        let st_info = b[offu + 4];
        let st_value = read_u64(b, offu + 8);
        let st_size = read_u64(b, offu + 16);
        let ghost prev = spec_sym_blobs(b@, tab_off as int, entsize as int, k as int, base,
            str_off as int,
        );
        let ghost cur = spec_sym_blobs(b@, tab_off as int, entsize as int, k + 1, base,
            str_off as int,
        );
        if st_name != 0 && st_value != 0 {
            let dollar = read_u8_off(b, str_off, st_name as u64);
            if st_size != 0 || st_info != 0 || dollar != 36 {
                if st_value <= u64::MAX - base && st_size <= u64::MAX - (base + st_value) {
                    let start = base + st_value;
                    let ghost pre_blobs = cc.blobs@;
                    let nm: Vec<u8> = if str_off <= b.len() as u64 && st_name as u64 <= b.len()
                        as u64 - str_off {
                        cstr_at(b, (str_off + st_name as u64) as usize)
                    } else {
                        proof {
                            assert(spec_cstr(b@, str_off + st_name) =~= Seq::<u8>::empty());
                        }
                        Vec::new()
                    };
                    cc.add(start, st_size, nm.as_slice(), false);
                    proof {
                        assert(st_info == spec_u8_at(b@, offg + 4));
                        assert(spec_sym_tuple(b@, offg, base, str_off as int) == Some(
                            (start, st_size, nm@),
                        ));
                        assert(pre_blobs.len() == old_len + prev.len());
                        assert(cur =~= prev.push((start, st_size, nm@)));
                        assert(cc.blobs@.len() == old_len + cur.len());
                        assert(spec_blobs_match(cc.blobs@, old_len, cur, old_cc.lib_index)) by {
                        assert forall|j: int| 0 <= j < cur.len() implies {
                            let t = #[trigger] cur[j];
                            let blob = cc.blobs@[old_len + j];
                            blob.start == t.0 && blob.end == t.0 + t.1 && blob.name.name@
                                == spec_sanitized(t.2) && blob.name.lib_index == old_cc.lib_index
                        } by {
                            if j < prev.len() {
                                assert(pre_blobs.len() == old_len + prev.len());
                                assert(cur[j] == prev[j]);
                                assert(cc.blobs@.drop_last() == pre_blobs);
                                assert(cc.blobs@.len() == pre_blobs.len() + 1);
                                assert(0 <= old_len + j < pre_blobs.len());
                                assert(cc.blobs@.subrange(0, cc.blobs@.len() - 1) == pre_blobs);
                                assert(pre_blobs[old_len + j] == cc.blobs@.subrange(
                                    0,
                                    cc.blobs@.len() - 1,
                                )[old_len + j]);
                                assert(cc.blobs@.subrange(0, cc.blobs@.len() - 1)[old_len + j]
                                    == cc.blobs@[0 + (old_len + j)]);
                                assert(cc.blobs@[old_len + j] == pre_blobs[old_len + j]);
                            } else {
                                assert(cur[j] == (start, st_size, nm@));
                                assert(cc.blobs@[old_len + j] == cc.blobs@.last());
                            }
                        }
                        }
                    }
                } else {
                    proof {
                        assert(cur =~= prev);
                        assert(spec_blobs_match(cc.blobs@, old_len, cur, old_cc.lib_index));
                    }
                }
            } else {
                proof {
                    assert(cur =~= prev);
                    assert(spec_blobs_match(cc.blobs@, old_len, cur, old_cc.lib_index));
                }
            }
        } else {
            proof {
                assert(cur =~= prev);
                assert(spec_blobs_match(cc.blobs@, old_len, cur, old_cc.lib_index));
            }
        }
        proof {
            assert(spec_blobs_match(
                cc.blobs@,
                old_len,
                spec_sym_blobs(b@, tab_off as int, entsize as int, k + 1, base, str_off as int),
                old_cc.lib_index,
            ));
        }
        k = k + 1;
    }
    proof {
        assert(spec_symtab_blobs(b@, i as int, base) == spec_sym_blobs(b@, tab_off as int,
            entsize as int, n as int, base, str_off as int));
    }
}

/// The display suffix a PLT pseudo-symbol carries: the raw name plus
/// `.plt` for an Itanium-mangled name, `@plt` otherwise; a nameless entry
/// shows as `@plt` alone.
pub open spec fn spec_plt_name(sym: Seq<u8>) -> Seq<u8> {
    if sym.len() == 0 {
        seq![64u8, 112u8, 108u8, 116u8]
    } else if sym.len() >= 2 && sym[0] == 95 && sym[1] == 90 {
        sym + seq![46u8, 112u8, 108u8, 116u8]
    } else {
        sym + seq![64u8, 112u8, 108u8, 116u8]
    }
}

/// Append the PLT display name for a raw symbol name.
pub fn push_plt_name(dst: &mut Vec<u8>, sym: &[u8])
    ensures
        final(dst)@ == old(dst)@ + spec_plt_name(sym@),
{
    if sym.len() == 0 {
        dst.push(64);
        dst.push(112);
        dst.push(108);
        dst.push(116);
        proof {
            assert(dst@ =~= old(dst)@ + spec_plt_name(sym@));
        }
        return ;
    }
    append_bytes(dst, sym);
    if sym.len() >= 2 && sym[0] == 95 && sym[1] == 90 {
        dst.push(46);
    } else {
        dst.push(64);
    }
    dst.push(112);
    dst.push(108);
    dst.push(116);
    proof {
        assert(dst@ =~= old(dst)@ + spec_plt_name(sym@));
    }
}

/// What one relocation entry contributes to the PLT pseudo-symbols: the
/// synthesized entry address and display name; nothing where the entry
/// would wrap the address space.
pub open spec fn spec_plt_tuple(
    b: Seq<u8>,
    rel_off: int,
    rel_ent: int,
    k: int,
    sym_off: int,
    sym_ent: int,
    str_off: int,
    plt_addr: u64,
) -> Option<(u64, Seq<u8>)> {
    {
        let info = spec_u64_at(b, rel_off + k * rel_ent + 8);
        let symidx = (info >> 32u64) as int;
        let st_name = spec_u32_at(b, sym_off + symidx * sym_ent);
        let nm = if st_name == 0 {
            Seq::<u8>::empty()
        } else {
            spec_cstr(b, str_off + st_name)
        };
        if plt_addr + k * PLT_ENTRY_SIZE + PLT_ENTRY_SIZE <= u64::MAX {
            Some(((plt_addr + k * PLT_ENTRY_SIZE) as u64, spec_plt_name(nm)))
        } else {
            None
        }
    }
}

/// The PLT pseudo-symbols the first `n` relocation entries synthesize, one
/// stride apart from the first PLT entry.
pub open spec fn spec_plt_blobs(
    b: Seq<u8>,
    rel_off: int,
    rel_ent: int,
    n: int,
    sym_off: int,
    sym_ent: int,
    str_off: int,
    plt_addr: u64,
) -> Seq<(u64, Seq<u8>)>
    decreases n,
{
    if n <= 0 {
        Seq::empty()
    } else {
        spec_plt_blobs(b, rel_off, rel_ent, n - 1, sym_off, sym_ent, str_off, plt_addr)
            + match spec_plt_tuple(b, rel_off, rel_ent, n - 1, sym_off, sym_ent, str_off,
            plt_addr,
        ) {
            Some(t) => seq![t],
            None => Seq::empty(),
        }
    }
}

/// Whether `blobs` extends a prefix of length `old_len` with exactly the
/// PLT table `tbl`, each blob one PLT entry long.
pub open spec fn spec_plt_match(
    blobs: Seq<crate::code_cache::CodeBlob>,
    old_len: int,
    tbl: Seq<(u64, Seq<u8>)>,
    lib_index: u16,
) -> bool {
    forall|j: int|
        0 <= j < tbl.len() ==> {
            let t = #[trigger] tbl[j];
            let blob = blobs[old_len + j];
            blob.start == t.0 && blob.end == t.0 + PLT_ENTRY_SIZE && blob.name.name@
                == spec_sanitized(t.1) && blob.name.lib_index == lib_index
        }
}

/// Everything the relocation table under section `rt` synthesizes, given
/// the address of the first PLT entry.
pub open spec fn spec_reltab_blobs(b: Seq<u8>, rt: int, plt_addr: u64) -> Seq<(u64, Seq<u8>)> {
    {
        let sec = spec_section(b, rt);
        let symtab = spec_section(b, sec.link as int);
        let str_off = spec_section(b, symtab.link as int).offset as int;
        let n = spec_entry_count(b, sec.offset as int, sec.entsize as int, sec.size as int, 16);
        spec_plt_blobs(
            b,
            sec.offset as int,
            sec.entsize as int,
            n,
            symtab.offset as int,
            symtab.entsize as int,
            str_off,
            plt_addr,
        )
    }
}

/// The recorded fields of section header `i`, read fieldwise whether or
/// not the header lies inside the image.
fn section_fields_total(b: &[u8], i: u64) -> (r: (u64, u64, u32, u64))
    requires
        i <= u32::MAX,
        b@.len() >= EHDR_BYTES,
    ensures
        r.0 == spec_section(b@, i as int).offset,
        r.1 == spec_section(b@, i as int).size,
        r.2 == spec_section(b@, i as int).link,
        r.3 == spec_section(b@, i as int).entsize,
{
    let blen = b.len();
    proof {
        assert(b@.len() <= u64::MAX);
    }
    let shoff = read_u64(b, 40);
    let shentsize = read_u16(b, 58) as u64;
    proof {
        assert(i * shentsize <= u64::MAX && (i * shentsize) as int == (i as int) * (
        shentsize as int)) by (nonlinear_arith)
            requires
                i <= u32::MAX,
                shentsize < 0x10000,
        ;
    }
    if shoff <= u64::MAX - i * shentsize {
        let pos = shoff + i * shentsize;
        (
            read_u64_off(b, pos, 24),
            read_u64_off(b, pos, 32),
            read_u32_off(b, pos, 40),
            read_u64_off(b, pos, 56),
        )
    } else {
        proof {
            assert(spec_u64_at(b@, spec_sec_pos(b@, i as int) + 24) == 0);
            assert(spec_u64_at(b@, spec_sec_pos(b@, i as int) + 32) == 0);
            assert(spec_u32_at(b@, spec_sec_pos(b@, i as int) + 40) == 0);
            assert(spec_u64_at(b@, spec_sec_pos(b@, i as int) + 56) == 0);
        }
        (0, 0, 0, 0)
    }
}

/// Synthesize one PLT pseudo-symbol per entry of the relocation table
/// under section `rt`: entry `k` claims the `k`-th PLT stub and is named
/// after the symbol its relocation refers to. Bounds are left alone.
#[verifier::rlimit(60)]
pub fn add_relocation_symbols(cc: &mut CodeCache, b: &[u8], rt: usize, plt_addr: u64)
    requires
        rt < 0x10000,
        b@.len() >= EHDR_BYTES,
    ensures
        final(cc).blobs@.len() == old(cc).blobs@.len() + spec_reltab_blobs(b@, rt as int,
            plt_addr,
        ).len(),
        forall|j: int|
            0 <= j < old(cc).blobs@.len() ==> final(cc).blobs@[j] == old(cc).blobs@[j],
        spec_plt_match(final(cc).blobs@, old(cc).blobs@.len() as int, spec_reltab_blobs(b@,
            rt as int, plt_addr), old(cc).lib_index),
        final(cc).min_address == old(cc).min_address,
        final(cc).max_address == old(cc).max_address,
        final(cc).spec_same_meta(&old(cc)),
        spec_names_clean(old(cc).blobs@) ==> spec_names_clean(final(cc).blobs@),
{
    let blen = b.len();
    proof {
        assert(b@.len() <= u64::MAX);
    }
    let (rel_off, rel_size, rel_link, rel_ent) = section_fields_total(b, rt as u64);
    let (sym_off, _sym_size, sym_link, sym_ent) = section_fields_total(b, rel_link as u64);
    let (str_off, _s1, _s2, _s3) = section_fields_total(b, sym_link as u64);
    let n = entry_count(b, rel_off, rel_ent, rel_size, 16);
    let ghost old_len = cc.blobs@.len() as int;
    let ghost old_cc = *cc;
    let mut k: u64 = 0;
    while k < n
        invariant
            0 <= k <= n,
            b@.len() >= EHDR_BYTES,
            b@.len() <= u64::MAX,
            blen == b@.len(),
            old_len == old_cc.blobs@.len(),
            tab_ok(rel_off, rel_ent, n, b@.len() as int),
            cc.blobs@.len() == old_len + spec_plt_blobs(b@, rel_off as int, rel_ent as int,
                k as int, sym_off as int, sym_ent as int, str_off as int, plt_addr).len(),
            forall|j: int| 0 <= j < old_len ==> cc.blobs@[j] == old_cc.blobs@[j],
            spec_plt_match(cc.blobs@, old_len, spec_plt_blobs(b@, rel_off as int, rel_ent as int,
                k as int, sym_off as int, sym_ent as int, str_off as int, plt_addr),
                old_cc.lib_index),
            cc.min_address == old_cc.min_address,
            cc.max_address == old_cc.max_address,
            cc.spec_same_meta(&old_cc),
            cc.lib_index == old_cc.lib_index,
            spec_names_clean(old_cc.blobs@) ==> spec_names_clean(cc.blobs@),
        decreases n - k,
    {
        proof {
            assert((k + 1) * rel_ent <= n * rel_ent && (k as int) * (rel_ent as int) >= 0 && (k
                + 1) * rel_ent == k * rel_ent + rel_ent) by (nonlinear_arith)
                requires
                    0 <= k < n,
                    rel_ent as int >= 0,
            ;
            assert(rel_off + k * rel_ent + 16 <= b@.len());
        }
        let e = rel_off + k * rel_ent;
        let info = read_u64(b, (e + 8) as usize);
        let symidx = info >> 32u64;
        let ghost prev = spec_plt_blobs(b@, rel_off as int, rel_ent as int, k as int,
            sym_off as int, sym_ent as int, str_off as int, plt_addr);
        let ghost cur = spec_plt_blobs(b@, rel_off as int, rel_ent as int, k + 1, sym_off as int,
            sym_ent as int, str_off as int, plt_addr);
        let st_name: u32 = if sym_ent == 0 {
            proof {
                assert(symidx as int * (sym_ent as int) == 0) by (nonlinear_arith)
                    requires
                        sym_ent as int == 0,
                ;
            }
            read_u32_off(b, sym_off, 0)
        } else if symidx <= u64::MAX / sym_ent {
            proof {
                assert(symidx * sym_ent <= u64::MAX && (symidx * sym_ent) as int == (symidx as int)
                    * (sym_ent as int)) by (nonlinear_arith)
                    requires
                        sym_ent as int >= 1,
                        symidx as int <= (u64::MAX as int) / (sym_ent as int),
                ;
            }
            let d = symidx * sym_ent;
            if sym_off <= u64::MAX - d {
                read_u32_off(b, sym_off + d, 0)
            } else {
                proof {
                    assert(spec_u32_at(b@, sym_off + symidx * sym_ent) == 0);
                }
                0
            }
        } else {
            proof {
                assert((symidx as int) * (sym_ent as int) > u64::MAX) by (nonlinear_arith)
                    requires
                        sym_ent as int >= 1,
                        symidx as int > (u64::MAX as int) / (sym_ent as int),
                ;
                assert(spec_u32_at(b@, sym_off + symidx * sym_ent) == 0);
            }
            0
        };
        let mut nm: Vec<u8> = Vec::new();
        if st_name != 0 {
            if str_off <= blen as u64 && st_name as u64 <= blen as u64 - str_off {
                let raw = cstr_at(b, (str_off + st_name as u64) as usize);
                append_bytes(&mut nm, raw.as_slice());
            } else {
                proof {
                    assert(spec_cstr(b@, str_off + st_name) =~= Seq::<u8>::empty());
                }
            }
        }
        proof {
            assert(k * PLT_ENTRY_SIZE <= k * rel_ent && k * rel_ent <= n * rel_ent) by (
            nonlinear_arith)
                requires
                    0 <= k <= n,
                    16 <= rel_ent,
            ;
        }
        let stride = k * PLT_ENTRY_SIZE;
        if plt_addr <= u64::MAX - PLT_ENTRY_SIZE && stride <= u64::MAX - PLT_ENTRY_SIZE - plt_addr {
            let addr = plt_addr + stride;
            let ghost pre_blobs = cc.blobs@;
            let mut disp: Vec<u8> = Vec::new();
            push_plt_name(&mut disp, nm.as_slice());
            cc.add(addr, PLT_ENTRY_SIZE, disp.as_slice(), false);
            proof {
                let ghost t = (addr, spec_plt_name(nm@));
                assert(spec_plt_tuple(b@, rel_off as int, rel_ent as int, k as int,
                    sym_off as int, sym_ent as int, str_off as int, plt_addr) == Some(t));
                assert(cur =~= prev.push(t));
                assert(spec_plt_match(cc.blobs@, old_len, cur, old_cc.lib_index)) by {
                    assert forall|j: int| 0 <= j < cur.len() implies {
                        let tt = #[trigger] cur[j];
                        let blob = cc.blobs@[old_len + j];
                        blob.start == tt.0 && blob.end == tt.0 + PLT_ENTRY_SIZE && blob.name.name@
                            == spec_sanitized(tt.1) && blob.name.lib_index == old_cc.lib_index
                    } by {
                        if j < prev.len() {
                            assert(cur[j] == prev[j]);
                            assert(cc.blobs@.drop_last() == pre_blobs);
                            assert(cc.blobs@.subrange(0, cc.blobs@.len() - 1)[old_len + j]
                                == cc.blobs@[0 + (old_len + j)]);
                            assert(cc.blobs@[old_len + j] == pre_blobs[old_len + j]);
                        } else {
                            assert(cur[j] == t);
                            assert(cc.blobs@[old_len + j] == cc.blobs@.last());
                        }
                    }
                }
            }
        } else {
            proof {
                assert(spec_plt_tuple(b@, rel_off as int, rel_ent as int, k as int,
                    sym_off as int, sym_ent as int, str_off as int, plt_addr) is None);
                assert(cur =~= prev);
                assert(spec_plt_match(cc.blobs@, old_len, cur, old_cc.lib_index));
            }
        }
        proof {
            assert(spec_plt_match(
                cc.blobs@,
                old_len,
                spec_plt_blobs(b@, rel_off as int, rel_ent as int, k + 1, sym_off as int,
                    sym_ent as int, str_off as int, plt_addr),
                old_cc.lib_index,
            ));
        }
        k = k + 1;
    }
    proof {
        assert(spec_reltab_blobs(b@, rt as int, plt_addr) == spec_plt_blobs(b@, rel_off as int,
            rel_ent as int, n as int, sym_off as int, sym_ent as int, str_off as int, plt_addr));
    }
}

/// A table of `n` entries of stride `ent` starting at `off` lies inside an
/// image of the given length.
pub open spec fn tab_ok(off: u64, ent: u64, n: u64, len: int) -> bool {
    (off + n * ent <= len || n == 0) && (ent >= 16 || n == 0)
}

/// The bytes of `.plt`.
pub open spec fn spec_name_plt() -> Seq<u8> {
    seq![46u8, 112u8, 108u8, 116u8]
}

/// The bytes of `.rela.plt`.
pub open spec fn spec_name_rela_plt() -> Seq<u8> {
    seq![46u8, 114u8, 101u8, 108u8, 97u8, 46u8, 112u8, 108u8, 116u8]
}

/// The bytes of `.rel.plt`.
pub open spec fn spec_name_rel_plt() -> Seq<u8> {
    seq![46u8, 114u8, 101u8, 108u8, 46u8, 112u8, 108u8, 116u8]
}

/// The bytes of `.symtab`.
pub open spec fn spec_name_symtab() -> Seq<u8> {
    seq![46u8, 115u8, 121u8, 109u8, 116u8, 97u8, 98u8]
}

/// The bytes of `.dynsym`.
pub open spec fn spec_name_dynsym() -> Seq<u8> {
    seq![46u8, 100u8, 121u8, 110u8, 115u8, 121u8, 109u8]
}

/// The bytes of `.gnu_debuglink`.
pub open spec fn spec_name_debuglink() -> Seq<u8> {
    seq![
        46u8,
        103u8,
        110u8,
        117u8,
        95u8,
        100u8,
        101u8,
        98u8,
        117u8,
        103u8,
        108u8,
        105u8,
        110u8,
        107u8,
    ]
}

/// The bytes of `.note.gnu.build-id`.
pub open spec fn spec_name_build_id() -> Seq<u8> {
    seq![
        46u8,
        110u8,
        111u8,
        116u8,
        101u8,
        46u8,
        103u8,
        110u8,
        117u8,
        46u8,
        98u8,
        117u8,
        105u8,
        108u8,
        100u8,
        45u8,
        105u8,
        100u8,
    ]
}

fn name_plt() -> (r: Vec<u8>)
    ensures
        r@ == spec_name_plt(),
{
    let mut v: Vec<u8> = Vec::new();
    v.push(46);
    v.push(112);
    v.push(108);
    v.push(116);
    proof {
        assert(v@ =~= spec_name_plt());
    }
    v
}

fn name_rela_plt() -> (r: Vec<u8>)
    ensures
        r@ == spec_name_rela_plt(),
{
    let mut v = name_rel_head();
    v.push(97);
    v.push(46);
    v.push(112);
    v.push(108);
    v.push(116);
    proof {
        assert(v@ =~= spec_name_rela_plt());
    }
    v
}

fn name_rel_plt() -> (r: Vec<u8>)
    ensures
        r@ == spec_name_rel_plt(),
{
    let mut v = name_rel_head();
    v.push(46);
    v.push(112);
    v.push(108);
    v.push(116);
    proof {
        assert(v@ =~= spec_name_rel_plt());
    }
    v
}

fn name_rel_head() -> (r: Vec<u8>)
    ensures
        r@ == seq![46u8, 114u8, 101u8, 108u8],
{
    let mut v: Vec<u8> = Vec::new();
    v.push(46);
    v.push(114);
    v.push(101);
    v.push(108);
    proof {
        assert(v@ =~= seq![46u8, 114u8, 101u8, 108u8]);
    }
    v
}

pub fn name_symtab() -> (r: Vec<u8>)
    ensures
        r@ == spec_name_symtab(),
{
    let mut v: Vec<u8> = Vec::new();
    v.push(46);
    v.push(115);
    v.push(121);
    v.push(109);
    v.push(116);
    v.push(97);
    v.push(98);
    proof {
        assert(v@ =~= spec_name_symtab());
    }
    v
}

pub fn name_dynsym() -> (r: Vec<u8>)
    ensures
        r@ == spec_name_dynsym(),
{
    let mut v: Vec<u8> = Vec::new();
    v.push(46);
    v.push(100);
    v.push(121);
    v.push(110);
    v.push(115);
    v.push(121);
    v.push(109);
    proof {
        assert(v@ =~= spec_name_dynsym());
    }
    v
}

fn name_debuglink() -> (r: Vec<u8>)
    ensures
        r@ == spec_name_debuglink(),
{
    let mut v: Vec<u8> = Vec::new();
    v.push(46);
    v.push(103);
    v.push(110);
    v.push(117);
    v.push(95);
    v.push(100);
    v.push(101);
    v.push(98);
    v.push(117);
    v.push(103);
    v.push(108);
    v.push(105);
    v.push(110);
    v.push(107);
    proof {
        assert(v@ =~= spec_name_debuglink());
    }
    v
}

fn name_build_id() -> (r: Vec<u8>)
    ensures
        r@ == spec_name_build_id(),
{
    let mut v: Vec<u8> = Vec::new();
    v.push(46);
    v.push(110);
    v.push(111);
    v.push(116);
    v.push(101);
    v.push(46);
    v.push(103);
    v.push(110);
    v.push(117);
    v.push(46);
    v.push(98);
    v.push(117);
    v.push(105);
    v.push(108);
    v.push(100);
    v.push(45);
    v.push(105);
    v.push(100);
    proof {
        assert(v@ =~= spec_name_build_id());
    }
    v
}

/// The PLT pseudo-symbol plan of an image: the relocation table to walk
/// (`.rela.plt` first, `.rel.plt` as the fallback) and the address of the
/// first PLT stub, one header past the `.plt` section's location.
pub open spec fn spec_plt_plan(b: Seq<u8>, base: u64) -> Option<(int, u64)> {
    {
        let plt = spec_find_sec_from(b, SHT_PROGBITS, spec_name_plt(), 0);
        let rt = match spec_find_sec_from(b, SHT_RELA, spec_name_rela_plt(), 0) {
            Some(i) => Some(i),
            None => spec_find_sec_from(b, SHT_REL, spec_name_rel_plt(), 0),
        };
        match (plt, rt) {
            (Some(p), Some(r)) => {
                if base + spec_section(b, p).offset + PLT_HEADER_SIZE <= u64::MAX {
                    Some((r, (base + spec_section(b, p).offset + PLT_HEADER_SIZE) as u64))
                } else {
                    None
                }
            },
            _ => None,
        }
    }
}

/// Synthesize the image's PLT pseudo-symbols, where it has both a `.plt`
/// section and a relocation table for it.
pub fn add_plt_symbols(cc: &mut CodeCache, b: &[u8], base: u64)
    ensures
        match spec_plt_plan(b@, base) {
            None => *final(cc) == *old(cc),
            Some((rt, addr)) => {
                &&& final(cc).blobs@.len() == old(cc).blobs@.len() + spec_reltab_blobs(b@, rt,
                    addr,
                ).len()
                &&& forall|j: int|
                    0 <= j < old(cc).blobs@.len() ==> final(cc).blobs@[j] == old(cc).blobs@[j]
                &&& spec_plt_match(final(cc).blobs@, old(cc).blobs@.len() as int,
                    spec_reltab_blobs(b@, rt, addr), old(cc).lib_index)
                &&& final(cc).min_address == old(cc).min_address
                &&& final(cc).max_address == old(cc).max_address
                &&& final(cc).spec_same_meta(&old(cc))
                &&& (spec_names_clean(old(cc).blobs@) ==> spec_names_clean(final(cc).blobs@))
            },
        },
{
    let plt = find_section(b, SHT_PROGBITS, name_plt().as_slice());
    let reltab = match find_section(b, SHT_RELA, name_rela_plt().as_slice()) {
        Some(i) => Some(i),
        None => find_section(b, SHT_REL, name_rel_plt().as_slice()),
    };
    let p = match plt {
        Some(p) => p,
        None => {
            return ;
        },
    };
    let rt = match reltab {
        Some(r) => r,
        None => {
            return ;
        },
    };
    proof {
        lemma_found_sec_in_bounds(b@, SHT_PROGBITS, spec_name_plt(), 0, p as int);
        if spec_find_sec_from(b@, SHT_RELA, spec_name_rela_plt(), 0) == Some(rt as int) {
            lemma_found_sec_in_bounds(b@, SHT_RELA, spec_name_rela_plt(), 0, rt as int);
        } else {
            lemma_found_sec_in_bounds(b@, SHT_REL, spec_name_rel_plt(), 0, rt as int);
        }
    }
    let sec = match read_section(b, p) {
        Some(s) => s,
        None => {
            proof {
                lemma_found_sec_in_bounds(b@, SHT_PROGBITS, spec_name_plt(), 0, p as int);
            }
            return ;
        },
    };
    if base <= u64::MAX - PLT_HEADER_SIZE && sec.offset <= u64::MAX - PLT_HEADER_SIZE - base {
        let addr = base + sec.offset + PLT_HEADER_SIZE;
        add_relocation_symbols(cc, b, rt, addr);
    }
}

/// A found section index lies inside the image.
proof fn lemma_found_sec_in_bounds(b: Seq<u8>, typ: u32, name: Seq<u8>, i: int, found: int)
    requires
        spec_find_sec_from(b, typ, name, i) == Some(found),
    ensures
        spec_sec_in_bounds(b, found),
        i <= found < spec_shnum(b),
        b.len() >= EHDR_BYTES,
    decreases spec_shnum(b) - i,
{
    if spec_find_sec_from(b, typ, name, i) == Some(found) && 0 <= i < spec_shnum(b)
        && spec_sec_matches(b, i, typ, name) {
        assert(found * spec_shentsize(b) >= 0) by (nonlinear_arith)
            requires
                found >= 0,
                spec_shentsize(b) >= 0,
        ;
    }
    if 0 <= i < spec_shnum(b) {
        if spec_sec_matches(b, i, typ, name) {
        } else {
            lemma_found_sec_in_bounds(b, typ, name, i + 1, found);
        }
    }
}

pub const PT_LOAD_TYPE: u32 = 1;

pub const PT_DYNAMIC_TYPE: u32 = 2;

pub const ET_EXEC_TYPE: u16 = 2;

pub const PHDR_BYTES: u64 = 56;

pub const DYN_ENTRY_BYTES: u64 = 16;

pub const DT_PLTRELSZ_TAG: u64 = 2;

pub const DT_PLTGOT_TAG: u64 = 3;

pub const DT_RELA_TAG: u64 = 7;

pub const DT_RELASZ_TAG: u64 = 8;

pub const DT_RELAENT_TAG: u64 = 9;

pub const DT_REL_TAG: u64 = 17;

pub const DT_RELSZ_TAG: u64 = 18;

pub const DT_RELENT_TAG: u64 = 19;

pub const DT_RELACOUNT_TAG: u64 = 0x6ffffff9;

pub const DT_RELCOUNT_TAG: u64 = 0x6ffffffa;

pub const R_GLOB_DAT_TYPE: u64 = 6;

pub open spec fn spec_phoff(b: Seq<u8>) -> int {
    spec_u64_at(b, 32) as int
}

pub open spec fn spec_phentsize(b: Seq<u8>) -> int {
    spec_u16_at(b, 54) as int
}

pub open spec fn spec_phnum(b: Seq<u8>) -> int {
    spec_u16_at(b, 56) as int
}

pub open spec fn spec_etype(b: Seq<u8>) -> u16 {
    spec_u16_at(b, 16)
}

/// The fields of one program header this reader uses.
pub struct ProgramHeader {
    pub p_type: u32,
    pub p_paddr: u64,
    pub p_memsz: u64,
}

pub open spec fn spec_ph_pos(b: Seq<u8>, i: int) -> int {
    spec_phoff(b) + i * spec_phentsize(b)
}

pub open spec fn spec_ph_in_bounds(b: Seq<u8>, i: int) -> bool {
    &&& 0 <= i
    &&& spec_phentsize(b) >= PHDR_BYTES
    &&& spec_ph_pos(b, i) + PHDR_BYTES <= b.len()
}

pub open spec fn spec_phdr(b: Seq<u8>, i: int) -> ProgramHeader {
    {
        let pos = spec_ph_pos(b, i);
        ProgramHeader {
            p_type: spec_u32_at(b, pos),
            p_paddr: spec_u64_at(b, pos + 24),
            p_memsz: spec_u64_at(b, pos + 40),
        }
    }
}

/// The first program header at or after `i` of the given type.
pub open spec fn spec_find_ph_from(b: Seq<u8>, typ: u32, i: int) -> Option<int>
    decreases spec_phnum(b) - i,
{
    if i < 0 || i >= spec_phnum(b) {
        None
    } else if spec_ph_in_bounds(b, i) && spec_phdr(b, i).p_type == typ {
        Some(i)
    } else {
        spec_find_ph_from(b, typ, i + 1)
    }
}

/// Read program header `i` where it lies inside the image.
pub fn read_phdr(b: &[u8], i: usize) -> (r: Option<ProgramHeader>)
    requires
        i < 0x10000,
        b@.len() >= EHDR_BYTES,
    ensures
        r is Some <==> spec_ph_in_bounds(b@, i as int),
        r matches Some(s) ==> s == spec_phdr(b@, i as int),
{
    let blen = b.len();
    let phoff = read_u64(b, 32);
    let phentsize = read_u16(b, 54) as u64;
    if phentsize < PHDR_BYTES {
        return None;
    }
    if phoff > blen as u64 {
        proof {
            assert(i as int * spec_phentsize(b@) >= 0) by (nonlinear_arith)
                requires
                    i >= 0,
                    spec_phentsize(b@) >= 0,
            ;
        }
        return None;
    }
    let room = blen as u64 - phoff;
    proof {
        assert((i as u64) * phentsize <= u64::MAX && ((i as u64) * phentsize) as int == (i as int)
            * (phentsize as int)) by (nonlinear_arith)
            requires
                i < 0x10000,
                phentsize < 0x10000,
        ;
    }
    let need = (i as u64) * phentsize;
    if need > room || room - need < PHDR_BYTES {
        return None;
    }
    let pos = (phoff + need) as usize;
    Some(
        ProgramHeader {
            p_type: read_u32(b, pos),
            p_paddr: read_u64(b, pos + 24),
            p_memsz: read_u64(b, pos + 40),
        },
    )
}

/// Find the first program header of the given type.
pub fn find_program_header(b: &[u8], typ: u32) -> (r: Option<usize>)
    requires
        b@.len() >= EHDR_BYTES,
    ensures
        match r {
            Some(i) => spec_find_ph_from(b@, typ, 0) == Some(i as int) && i < 0x10000,
            None => spec_find_ph_from(b@, typ, 0) is None,
        },
{
    let phnum = read_u16(b, 56) as usize;
    let mut i: usize = 0;
    while i < phnum
        invariant
            0 <= i <= phnum,
            phnum == spec_phnum(b@),
            b@.len() >= EHDR_BYTES,
            spec_find_ph_from(b@, typ, 0) == spec_find_ph_from(b@, typ, i as int),
        decreases phnum - i,
    {
        match read_phdr(b, i) {
            Some(ph) => {
                if ph.p_type == typ {
                    return Some(i);
                }
            },
            None => {},
        }
        i = i + 1;
    }
    None
}

/// What the dynamic segment records, each tag's last value winning:
/// the address one triple past the PLT's GOT slot, the PLT relocation
/// span, the relocation table's image offset, size, stride and count.
/// The `got_set` and `rel_set` flags say whether the tag appeared at all.
pub struct DynInfo {
    pub got_start: u64,
    pub got_set: bool,
    pub pltrelsz: u64,
    pub relsz: u64,
    pub relent: u64,
    pub relcount: u64,
    pub rel_off: u64,
    pub rel_set: bool,
}

pub open spec fn spec_dyn_empty() -> DynInfo {
    DynInfo {
        got_start: 0,
        got_set: false,
        pltrelsz: 0,
        relsz: 0,
        relent: 0,
        relcount: 0,
        rel_off: 0,
        rel_set: false,
    }
}

/// Fold the first `n` dynamic entries.
pub open spec fn spec_dyn_fold(b: Seq<u8>, off: int, n: int, base: u64) -> DynInfo
    decreases n,
{
    if n <= 0 {
        spec_dyn_empty()
    } else {
        {
            let prev = spec_dyn_fold(b, off, n - 1, base);
            let e = off + (n - 1) * DYN_ENTRY_BYTES;
            let tag = spec_u64_at(b, e);
            let val = spec_u64_at(b, e + 8);
            if tag == DT_PLTGOT_TAG {
                DynInfo {
                    got_start: vstd::wrapping::u64_specs::wrapping_add(
                        vstd::wrapping::u64_specs::wrapping_add(base, val),
                        24,
                    ),
                    got_set: true,
                    ..prev
                }
            } else if tag == DT_PLTRELSZ_TAG {
                DynInfo { pltrelsz: val, ..prev }
            } else if tag == DT_RELA_TAG || tag == DT_REL_TAG {
                DynInfo { rel_off: val, rel_set: true, ..prev }
            } else if tag == DT_RELASZ_TAG || tag == DT_RELSZ_TAG {
                DynInfo { relsz: val, ..prev }
            } else if tag == DT_RELAENT_TAG || tag == DT_RELENT_TAG {
                DynInfo { relent: val, ..prev }
            } else if tag == DT_RELACOUNT_TAG || tag == DT_RELCOUNT_TAG {
                DynInfo { relcount: val, ..prev }
            } else {
                prev
            }
        }
    }
}

/// The image offset where the dynamic segment's entries lie: its recorded
/// physical address, absolute for a fixed-position executable, relative to
/// the mapping base otherwise.
pub open spec fn spec_dyn_off(b: Seq<u8>, ph: ProgramHeader, base: u64) -> int {
    if spec_etype(b) == ET_EXEC_TYPE {
        ph.p_paddr - base
    } else {
        ph.p_paddr as int
    }
}

/// What the whole dynamic segment records, where the image has one.
pub open spec fn spec_dyn_info(b: Seq<u8>, base: u64) -> Option<DynInfo> {
    match spec_find_ph_from(b, PT_DYNAMIC_TYPE, 0) {
        None => None,
        Some(i) => {
            let ph = spec_phdr(b, i);
            let off = spec_dyn_off(b, ph, base);
            let n = spec_entry_count(b, off, DYN_ENTRY_BYTES as int, ph.p_memsz as int,
                DYN_ENTRY_BYTES as int,
            );
            Some(spec_dyn_fold(b, off, n, base))
        },
    }
}

/// The least and greatest patched address among `m` relocations starting
/// at index `j0`, counting only those of the direct-data kind; the bounds
/// start at the sentinels (everything, nothing).
pub open spec fn spec_glob_scan(
    b: Seq<u8>,
    rel_off: int,
    relent: int,
    j0: int,
    m: int,
    base: u64,
) -> (u64, u64)
    decreases m,
{
    if m <= 0 {
        (u64::MAX, 0u64)
    } else {
        {
            let prev = spec_glob_scan(b, rel_off, relent, j0, m - 1, base);
            let e = rel_off + (j0 + m - 1) * relent;
            let r_offset = spec_u64_at(b, e);
            let r_info = spec_u64_at(b, e + 8);
            if r_info & 0xffffffffu64 == R_GLOB_DAT_TYPE {
                {
                    let a = vstd::wrapping::u64_specs::wrapping_add(base, r_offset);
                    (
                        if a < prev.0 {
                            a
                        } else {
                            prev.0
                        },
                        if a > prev.1 {
                            a
                        } else {
                            prev.1
                        },
                    )
                }
            } else {
                prev
            }
        }
    }
}

/// What the global-offset-table record becomes once the dynamic segment is
/// read: the direct span where the PLT's GOT slot and relocation span are
/// both recorded; else, for a relocation table merged read-only, the span
/// of direct-data relocations; else nothing changes.
pub open spec fn spec_got_update(b: Seq<u8>, base: u64, info: DynInfo) -> Option<(u64, u64)> {
    if info.relent == 0 {
        None
    } else if info.pltrelsz != 0 && info.got_set {
        Some(
            (
                info.got_start,
                vstd::wrapping::u64_specs::wrapping_add(
                    info.got_start,
                    vstd::wrapping::u64_specs::wrapping_mul((info.pltrelsz / info.relent) as u64, 8),
                ),
            ),
        )
    } else if info.rel_set && info.relsz != 0 {
        {
            let cnt = spec_entry_count(b, info.rel_off as int, info.relent as int,
                info.relsz as int, 16);
            let m = if info.relcount < cnt {
                cnt - info.relcount
            } else {
                0
            };
            let mnmx = spec_glob_scan(b, info.rel_off as int, info.relent as int,
                info.relcount as int, m as int, base);
            let gs = if info.got_set {
                info.got_start
            } else {
                mnmx.0
            };
            if mnmx.1 >= gs {
                Some((gs, vstd::wrapping::u64_specs::wrapping_add(mnmx.1, 8)))
            } else {
                None
            }
        }
    } else {
        None
    }
}

/// Read the dynamic segment and record the image's global-offset-table
/// span on the index; everything else on the index stays as it was.
#[verifier::rlimit(60)]
pub fn parse_dynamic_section(cc: &mut CodeCache, b: &[u8], base: u64)
    requires
        b@.len() >= EHDR_BYTES,
    ensures
        final(cc).blobs@ == old(cc).blobs@,
        final(cc).min_address == old(cc).min_address,
        final(cc).max_address == old(cc).max_address,
        final(cc).name == old(cc).name,
        final(cc).lib_index == old(cc).lib_index,
        final(cc).text_base == old(cc).text_base,
        final(cc).debug_symbols == old(cc).debug_symbols,
        match spec_dyn_info(b@, base) {
            None => final(cc).got_start == old(cc).got_start && final(cc).got_end
                == old(cc).got_end && final(cc).got_patchable == old(cc).got_patchable,
            Some(info) => match spec_got_update(b@, base, info) {
                Some((gs, ge)) => final(cc).got_start == gs && final(cc).got_end == ge
                    && !final(cc).got_patchable,
                None => final(cc).got_start == old(cc).got_start && final(cc).got_end
                    == old(cc).got_end && final(cc).got_patchable == old(cc).got_patchable,
            },
        },
{
    let blen = b.len();
    proof {
        assert(b@.len() <= u64::MAX);
    }
    let phi = match find_program_header(b, PT_DYNAMIC_TYPE) {
        Some(i) => i,
        None => {
            return ;
        },
    };
    let ph = match read_phdr(b, phi) {
        Some(p) => p,
        None => {
            proof {
                lemma_found_ph_in_bounds(b@, PT_DYNAMIC_TYPE, 0, phi as int);
            }
            return ;
        },
    };
    let etype = read_u16(b, 16);
    let dyn_off_ok: bool;
    let dyn_off: u64;
    if etype == ET_EXEC_TYPE {
        if ph.p_paddr >= base {
            dyn_off = ph.p_paddr - base;
            dyn_off_ok = true;
        } else {
            dyn_off = 0;
            dyn_off_ok = false;
        }
    } else {
        dyn_off = ph.p_paddr;
        dyn_off_ok = true;
    }
    let ghost doffg = spec_dyn_off(b@, ph, base);
    let mut info = DynInfo {
        got_start: 0,
        got_set: false,
        pltrelsz: 0,
        relsz: 0,
        relent: 0,
        relcount: 0,
        rel_off: 0,
        rel_set: false,
    };
    if dyn_off_ok {
        let n = entry_count(b, dyn_off, DYN_ENTRY_BYTES, ph.p_memsz, DYN_ENTRY_BYTES);
        let mut k: u64 = 0;
        while k < n
            invariant
                0 <= k <= n,
                blen == b@.len(),
                b@.len() <= u64::MAX,
                dyn_off + n * DYN_ENTRY_BYTES <= b@.len() || n == 0,
                doffg == dyn_off,
                info == spec_dyn_fold(b@, doffg, k as int, base),
            decreases n - k,
        {
            proof {
                assert((k + 1) * DYN_ENTRY_BYTES <= n * DYN_ENTRY_BYTES && (k + 1)
                    * DYN_ENTRY_BYTES == k * DYN_ENTRY_BYTES + DYN_ENTRY_BYTES && (k as int) * (
                DYN_ENTRY_BYTES as int) >= 0) by (nonlinear_arith)
                    requires
                        0 <= k < n,
                ;
            }
            let e = (dyn_off + k * DYN_ENTRY_BYTES) as usize;
            let tag = read_u64(b, e);
            let val = read_u64(b, e + 8);
            if tag == DT_PLTGOT_TAG {
                info.got_start = base.wrapping_add(val).wrapping_add(24);
                info.got_set = true;
            } else if tag == DT_PLTRELSZ_TAG {
                info.pltrelsz = val;
            } else if tag == DT_RELA_TAG || tag == DT_REL_TAG {
                info.rel_off = val;
                info.rel_set = true;
            } else if tag == DT_RELASZ_TAG || tag == DT_RELSZ_TAG {
                info.relsz = val;
            } else if tag == DT_RELAENT_TAG || tag == DT_RELENT_TAG {
                info.relent = val;
            } else if tag == DT_RELACOUNT_TAG || tag == DT_RELCOUNT_TAG {
                info.relcount = val;
            }
            k = k + 1;
        }
        proof {
            assert(info == spec_dyn_fold(b@, doffg, n as int, base));
            assert(spec_dyn_info(b@, base) == Some(info));
        }
    } else {
        proof {
            assert(spec_entry_count(b@, doffg, DYN_ENTRY_BYTES as int, ph.p_memsz as int,
                DYN_ENTRY_BYTES as int) == 0);
            assert(spec_dyn_info(b@, base) == Some(info));
        }
    }
    if info.relent == 0 {
        return ;
    }
    if info.pltrelsz != 0 && info.got_set {
        let span = (info.pltrelsz / info.relent).wrapping_mul(8);
        cc.set_global_offset_table(info.got_start, info.got_start.wrapping_add(span), false);
        return ;
    }
    if info.rel_set && info.relsz != 0 {
        let cnt = entry_count(b, info.rel_off, info.relent, info.relsz, 16);
        let m: u64 = if info.relcount < cnt {
            cnt - info.relcount
        } else {
            0
        };
        let mut mn: u64 = u64::MAX;
        let mut mx: u64 = 0;
        let mut j: u64 = 0;
        proof {
            if m > 0 {
                assert(info.relcount + m == cnt);
            }
        }
        while j < m
            invariant
                0 <= j <= m,
                blen == b@.len(),
                b@.len() <= u64::MAX,
                m > 0 ==> info.relcount + m <= cnt,
                cnt == spec_entry_count(b@, info.rel_off as int, info.relent as int,
                    info.relsz as int, 16),
                info.rel_off + cnt * info.relent <= b@.len() || cnt == 0,
                info.relent >= 16 || cnt == 0,
                (mn, mx) == spec_glob_scan(b@, info.rel_off as int, info.relent as int,
                    info.relcount as int, j as int, base),
            decreases m - j,
        {
            proof {
                assert((info.relcount + j + 1) * info.relent <= cnt * info.relent && (info.relcount
                    + j + 1) * info.relent == (info.relcount + j) * info.relent + info.relent && (
                info.relcount as int + j as int) * (info.relent as int) >= 0) by (nonlinear_arith)
                    requires
                        0 <= j < m,
                        info.relcount + m <= cnt,
                        info.relent as int >= 16,
                ;
            }
            let e = (info.rel_off + (info.relcount + j) * info.relent) as usize;
            let r_offset = read_u64(b, e);
            let r_info = read_u64(b, e + 8);
            if r_info & 0xffffffffu64 == R_GLOB_DAT_TYPE {
                let a = base.wrapping_add(r_offset);
                if a < mn {
                    mn = a;
                }
                if a > mx {
                    mx = a;
                }
            }
            j = j + 1;
        }
        let gs = if info.got_set {
            info.got_start
        } else {
            mn
        };
        if mx >= gs {
            cc.set_global_offset_table(gs, mx.wrapping_add(8), false);
        }
    }
}

/// A found program-header index lies inside the image.
proof fn lemma_found_ph_in_bounds(b: Seq<u8>, typ: u32, i: int, found: int)
    requires
        spec_find_ph_from(b, typ, i) == Some(found),
    ensures
        spec_ph_in_bounds(b, found),
        i <= found < spec_phnum(b),
    decreases spec_phnum(b) - i,
{
    if 0 <= i < spec_phnum(b) {
        if spec_ph_in_bounds(b, i) && spec_phdr(b, i).p_type == typ {
        } else {
            lemma_found_ph_in_bounds(b, typ, i + 1, found);
        }
    }
}

/// Record the image's text base and global-offset-table span from its
/// in-memory program headers, where the header checks out.
pub fn parse_program_headers(cc: &mut CodeCache, b: &[u8], base: u64)
    ensures
        !spec_valid_header(b@) ==> *final(cc) == *old(cc),
        spec_valid_header(b@) ==> {
            &&& final(cc).blobs@ == old(cc).blobs@
            &&& final(cc).min_address == old(cc).min_address
            &&& final(cc).max_address == old(cc).max_address
            &&& final(cc).name == old(cc).name
            &&& final(cc).lib_index == old(cc).lib_index
            &&& final(cc).debug_symbols == old(cc).debug_symbols
            &&& final(cc).text_base == base
        },
{
    if !valid_header(b) {
        return ;
    }
    cc.set_text_base(base);
    parse_dynamic_section(cc, b, base);
}

/// A lowercase hexadecimal digit.
pub open spec fn spec_hex_digit(v: int) -> u8 {
    if v < 10 {
        (48 + v) as u8
    } else {
        (87 + v) as u8
    }
}

/// Two lowercase hexadecimal digits of one byte.
pub open spec fn spec_hex_byte(x: u8) -> Seq<u8> {
    seq![spec_hex_digit(x as int / 16), spec_hex_digit(x as int % 16)]
}

/// The lowercase hexadecimal form of a byte string.
pub open spec fn spec_hex_seq(s: Seq<u8>) -> Seq<u8>
    decreases s.len(),
{
    if s.len() == 0 {
        Seq::empty()
    } else {
        spec_hex_seq(s.drop_last()) + spec_hex_byte(s.last())
    }
}

/// Append the lowercase hexadecimal form of `src`.
pub fn append_hex(dst: &mut Vec<u8>, src: &[u8])
    ensures
        final(dst)@ == old(dst)@ + spec_hex_seq(src@),
{
    let mut i: usize = 0;
    while i < src.len()
        invariant
            0 <= i <= src@.len(),
            dst@ == old(dst)@ + spec_hex_seq(src@.take(i as int)),
        decreases src@.len() - i,
    {
        let x = src[i];
        let hi = x / 16;
        let lo = x % 16;
        dst.push(
            if hi < 10 {
                48 + hi
            } else {
                87 + hi
            },
        );
        dst.push(
            if lo < 10 {
                48 + lo
            } else {
                87 + lo
            },
        );
        proof {
            assert(src@.take(i + 1).drop_last() =~= src@.take(i as int));
            assert(src@.take(i + 1).last() == src@[i as int]);
            assert(dst@ =~= old(dst)@ + spec_hex_seq(src@.take(i + 1)));
        }
        i = i + 1;
    }
    proof {
        assert(src@.take(src@.len() as int) =~= src@);
    }
}

/// The bytes of `/usr/lib/debug`.
pub open spec fn spec_debug_root() -> Seq<u8> {
    seq![
        47u8,
        117u8,
        115u8,
        114u8,
        47u8,
        108u8,
        105u8,
        98u8,
        47u8,
        100u8,
        101u8,
        98u8,
        117u8,
        103u8,
    ]
}

/// The bytes of `/.build-id/`.
pub open spec fn spec_build_id_dir() -> Seq<u8> {
    seq![47u8, 46u8, 98u8, 117u8, 105u8, 108u8, 100u8, 45u8, 105u8, 100u8, 47u8]
}

/// The bytes of `.debug`.
pub open spec fn spec_debug_ext() -> Seq<u8> {
    seq![46u8, 100u8, 101u8, 98u8, 117u8, 103u8]
}

fn debug_root() -> (r: Vec<u8>)
    ensures
        r@ == spec_debug_root(),
{
    let mut v: Vec<u8> = Vec::new();
    v.push(47);
    v.push(117);
    v.push(115);
    v.push(114);
    v.push(47);
    v.push(108);
    v.push(105);
    v.push(98);
    v.push(47);
    v.push(100);
    v.push(101);
    v.push(98);
    v.push(117);
    v.push(103);
    proof {
        assert(v@ =~= spec_debug_root());
    }
    v
}

fn build_id_dir() -> (r: Vec<u8>)
    ensures
        r@ == spec_build_id_dir(),
{
    let mut v: Vec<u8> = Vec::new();
    v.push(47);
    v.push(46);
    v.push(98);
    v.push(117);
    v.push(105);
    v.push(108);
    v.push(100);
    v.push(45);
    v.push(105);
    v.push(100);
    v.push(47);
    proof {
        assert(v@ =~= spec_build_id_dir());
    }
    v
}

fn debug_ext() -> (r: Vec<u8>)
    ensures
        r@ == spec_debug_ext(),
{
    let mut v: Vec<u8> = Vec::new();
    v.push(46);
    v.push(100);
    v.push(101);
    v.push(98);
    v.push(117);
    v.push(103);
    proof {
        assert(v@ =~= spec_debug_ext());
    }
    v
}

/// Where a build-id-linked external debug file lives, where the image
/// carries a well-formed build-id note: the debug root, the build-id
/// directory, the id in lowercase hexadecimal, and the debug extension.
pub open spec fn spec_build_id_path(b: Seq<u8>) -> Option<Seq<u8>> {
    match spec_find_sec_from(b, SHT_NOTE, spec_name_build_id(), 0) {
        None => None,
        Some(i) => {
            let sec = spec_section(b, i);
            let nsz = spec_u32_at(b, sec.offset as int);
            let dsz = spec_u32_at(b, sec.offset as int + 4);
            if sec.size <= 16 || nsz != 4 || dsz < 2 || dsz > 64 || sec.offset + 16 + dsz
                > b.len() {
                None
            } else {
                Some(
                    spec_debug_root() + spec_build_id_dir() + spec_hex_seq(
                        b.subrange(sec.offset as int + 16, sec.offset as int + 16 + dsz),
                    ) + spec_debug_ext(),
                )
            }
        },
    }
}

/// The path of the image's build-id-linked external debug file, if any.
pub fn build_id_debug_path(b: &[u8]) -> (r: Option<Vec<u8>>)
    ensures
        r is Some <==> spec_build_id_path(b@) is Some,
        r matches Some(v) ==> spec_build_id_path(b@) == Some(v@),
{
    let blen = b.len();
    proof {
        assert(b@.len() <= u64::MAX);
    }
    let i = match find_section(b, SHT_NOTE, name_build_id().as_slice()) {
        Some(i) => i,
        None => {
            return None;
        },
    };
    proof {
        lemma_found_sec_in_bounds(b@, SHT_NOTE, spec_name_build_id(), 0, i as int);
    }
    let sec = match read_section(b, i) {
        Some(s) => s,
        None => {
            return None;
        },
    };
    if sec.size <= 16 {
        return None;
    }
    if sec.offset > blen as u64 - 8 || blen < 8 {
        proof {
            assert(spec_u32_at(b@, sec.offset as int) == 0 || spec_u32_at(
                b@,
                sec.offset as int + 4,
            ) == 0 || sec.offset + 16 + spec_u32_at(b@, sec.offset as int + 4) > b@.len());
        }
        return None;
    }
    let nsz = read_u32(b, sec.offset as usize);
    let dsz = read_u32(b, sec.offset as usize + 4);
    if nsz != 4 || dsz < 2 || dsz > 64 {
        return None;
    }
    if blen as u64 - sec.offset < 16 + dsz as u64 {
        return None;
    }
    let id = copy_range(b, sec.offset as usize + 16, sec.offset as usize + 16 + dsz as usize);
    let mut path = debug_root();
    append_bytes(&mut path, build_id_dir().as_slice());
    append_hex(&mut path, id.as_slice());
    append_bytes(&mut path, debug_ext().as_slice());
    Some(path)
}

/// The index of the last `sep` in `s`, or `-1` where there is none.
pub open spec fn spec_rfind(s: Seq<u8>, sep: u8) -> int
    decreases s.len(),
{
    if s.len() == 0 {
        -1
    } else if s.last() == sep {
        s.len() - 1
    } else {
        spec_rfind(s.drop_last(), sep)
    }
}

/// Find the last occurrence of a byte.
pub fn rfind_byte(s: &[u8], sep: u8) -> (r: Option<usize>)
    ensures
        match r {
            Some(i) => spec_rfind(s@, sep) == i as int && i < s@.len(),
            None => spec_rfind(s@, sep) == -1,
        },
{
    let mut i: usize = s.len();
    proof {
        assert(s@.take(s@.len() as int) =~= s@);
    }
    while i > 0
        invariant
            0 <= i <= s@.len(),
            spec_rfind(s@, sep) == spec_rfind(s@.take(i as int), sep),
        decreases i,
    {
        proof {
            assert(s@.take(i as int).last() == s@[i - 1]);
            assert(s@.take(i as int).drop_last() =~= s@.take(i - 1));
        }
        if s[i - 1] == sep {
            return Some(i - 1);
        }
        i = i - 1;
    }
    None
}

/// The `/.debug/` separator of the second debuglink candidate.
pub open spec fn spec_dot_debug_dir() -> Seq<u8> {
    seq![47u8, 46u8, 100u8, 101u8, 98u8, 117u8, 103u8, 47u8]
}

/// The candidate paths next to a directory and link name, in search order.
pub open spec fn spec_dl_core(file_name: Seq<u8>, link: Seq<u8>) -> Seq<Seq<u8>> {
    {
        let slash = spec_rfind(file_name, 47);
        if slash < 0 {
            Seq::empty()
        } else {
            {
                let dir = file_name.take(slash);
                let bn = file_name.skip(slash + 1);
                let p1 = dir + seq![47u8] + link;
                let p2 = dir + spec_dot_debug_dir() + link;
                let p3 = spec_debug_root() + dir + seq![47u8] + link;
                if link != bn {
                    seq![p1, p2, p3]
                } else {
                    seq![p2, p3]
                }
            }
        }
    }
}

/// The candidate paths of a debuglink external debug file, in search
/// order: next to the image, under the image directory's `.debug`, and
/// under the debug root; the first only where the link does not just name
/// the image itself. An image path without a directory, or an image
/// without a usable debuglink section, gives no candidates.
pub open spec fn spec_debuglink_paths(file_name: Seq<u8>, b: Seq<u8>) -> Seq<Seq<u8>> {
    match spec_find_sec_from(b, SHT_PROGBITS, spec_name_debuglink(), 0) {
        None => Seq::empty(),
        Some(i) => {
            let sec = spec_section(b, i);
            if sec.size < 4 || sec.offset > b.len() {
                Seq::empty()
            } else {
                spec_dl_core(file_name, spec_cstr(b, sec.offset as int))
            }
        },
    }
}

fn join_slash(dir: &[u8], link: &[u8]) -> (r: Vec<u8>)
    ensures
        r@ == dir@ + seq![47u8] + link@,
{
    let mut p: Vec<u8> = Vec::new();
    append_bytes(&mut p, dir);
    p.push(47);
    append_bytes(&mut p, link);
    proof {
        assert(p@ =~= dir@ + seq![47u8] + link@);
    }
    p
}

fn join_dot_debug(dir: &[u8], link: &[u8]) -> (r: Vec<u8>)
    ensures
        r@ == dir@ + spec_dot_debug_dir() + link@,
{
    let mut p: Vec<u8> = Vec::new();
    append_bytes(&mut p, dir);
    p.push(47);
    p.push(46);
    p.push(100);
    p.push(101);
    p.push(98);
    p.push(117);
    p.push(103);
    p.push(47);
    append_bytes(&mut p, link);
    proof {
        assert(p@ =~= dir@ + spec_dot_debug_dir() + link@);
    }
    p
}

fn join_debug_root(dir: &[u8], link: &[u8]) -> (r: Vec<u8>)
    ensures
        r@ == spec_debug_root() + dir@ + seq![47u8] + link@,
{
    let mut p = debug_root();
    append_bytes(&mut p, dir);
    p.push(47);
    append_bytes(&mut p, link);
    proof {
        assert(p@ =~= spec_debug_root() + dir@ + seq![47u8] + link@);
    }
    p
}

/// The candidate paths next to a directory and link name, in search order.
fn dl_core(file_name: &[u8], link: &[u8]) -> (r: Vec<Vec<u8>>)
    ensures
        r@.len() == spec_dl_core(file_name@, link@).len(),
        forall|k: int|
            0 <= k < r@.len() ==> (#[trigger] r@[k])@ == spec_dl_core(file_name@, link@)[k],
{
    let slash = match rfind_byte(file_name, 47) {
        Some(p) => p,
        None => {
            return Vec::new();
        },
    };
    let fl = file_name.len();
    let dir = copy_range(file_name, 0, slash);
    let bn = copy_range(file_name, slash + 1, fl);
    proof {
        assert(dir@ =~= file_name@.take(slash as int));
        assert(bn@ =~= file_name@.skip(slash + 1));
    }
    let mut out: Vec<Vec<u8>> = Vec::new();
    if !bytes_eq(link, bn.as_slice()) {
        out.push(join_slash(dir.as_slice(), link));
    }
    out.push(join_dot_debug(dir.as_slice(), link));
    out.push(join_debug_root(dir.as_slice(), link));
    proof {
        let sp = spec_dl_core(file_name@, link@);
        if link@ != bn@ {
            assert(out@[0]@ == sp[0] && out@[1]@ == sp[1] && out@[2]@ == sp[2]);
        } else {
            assert(out@[0]@ == sp[0] && out@[1]@ == sp[1]);
        }
    }
    out
}

/// The candidate paths of the image's debuglink external debug file.
pub fn debuglink_paths(file_name: &[u8], b: &[u8]) -> (r: Vec<Vec<u8>>)
    ensures
        r@.len() == spec_debuglink_paths(file_name@, b@).len(),
        forall|k: int|
            0 <= k < r@.len() ==> (#[trigger] r@[k])@ == spec_debuglink_paths(file_name@, b@)[k],
{
    let blen = b.len();
    proof {
        assert(b@.len() <= u64::MAX);
    }
    let i = match find_section(b, SHT_PROGBITS, name_debuglink().as_slice()) {
        Some(i) => i,
        None => {
            return Vec::new();
        },
    };
    proof {
        lemma_found_sec_in_bounds(b@, SHT_PROGBITS, spec_name_debuglink(), 0, i as int);
    }
    let sec = match read_section(b, i) {
        Some(s) => s,
        None => {
            return Vec::new();
        },
    };
    if sec.size < 4 || sec.offset > blen as u64 {
        return Vec::new();
    }
    let link = cstr_at(b, sec.offset as usize);
    dl_core(file_name, link.as_slice())
}

proof fn lemma_find_sec_none_when_oob(b: Seq<u8>, typ: u32, name: Seq<u8>, i: int)
    requires
        b.len() < EHDR_BYTES,
    ensures
        spec_find_sec_from(b, typ, name, i) is None,
    decreases spec_shnum(b) - i,
{
    if 0 <= i < spec_shnum(b) {
        assert(!spec_sec_matches(b, i, typ, name)) by {
            if spec_sec_in_bounds(b, i) {
                assert(i * spec_shentsize(b) >= 0) by (nonlinear_arith)
                    requires
                        i >= 0,
                        spec_shentsize(b) >= 0,
                ;
            }
        }
        lemma_find_sec_none_when_oob(b, typ, name, i + 1);
    }
}

} // verus!
