//! The per-image code-blob index: named address intervals collected while an
//! image's symbols are parsed, sorted once, then queried read-only by binary
//! search at sample time.

use vstd::prelude::*;
use crate::bytes::bytes_eq;
use crate::bytes::starts_with;
use crate::bytes::spec_starts_with;

verus! {

/// Start addresses below every real mapping; used as the "no bound yet"
/// sentinel for an image's minimum address.
pub const NO_MIN_ADDRESS: u64 = 0xffff_ffff_ffff_ffff;

/// The "no bound yet" sentinel for an image's maximum address.
pub const NO_MAX_ADDRESS: u64 = 0;

/// Space: the smallest byte a sanitized symbol name may hold.
pub const MIN_NAME_BYTE: u8 = 32;

/// Question mark: what a control byte in a symbol name is replaced with.
pub const NAME_REPLACEMENT: u8 = 63;

/// A symbol name with its owning-image index and a mark flag.
pub struct NativeFunc {
    pub lib_index: u16,
    pub mark: bool,
    pub name: Vec<u8>,
}

impl NativeFunc {
    pub fn create(name: &[u8], lib_index: u16) -> (r: Self)
        ensures
            r.name@ == name@,
            r.lib_index == lib_index,
            !r.mark,
    {
        let mut n: Vec<u8> = Vec::new();
        crate::bytes::append_bytes(&mut n, name);
        NativeFunc { lib_index, mark: false, name: n }
    }

    pub fn mark(&mut self)
        ensures
            final(self).mark,
            final(self).name@ == old(self).name@,
            final(self).lib_index == old(self).lib_index,
    {
        self.mark = true;
    }

    pub fn is_mark(&self) -> (r: bool)
        ensures
            r == self.mark,
    {
        self.mark
    }

    pub fn name(&self) -> (r: &[u8])
        ensures
            r@ == self.name@,
    {
        self.name.as_slice()
    }
}

/// Every byte of a sanitized symbol name is printable.
pub open spec fn spec_name_clean(name: Seq<u8>) -> bool {
    forall|j: int| 0 <= j < name.len() ==> name[j] >= MIN_NAME_BYTE
}

/// A name with every control byte replaced by `?`.
pub open spec fn spec_sanitized(name: Seq<u8>) -> Seq<u8> {
    name.map_values(
        |b: u8|
            if b < MIN_NAME_BYTE {
                NAME_REPLACEMENT
            } else {
                b
            },
    )
}

/// Replace every byte below space with `?`.
pub fn sanitize_name(name: &[u8]) -> (r: Vec<u8>)
    ensures
        r@ == spec_sanitized(name@),
        spec_name_clean(r@),
{
    let mut out: Vec<u8> = Vec::new();
    let mut i: usize = 0;
    while i < name.len()
        invariant
            0 <= i <= name@.len(),
            out@ == spec_sanitized(name@.take(i as int)),
            spec_name_clean(out@),
        decreases name@.len() - i,
    {
        let b = name[i];
        if b < MIN_NAME_BYTE {
            out.push(NAME_REPLACEMENT);
        } else {
            out.push(b);
        }
        proof {
            assert(out@ =~= spec_sanitized(name@.take(i + 1)));
        }
        i = i + 1;
    }
    proof {
        assert(name@.take(name@.len() as int) =~= name@);
    }
    out
}

/// One named address interval `[start, end)` of an image.
pub struct CodeBlob {
    pub name: NativeFunc,
    pub start: u64,
    pub end: u64,
}

/// Blob order: by start address, ties broken by end address.
pub open spec fn spec_blob_le(a: CodeBlob, b: CodeBlob) -> bool {
    a.start < b.start || (a.start == b.start && a.end <= b.end)
}

/// Whether `addr` lies inside the blob's interval.
pub open spec fn spec_blob_matches(b: CodeBlob, addr: u64) -> bool {
    b.start <= addr < b.end
}

/// Blobs in ascending `(start, end)` order.
pub open spec fn spec_blobs_sorted(s: Seq<CodeBlob>) -> bool {
    forall|i: int, j: int| 0 <= i < j < s.len() ==> spec_blob_le(#[trigger] s[i], #[trigger] s[j])
}

/// Blob intervals that never overlap, in order.
pub open spec fn spec_blobs_disjoint(s: Seq<CodeBlob>) -> bool {
    forall|i: int, j: int| 0 <= i < j < s.len() ==> (#[trigger] s[i]).end <= (#[trigger] s[j]).start
}

/// Every blob's name is sanitized.
pub open spec fn spec_names_clean(s: Seq<CodeBlob>) -> bool {
    forall|i: int| 0 <= i < s.len() ==> spec_name_clean((#[trigger] s[i]).name.name@)
}

impl CodeBlob {
    pub fn new(name: NativeFunc, start: u64, end: u64) -> (r: Self)
        ensures
            r.name == name,
            r.start == start,
            r.end == end,
    {
        CodeBlob { name, start, end }
    }

    pub fn name(&self) -> (r: &[u8])
        ensures
            r@ == self.name.name@,
    {
        self.name.name()
    }

    /// Compare two blobs by `(start, end)`.
    pub fn cmp(&self, other: &Self) -> (r: core::cmp::Ordering)
        ensures
            r == core::cmp::Ordering::Less <==> (spec_blob_le(*self, *other) && !(self.start
                == other.start && self.end == other.end)),
            r == core::cmp::Ordering::Equal <==> (self.start == other.start && self.end
                == other.end),
            r == core::cmp::Ordering::Greater <==> !spec_blob_le(*self, *other),
    {
        if self.start < other.start {
            core::cmp::Ordering::Less
        } else if self.start > other.start {
            core::cmp::Ordering::Greater
        } else if self.end == other.end {
            core::cmp::Ordering::Equal
        } else {
            if self.end < other.end {
                core::cmp::Ordering::Less
            } else {
                core::cmp::Ordering::Greater
            }
        }
    }
}

/// A loaded image: display name, address bounds, optional text base and
/// global-offset-table record, and the blob list.
pub struct CodeCache {
    pub name: NativeFunc,
    pub lib_index: u16,
    pub min_address: u64,
    pub max_address: u64,
    pub text_base: u64,
    pub got_start: u64,
    pub got_end: u64,
    pub got_patchable: bool,
    pub debug_symbols: bool,
    pub blobs: Vec<CodeBlob>,
}

/// The largest blob end address of a nonempty blob list.
pub open spec fn spec_max_end(s: Seq<CodeBlob>) -> u64
    decreases s.len(),
{
    if s.len() <= 1 {
        s[0].end
    } else if s.last().end > spec_max_end(s.drop_last()) {
        s.last().end
    } else {
        spec_max_end(s.drop_last())
    }
}

impl CodeCache {
    /// Everything but the blob list and the bounds kept as it was.
    pub open spec fn spec_same_meta(&self, other: &Self) -> bool {
        &&& self.name == other.name
        &&& self.lib_index == other.lib_index
        &&& self.text_base == other.text_base
        &&& self.got_start == other.got_start
        &&& self.got_end == other.got_end
        &&& self.got_patchable == other.got_patchable
        &&& self.debug_symbols == other.debug_symbols
    }

    pub fn new(name: &[u8], lib_index: u16) -> (r: Self)
        ensures
            r.name.name@ == name@,
            r.lib_index == lib_index,
            r.min_address == NO_MIN_ADDRESS,
            r.max_address == NO_MAX_ADDRESS,
            r.text_base == 0 && r.got_start == 0 && r.got_end == 0,
            !r.got_patchable && !r.debug_symbols,
            r.blobs@.len() == 0,
    {
        Self::new_with_address_range(name, lib_index, NO_MIN_ADDRESS, NO_MAX_ADDRESS)
    }

    pub fn new_with_address_range(name: &[u8], lib_index: u16, min_address: u64, max_address: u64)
        -> (r: Self)
        ensures
            r.name.name@ == name@,
            r.lib_index == lib_index,
            r.min_address == min_address,
            r.max_address == max_address,
            r.text_base == 0 && r.got_start == 0 && r.got_end == 0,
            !r.got_patchable && !r.debug_symbols,
            r.blobs@.len() == 0,
    {
        CodeCache {
            name: NativeFunc::create(name, lib_index),
            lib_index,
            min_address,
            max_address,
            text_base: 0,
            got_start: 0,
            got_end: 0,
            got_patchable: false,
            debug_symbols: false,
            blobs: Vec::new(),
        }
    }

    pub fn name(&self) -> (r: &[u8])
        ensures
            r@ == self.name.name@,
    {
        self.name.name()
    }

    pub fn set_debug_symbols(&mut self, b: bool)
        ensures
            final(self).debug_symbols == b,
            final(self).blobs@ == old(self).blobs@,
            final(self).min_address == old(self).min_address,
            final(self).max_address == old(self).max_address,
            final(self).name == old(self).name,
            final(self).lib_index == old(self).lib_index,
            final(self).text_base == old(self).text_base,
            final(self).got_start == old(self).got_start,
            final(self).got_end == old(self).got_end,
            final(self).got_patchable == old(self).got_patchable,
    {
        self.debug_symbols = b;
    }

    pub fn set_text_base(&mut self, text_base: u64)
        ensures
            final(self).text_base == text_base,
            final(self).blobs@ == old(self).blobs@,
            final(self).min_address == old(self).min_address,
            final(self).max_address == old(self).max_address,
            final(self).name == old(self).name,
            final(self).lib_index == old(self).lib_index,
            final(self).debug_symbols == old(self).debug_symbols,
            final(self).got_start == old(self).got_start,
            final(self).got_end == old(self).got_end,
            final(self).got_patchable == old(self).got_patchable,
    {
        self.text_base = text_base;
    }

    pub fn set_global_offset_table(&mut self, start: u64, end: u64, patchable: bool)
        ensures
            final(self).got_start == start,
            final(self).got_end == end,
            final(self).got_patchable == patchable,
            final(self).blobs@ == old(self).blobs@,
            final(self).min_address == old(self).min_address,
            final(self).max_address == old(self).max_address,
            final(self).name == old(self).name,
            final(self).lib_index == old(self).lib_index,
            final(self).debug_symbols == old(self).debug_symbols,
            final(self).text_base == old(self).text_base,
    {
        self.got_start = start;
        self.got_end = end;
        self.got_patchable = patchable;
    }

    pub fn code_blobs(&self) -> (r: &Vec<CodeBlob>)
        ensures
            r@ == self.blobs@,
    {
        &self.blobs
    }

    /// Widen the bounds to cover `[start, end)`.
    pub fn update_bounds(&mut self, start: u64, end: u64)
        ensures
            final(self).min_address == if start < old(self).min_address {
                start
            } else {
                old(self).min_address
            },
            final(self).max_address == if end > old(self).max_address {
                end
            } else {
                old(self).max_address
            },
            final(self).blobs@ == old(self).blobs@,
            final(self).spec_same_meta(&old(self)),
    {
        if start < self.min_address {
            self.min_address = start;
        }
        if end > self.max_address {
            self.max_address = end;
        }
    }

    /// Append the blob `[start, start + length)` under a sanitized copy of
    /// `name`, widening the bounds when asked to.
    pub fn add(&mut self, start: u64, length: u64, name: &[u8], is_update_bounds: bool)
        requires
            start + length <= u64::MAX,
        ensures
            final(self).blobs@.len() == old(self).blobs@.len() + 1,
            final(self).blobs@.last().start == start,
            final(self).blobs@.last().end == start + length,
            final(self).blobs@.last().name.name@ == spec_sanitized(name@),
            final(self).blobs@.last().name.lib_index == old(self).lib_index,
            final(self).blobs@.drop_last() == old(self).blobs@,
            final(self).min_address == if is_update_bounds && start < old(self).min_address {
                start
            } else {
                old(self).min_address
            },
            final(self).max_address == if is_update_bounds && start + length > old(
                self,
            ).max_address {
                (start + length) as u64
            } else {
                old(self).max_address
            },
            final(self).spec_same_meta(&old(self)),
            spec_names_clean(old(self).blobs@) ==> spec_names_clean(final(self).blobs@),
    {
        let clean = sanitize_name(name);
        let nf = NativeFunc { lib_index: self.lib_index, mark: false, name: clean };
        let end = start + length;
        self.blobs.push(CodeBlob { name: nf, start, end });
        if is_update_bounds {
            if start < self.min_address {
                self.min_address = start;
            }
            if end > self.max_address {
                self.max_address = end;
            }
        }
        proof {
            assert(self.blobs@.drop_last() =~= old(self).blobs@);
            assert forall|i: int|
                0 <= i < self.blobs@.len() && spec_names_clean(
                    old(self).blobs@,
                ) implies spec_name_clean(#[trigger] self.blobs@[i].name.name@) by {
                if i < old(self).blobs@.len() {
                    assert(self.blobs@[i] == old(self).blobs@[i]);
                }
            }
        }
    }

    /// The fast containment test on the image bounds.
    pub fn contains(&self, addr: u64) -> (r: bool)
        ensures
            r == (self.min_address <= addr < self.max_address),
    {
        addr >= self.min_address && addr < self.max_address
    }

    /// The start address of the first blob, in insertion order, whose name
    /// equals `name`.
    pub fn find_symbol(&self, name: &[u8]) -> (r: Option<u64>)
        ensures
            match spec_first_symbol(self.blobs@, name@) {
                Some(i) => r == Some(self.blobs@[i].start),
                None => r is None,
            },
    {
        let mut i: usize = 0;
        proof {
            lemma_first_symbol_bounds(self.blobs@, name@);
        }
        while i < self.blobs.len()
            invariant
                0 <= i <= self.blobs@.len(),
                forall|j: int|
                    0 <= j < i ==> (#[trigger] self.blobs@[j]).name.name@ != name@,
                match spec_first_symbol(self.blobs@, name@) {
                    Some(k) => i <= k,
                    None => true,
                },
            decreases self.blobs@.len() - i,
        {
            if bytes_eq(self.blobs[i].name.name.as_slice(), name) {
                proof {
                    lemma_first_symbol_is_first(self.blobs@, name@, i as int);
                }
                return Some(self.blobs[i].start);
            }
            proof {
                lemma_first_symbol_is_first_none(self.blobs@, name@, i as int);
            }
            i = i + 1;
        }
        None
    }

    /// The start address of the first blob, in insertion order, whose name
    /// begins with `name`.
    pub fn find_symbol_prefix(&self, name: &[u8]) -> (r: Option<u64>)
        ensures
            match spec_first_symbol_prefix(self.blobs@, name@) {
                Some(i) => r == Some(self.blobs@[i].start),
                None => r is None,
            },
    {
        let mut i: usize = 0;
        proof {
            lemma_first_prefix_bounds(self.blobs@, name@);
        }
        while i < self.blobs.len()
            invariant
                0 <= i <= self.blobs@.len(),
                forall|j: int|
                    0 <= j < i ==> !spec_starts_with((#[trigger] self.blobs@[j]).name.name@, name@),
                match spec_first_symbol_prefix(self.blobs@, name@) {
                    Some(k) => i <= k,
                    None => true,
                },
            decreases self.blobs@.len() - i,
        {
            if starts_with(self.blobs[i].name.name.as_slice(), name) {
                proof {
                    lemma_first_prefix_is_first(self.blobs@, name@, i as int);
                }
                return Some(self.blobs[i].start);
            }
            proof {
                lemma_first_prefix_is_first_none(self.blobs@, name@, i as int);
            }
            i = i + 1;
        }
        None
    }

    /// Order the blobs by `(start, end)` and finalize the bounds so that
    /// they cover every blob. An empty index is left untouched.
    pub fn sort(&mut self)
        ensures
            old(self).blobs@.len() == 0 ==> *final(self) == *old(self),
            final(self).blobs@.len() == old(self).blobs@.len(),
            final(self).blobs@.to_multiset() == old(self).blobs@.to_multiset(),
            spec_blobs_sorted(final(self).blobs@),
            final(self).spec_same_meta(&old(self)),
            old(self).blobs@.len() > 0 ==> final(self).min_address == if final(self).blobs@[0].start < old(self).min_address {
                final(self).blobs@[0].start
            } else {
                old(self).min_address
            },
            old(self).blobs@.len() > 0 ==> final(self).max_address == if spec_max_end(
                final(self).blobs@,
            ) > old(self).max_address {
                spec_max_end(final(self).blobs@)
            } else {
                old(self).max_address
            },
            old(self).blobs@.len() == 0 ==> final(self).min_address == old(self).min_address
                && final(self).max_address == old(self).max_address,
            forall|i: int|
                0 <= i < final(self).blobs@.len() ==> final(self).min_address <= (
                #[trigger] final(self).blobs@[i]).start && final(self).blobs@[i].end <= final(self).max_address,
            spec_names_clean(old(self).blobs@) ==> spec_names_clean(final(self).blobs@),
    {
        broadcast use vstd::seq_lib::group_to_multiset_ensures;

        if self.blobs.len() == 0 {
            return ;
        }
        let mut src: Vec<CodeBlob> = Vec::new();
        core::mem::swap(&mut src, &mut self.blobs);
        let ghost orig = src@;
        let mut out: Vec<CodeBlob> = Vec::new();
        while src.len() > 0
            invariant
                spec_blobs_sorted(out@),
                out@.to_multiset().add(src@.to_multiset()) == orig.to_multiset(),
            decreases src@.len(),
        {
            let ghost src0 = src@;
            let b = match src.pop() {
                Some(b) => b,
                // unreachable: the loop guard keeps the source nonempty
                None => {
                    return ;
                },
            };
            proof {
                assert(src@ =~= src0.remove(src0.len() - 1));
            }
            let mut p: usize = 0;
            while p < out.len() && blob_le(&out[p], &b)
                invariant
                    0 <= p <= out@.len(),
                    forall|k: int| 0 <= k < p ==> spec_blob_le(#[trigger] out@[k], b),
                decreases out@.len() - p,
            {
                p = p + 1;
            }
            let ghost out0 = out@;
            out.insert(p, b);
            proof {
                broadcast use vstd::seq_lib::group_to_multiset_ensures;

                assert(out@ == out0.insert(p as int, b));
                assert forall|i: int, j: int|
                    0 <= i < j < out@.len() implies spec_blob_le(
                    #[trigger] out@[i],
                    #[trigger] out@[j],
                ) by {
                    if i < p && j < p {
                        assert(out@[i] == out0[i] && out@[j] == out0[j]);
                    } else if i < p && j == p {
                        assert(out@[i] == out0[i]);
                    } else if i < p && j > p {
                        assert(out@[i] == out0[i] && out@[j] == out0[j - 1]);
                    } else if i == p && j > p {
                        assert(out@[j] == out0[j - 1]);
                        assert(p < out0.len() ==> !spec_blob_le(out0[p as int], b));
                        assert(spec_blob_le(b, out0[j - 1]));
                    } else {
                        assert(out@[i] == out0[i - 1] && out@[j] == out0[j - 1]);
                    }
                }
                assert(src0.contains(b)) by {
                    assert(src0[src0.len() - 1] == b);
                }
                assert(src0.to_multiset().count(b) > 0);
                assert(out0.insert(p as int, b).to_multiset() == out0.to_multiset().insert(b));
                assert(src0.remove(src0.len() - 1).to_multiset() == src0.to_multiset().remove(b));
                assert(out@.to_multiset().add(src@.to_multiset()) =~= out0.to_multiset().add(
                    src0.to_multiset(),
                ));
            }
        }
        proof {
            assert(src@.to_multiset() =~= Seq::<CodeBlob>::empty().to_multiset());
            assert(out@.to_multiset().add(src@.to_multiset()) =~= out@.to_multiset());
            assert(out@.to_multiset().len() == orig.to_multiset().len());
        }
        self.blobs = out;
        proof {
            assert forall|i: int|
                0 <= i < self.blobs@.len() && spec_names_clean(orig) implies spec_name_clean(
                (#[trigger] self.blobs@[i]).name.name@,
            ) by {
                let x = self.blobs@[i];
                assert(self.blobs@.contains(x));
                assert(self.blobs@.to_multiset().count(x) > 0);
                assert(orig.contains(x));
                let j = choose|j: int| 0 <= j < orig.len() && orig[j] == x;
                assert(spec_name_clean(orig[j].name.name@));
            }
        }
        let lo = self.blobs[0].start;
        let mut hi: u64 = self.blobs[0].end;
        let mut k: usize = 1;
        proof {
            assert(self.blobs@.take(1).len() == 1);
            assert(self.blobs@.take(1)[0] == self.blobs@[0]);
        }
        while k < self.blobs.len()
            invariant
                1 <= k <= self.blobs@.len(),
                hi == spec_max_end(self.blobs@.take(k as int)),
            decreases self.blobs@.len() - k,
        {
            proof {
                assert(self.blobs@.take(k + 1).drop_last() =~= self.blobs@.take(k as int));
                assert(self.blobs@.take(k + 1).last() == self.blobs@[k as int]);
            }
            if self.blobs[k].end > hi {
                hi = self.blobs[k].end;
            }
            k = k + 1;
        }
        proof {
            assert(self.blobs@.take(self.blobs@.len() as int) =~= self.blobs@);
            lemma_max_end_covers(self.blobs@);
        }
        if lo < self.min_address {
            self.min_address = lo;
        }
        if hi > self.max_address {
            self.max_address = hi;
        }
    }

    /// Binary search for the blob containing `addr`, with the fallback that
    /// also accepts `addr` equal to the end of the immediately preceding
    /// blob (return addresses point one past the call). The exact clauses
    /// hold of a well-formed index: sorted, non-overlapping blobs whose
    /// starts do not exceed their ends.
    pub fn binary_search(&self, addr: u64) -> (r: Option<&CodeBlob>)
        requires
            spec_blobs_sorted(self.blobs@),
        ensures
            r matches Some(b) ==> exists|i: int|
                0 <= i < self.blobs@.len() && #[trigger] self.blobs@[i] == *b && (spec_blob_matches(
                    *b,
                    addr,
                ) || b.end == addr || b.start == b.end),
            spec_blobs_regular(self.blobs@) ==> (match r {
                Some(b) => spec_search_result(self.blobs@, addr) == Some(*b),
                None => spec_search_result(self.blobs@, addr) is None,
            }),
            spec_blobs_regular(self.blobs@) ==> ((exists|i: int|
                0 <= i < self.blobs@.len() && spec_blob_matches(
                    #[trigger] self.blobs@[i],
                    addr,
                )) <==> (r matches Some(b) && spec_blob_matches(*b, addr))),
            spec_blobs_regular(self.blobs@) ==> (forall|i: int|
                (0 <= i < self.blobs@.len() && spec_blob_matches(
                    #[trigger] self.blobs@[i],
                    addr,
                )) ==> (r matches Some(b) && *b == self.blobs@[i])),
    {
        proof {
            if spec_blobs_regular(self.blobs@) {
                lemma_lower_bound_props(self.blobs@, addr);
            }
        }
        let ghost regular = spec_blobs_regular(self.blobs@);
        let ghost lowg = spec_lower_bound(self.blobs@, addr);
        let mut lo: usize = 0;
        let mut hi: usize = self.blobs.len();
        while lo < hi
            invariant
                0 <= lo <= hi <= self.blobs@.len(),
                regular == spec_blobs_regular(self.blobs@),
                lowg == spec_lower_bound(self.blobs@, addr),
                spec_blobs_sorted(self.blobs@),
                regular ==> lo <= lowg <= hi,
            decreases hi - lo,
        {
            let mid = lo + (hi - lo) / 2;
            if self.blobs[mid].end <= addr {
                proof {
                    if regular {
                        lemma_lower_bound_props(self.blobs@, addr);
                        assert forall|i: int|
                            0 <= i <= mid implies (#[trigger] self.blobs@[i]).end <= addr by {
                            if i < mid {
                                assert(self.blobs@[i].end <= self.blobs@[mid as int].start);
                                assert(self.blobs@[mid as int].start <= self.blobs@[mid as int].end);
                            }
                        }
                        assert(lowg > mid) by {
                            if lowg <= mid {
                                assert(self.blobs@[lowg].end > addr);
                            }
                        }
                    }
                }
                lo = mid + 1;
            } else {
                proof {
                    if regular {
                        lemma_lower_bound_props(self.blobs@, addr);
                        assert(lowg <= mid) by {
                            if lowg > mid {
                                assert(self.blobs@[mid as int].end <= addr);
                            }
                        }
                    }
                }
                hi = mid;
            }
        }
        if lo < self.blobs.len() && self.blobs[lo].start <= addr && addr < self.blobs[lo].end {
            proof {
                if regular {
                    lemma_lower_bound_props(self.blobs@, addr);
                    assert(lo == lowg);
                    assert forall|i: int|
                        0 <= i < self.blobs@.len() && spec_blob_matches(
                            #[trigger] self.blobs@[i],
                            addr,
                        ) implies i == lowg by {
                        lemma_blob_match_unique(self.blobs@, addr, i, lowg);
                    }
                }
            }
            return Some(&self.blobs[lo]);
        }
        if lo > 0 && (self.blobs[lo - 1].start == self.blobs[lo - 1].end || self.blobs[lo - 1].end
            == addr) {
            proof {
                if regular {
                    lemma_lower_bound_props(self.blobs@, addr);
                    assert(lo == lowg);
                    assert forall|i: int|
                        0 <= i < self.blobs@.len() implies !spec_blob_matches(
                        #[trigger] self.blobs@[i],
                        addr,
                    ) by {
                        if i < lowg {
                            assert(self.blobs@[i].end <= addr);
                        } else {
                            assert(self.blobs@[i].end > addr);
                            if lowg < self.blobs@.len() {
                                assert(spec_blob_le(self.blobs@[lowg], self.blobs@[i]) || i
                                    == lowg);
                            }
                        }
                    }
                }
            }
            return Some(&self.blobs[lo - 1]);
        }
        proof {
            if regular {
                lemma_lower_bound_props(self.blobs@, addr);
                assert(lo == lowg);
                assert forall|i: int|
                    0 <= i < self.blobs@.len() implies !spec_blob_matches(
                    #[trigger] self.blobs@[i],
                    addr,
                ) by {
                    if i < lowg {
                        assert(self.blobs@[i].end <= addr);
                    } else if lowg < self.blobs@.len() && i > lowg {
                        assert(spec_blob_le(self.blobs@[lowg], self.blobs@[i]));
                    }
                }
            }
        }
        None
    }
}

/// The least index whose blob carries exactly this name, if any.
pub open spec fn spec_first_symbol(s: Seq<CodeBlob>, name: Seq<u8>) -> Option<int>
    decreases s.len(),
{
    if s.len() == 0 {
        None
    } else if s[0].name.name@ == name {
        Some(0)
    } else {
        match spec_first_symbol(s.drop_first(), name) {
            Some(i) => Some(i + 1),
            None => None,
        }
    }
}

/// The least index whose blob's name begins with this prefix, if any.
pub open spec fn spec_first_symbol_prefix(s: Seq<CodeBlob>, name: Seq<u8>) -> Option<int>
    decreases s.len(),
{
    if s.len() == 0 {
        None
    } else if spec_starts_with(s[0].name.name@, name) {
        Some(0)
    } else {
        match spec_first_symbol_prefix(s.drop_first(), name) {
            Some(i) => Some(i + 1),
            None => None,
        }
    }
}

/// A found first-name index lies inside the list and its blob matches.
proof fn lemma_first_symbol_bounds(s: Seq<CodeBlob>, name: Seq<u8>)
    ensures
        match spec_first_symbol(s, name) {
            Some(k) => 0 <= k < s.len() && s[k].name.name@ == name,
            None => true,
        },
    decreases s.len(),
{
    if s.len() > 0 && s[0].name.name@ != name {
        lemma_first_symbol_bounds(s.drop_first(), name);
        match spec_first_symbol(s.drop_first(), name) {
            Some(k) => {
                assert(s.drop_first()[k] == s[k + 1]);
            },
            None => {},
        }
    }
}

/// A matching blob at `i` with none before it is the first.
proof fn lemma_first_symbol_is_first(s: Seq<CodeBlob>, name: Seq<u8>, i: int)
    requires
        0 <= i < s.len(),
        s[i].name.name@ == name,
        forall|j: int| 0 <= j < i ==> (#[trigger] s[j]).name.name@ != name,
    ensures
        spec_first_symbol(s, name) == Some(i),
    decreases i,
{
    if i > 0 {
        assert forall|j: int|
            0 <= j < i - 1 implies (#[trigger] s.drop_first()[j]).name.name@ != name by {
            assert(s.drop_first()[j] == s[j + 1]);
        }
        assert(s.drop_first()[i - 1] == s[i]);
        lemma_first_symbol_is_first(s.drop_first(), name, i - 1);
    }
}

/// While nothing up to `i` matches, the first match lies past `i`.
proof fn lemma_first_symbol_is_first_none(s: Seq<CodeBlob>, name: Seq<u8>, i: int)
    requires
        0 <= i < s.len(),
        s[i].name.name@ != name,
        forall|j: int| 0 <= j < i ==> (#[trigger] s[j]).name.name@ != name,
    ensures
        match spec_first_symbol(s, name) {
            Some(k) => k > i,
            None => true,
        },
    decreases i,
{
    if i > 0 {
        assert forall|j: int|
            0 <= j < i - 1 implies (#[trigger] s.drop_first()[j]).name.name@ != name by {
            assert(s.drop_first()[j] == s[j + 1]);
        }
        assert(s.drop_first()[i - 1] == s[i]);
        lemma_first_symbol_is_first_none(s.drop_first(), name, i - 1);
    }
    lemma_first_symbol_bounds(s.drop_first(), name);
}

/// A found first-prefix index lies inside the list and its blob matches.
proof fn lemma_first_prefix_bounds(s: Seq<CodeBlob>, name: Seq<u8>)
    ensures
        match spec_first_symbol_prefix(s, name) {
            Some(k) => 0 <= k < s.len() && spec_starts_with(s[k].name.name@, name),
            None => true,
        },
    decreases s.len(),
{
    if s.len() > 0 && !spec_starts_with(s[0].name.name@, name) {
        lemma_first_prefix_bounds(s.drop_first(), name);
        match spec_first_symbol_prefix(s.drop_first(), name) {
            Some(k) => {
                assert(s.drop_first()[k] == s[k + 1]);
            },
            None => {},
        }
    }
}

/// A prefix-matching blob at `i` with none before it is the first.
proof fn lemma_first_prefix_is_first(s: Seq<CodeBlob>, name: Seq<u8>, i: int)
    requires
        0 <= i < s.len(),
        spec_starts_with(s[i].name.name@, name),
        forall|j: int| 0 <= j < i ==> !spec_starts_with((#[trigger] s[j]).name.name@, name),
    ensures
        spec_first_symbol_prefix(s, name) == Some(i),
    decreases i,
{
    if i > 0 {
        assert forall|j: int|
            0 <= j < i - 1 implies !spec_starts_with(
            (#[trigger] s.drop_first()[j]).name.name@,
            name,
        ) by {
            assert(s.drop_first()[j] == s[j + 1]);
        }
        assert(s.drop_first()[i - 1] == s[i]);
        lemma_first_prefix_is_first(s.drop_first(), name, i - 1);
    }
}

/// While nothing up to `i` carries the prefix, the first match lies past
/// `i`.
proof fn lemma_first_prefix_is_first_none(s: Seq<CodeBlob>, name: Seq<u8>, i: int)
    requires
        0 <= i < s.len(),
        !spec_starts_with(s[i].name.name@, name),
        forall|j: int| 0 <= j < i ==> !spec_starts_with((#[trigger] s[j]).name.name@, name),
    ensures
        match spec_first_symbol_prefix(s, name) {
            Some(k) => k > i,
            None => true,
        },
    decreases i,
{
    if i > 0 {
        assert forall|j: int|
            0 <= j < i - 1 implies !spec_starts_with(
            (#[trigger] s.drop_first()[j]).name.name@,
            name,
        ) by {
            assert(s.drop_first()[j] == s[j + 1]);
        }
        assert(s.drop_first()[i - 1] == s[i]);
        lemma_first_prefix_is_first_none(s.drop_first(), name, i - 1);
    }
    lemma_first_prefix_bounds(s.drop_first(), name);
}

/// Compare two blobs in `(start, end)` order.
pub fn blob_le(a: &CodeBlob, b: &CodeBlob) -> (r: bool)
    ensures
        r == spec_blob_le(*a, *b),
{
    a.start < b.start || (a.start == b.start && a.end <= b.end)
}

/// Blobs whose starts never exceed their ends.
pub open spec fn spec_blobs_wf(s: Seq<CodeBlob>) -> bool {
    forall|i: int| 0 <= i < s.len() ==> (#[trigger] s[i]).start <= s[i].end
}

/// A fully well-formed index: sorted, non-overlapping, well-formed blobs.
pub open spec fn spec_blobs_regular(s: Seq<CodeBlob>) -> bool {
    spec_blobs_sorted(s) && spec_blobs_disjoint(s) && spec_blobs_wf(s)
}

/// The least index whose blob ends past `addr`, or the length where none
/// does.
pub open spec fn spec_lower_bound(s: Seq<CodeBlob>, addr: u64) -> int
    decreases s.len(),
{
    if s.len() == 0 {
        0
    } else if s[0].end <= addr {
        1 + spec_lower_bound(s.drop_first(), addr)
    } else {
        0
    }
}

/// What `binary_search` returns on a well-formed index, as an index into
/// the blob list: the blob at the lower bound when it contains `addr`, else
/// the immediately preceding blob when it is empty or ends exactly at
/// `addr`, else nothing.
pub open spec fn spec_search_index(s: Seq<CodeBlob>, addr: u64) -> Option<int> {
    {
        let low = spec_lower_bound(s, addr);
        if low < s.len() && s[low].start <= addr {
            Some(low)
        } else if low > 0 && (s[low - 1].start == s[low - 1].end || s[low - 1].end == addr) {
            Some(low - 1)
        } else {
            None
        }
    }
}

/// The blob `binary_search` returns on a well-formed index.
pub open spec fn spec_search_result(s: Seq<CodeBlob>, addr: u64) -> Option<CodeBlob> {
    match spec_search_index(s, addr) {
        Some(i) => Some(s[i]),
        None => None,
    }
}

/// The lower bound splits the list: every blob before it ends at or below
/// `addr`, every blob from it on ends past it.
proof fn lemma_lower_bound_props(s: Seq<CodeBlob>, addr: u64)
    ensures
        0 <= spec_lower_bound(s, addr) <= s.len(),
        forall|i: int| 0 <= i < spec_lower_bound(s, addr) ==> (#[trigger] s[i]).end <= addr,
        forall|i: int|
            spec_lower_bound(s, addr) <= i < s.len() && spec_blobs_regular(s) ==> (
            #[trigger] s[i]).end > addr,
    decreases s.len(),
{
    if s.len() > 0 {
        lemma_lower_bound_props(s.drop_first(), addr);
        let low = spec_lower_bound(s, addr);
        if s[0].end <= addr {
            assert forall|i: int| 0 <= i < low implies (#[trigger] s[i]).end <= addr by {
                if i > 0 {
                    assert(s.drop_first()[i - 1] == s[i]);
                }
            }
            assert forall|i: int|
                low <= i < s.len() && spec_blobs_regular(s) implies (#[trigger] s[i]).end
                > addr by {
                assert(spec_blobs_regular(s.drop_first())) by {
                    assert forall|a: int, b: int|
                        0 <= a < b < s.drop_first().len() implies spec_blob_le(
                        #[trigger] s.drop_first()[a],
                        #[trigger] s.drop_first()[b],
                    ) && s.drop_first()[a].end <= s.drop_first()[b].start by {
                        assert(s.drop_first()[a] == s[a + 1]);
                        assert(s.drop_first()[b] == s[b + 1]);
                    }
                    assert forall|a: int|
                        0 <= a < s.drop_first().len() implies (#[trigger] s.drop_first()[a]).start
                        <= s.drop_first()[a].end by {
                        assert(s.drop_first()[a] == s[a + 1]);
                    }
                }
                assert(s.drop_first()[i - 1] == s[i]);
            }
        } else {
            assert forall|i: int|
                low <= i < s.len() && spec_blobs_regular(s) implies (#[trigger] s[i]).end
                > addr by {
                if i > 0 {
                    assert(s[0].end <= s[i].start);
                    assert(s[i].start <= s[i].end);
                } else {
                    assert(s[0].end > addr);
                }
            }
        }
    }
}

/// The largest end covers every blob's end.
proof fn lemma_max_end_covers(s: Seq<CodeBlob>)
    requires
        s.len() > 0,
    ensures
        forall|i: int| 0 <= i < s.len() ==> (#[trigger] s[i]).end <= spec_max_end(s),
    decreases s.len(),
{
    if s.len() > 1 {
        lemma_max_end_covers(s.drop_last());
        assert forall|i: int| 0 <= i < s.len() implies (#[trigger] s[i]).end <= spec_max_end(s) by {
            if i < s.len() - 1 {
                assert(s.drop_last()[i] == s[i]);
            }
        }
    }
}

/// Within a non-overlapping index, at most one blob contains any address.
pub proof fn lemma_blob_match_unique(s: Seq<CodeBlob>, addr: u64, i: int, j: int)
    requires
        spec_blobs_disjoint(s),
        0 <= i < s.len(),
        0 <= j < s.len(),
        spec_blob_matches(s[i], addr),
        spec_blob_matches(s[j], addr),
    ensures
        i == j,
{
    if i < j {
        assert(s[i].end <= s[j].start);
    }
    if j < i {
        assert(s[j].end <= s[i].start);
    }
}

} // verus!
