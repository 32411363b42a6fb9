//! Byte-level parsing of `/proc/self/maps` lines: splitting one line into
//! its address, permission, offset, device, inode and file fields, and
//! reading unsigned numbers in a given radix.

use vstd::prelude::*;

verus! {

pub const DASH: u8 = 45;
pub const SPACE: u8 = 32;
pub const COLON: u8 = 58;
pub const LOWER_R: u8 = 114;
pub const LOWER_X: u8 = 120;

/// The numeric value of one ASCII digit, or `-1` where the byte is no digit.
/// Letters count from ten, in either case.
pub open spec fn spec_digit_val(b: u8) -> int {
    if 48 <= b <= 57 {
        b - 48
    } else if 97 <= b <= 122 {
        b - 87
    } else if 65 <= b <= 90 {
        b - 55
    } else {
        -1
    }
}

fn digit_val(b: u8) -> (r: i32)
    ensures
        r == spec_digit_val(b),
{
    if b >= 48 && b <= 57 {
        (b - 48) as i32
    } else if b >= 97 && b <= 122 {
        (b - 87) as i32
    } else if b >= 65 && b <= 90 {
        (b - 55) as i32
    } else {
        -1
    }
}

/// The value of a digit string, read most significant digit first.
pub open spec fn spec_radix_value(s: Seq<u8>, radix: u32) -> nat
    decreases s.len(),
{
    if s.len() == 0 {
        0
    } else {
        (spec_radix_value(s.drop_last(), radix) * radix + (if spec_digit_val(s.last()) >= 0 {
            spec_digit_val(s.last())
        } else {
            0
        })) as nat
    }
}

/// Whether a byte string is a well-formed number of the radix whose value
/// fits a `u64`: nonempty, every byte a digit below the radix, value in range.
pub open spec fn spec_is_radix_number(s: Seq<u8>, radix: u32) -> bool {
    &&& s.len() > 0
    &&& forall|i: int| 0 <= i < s.len() ==> 0 <= spec_digit_val(#[trigger] s[i]) < radix
    &&& spec_radix_value(s, radix) <= u64::MAX
}

/// A longer valid digit string never has a smaller value than its prefix.
proof fn lemma_radix_prefix_le(s: Seq<u8>, i: int, radix: u32)
    requires
        1 <= radix,
        0 <= i <= s.len(),
        forall|j: int| 0 <= j < s.len() ==> spec_digit_val(s[j]) >= 0,
    ensures
        spec_radix_value(s.take(i), radix) <= spec_radix_value(s, radix),
    decreases s.len(),
{
    if i < s.len() {
        let d = s.drop_last();
        assert(d.take(i) =~= s.take(i));
        lemma_radix_prefix_le(d, i, radix);
        assert(spec_radix_value(d, radix) * radix >= spec_radix_value(d, radix) * 1) by (
        nonlinear_arith)
            requires
                radix >= 1,
                spec_radix_value(d, radix) >= 0,
        ;
    } else {
        assert(s.take(i) =~= s);
    }
}

/// Read a number in the given radix. Where any byte is no digit of the
/// radix, the string is empty, or the value overflows a `u64`, the result
/// is `None`.
pub fn try_parse_radix(s: &[u8], radix: u32) -> (r: Option<u64>)
    requires
        2 <= radix <= 36,
    ensures
        r is Some <==> spec_is_radix_number(s@, radix),
        r matches Some(v) ==> v == spec_radix_value(s@, radix),
{
    if s.len() == 0 {
        return None;
    }
    let mut acc: u64 = 0;
    let mut i: usize = 0;
    while i < s.len()
        invariant
            0 <= i <= s@.len(),
            2 <= radix <= 36,
            forall|j: int| 0 <= j < i ==> 0 <= spec_digit_val(#[trigger] s@[j]) < radix,
            acc == spec_radix_value(s@.take(i as int), radix),
        decreases s@.len() - i,
    {
        let d = digit_val(s[i]);
        if d < 0 || d >= radix as i32 {
            return None;
        }
        if acc > (u64::MAX - (d as u64)) / (radix as u64) {
            proof {
                let pre = s@.take(i + 1);
                assert(pre.drop_last() =~= s@.take(i as int));
                assert(pre.last() == s@[i as int]);
                assert(spec_radix_value(pre, radix) > u64::MAX) by (nonlinear_arith)
                    requires
                        spec_radix_value(pre, radix) == spec_radix_value(pre.drop_last(), radix)
                            * radix + spec_digit_val(pre.last()),
                        spec_digit_val(pre.last()) >= 0,
                        spec_radix_value(pre.drop_last(), radix) > (u64::MAX - spec_digit_val(
                            pre.last(),
                        )) / (radix as int),
                        2 <= radix,
                ;
                if spec_is_radix_number(s@, radix) {
                    lemma_radix_prefix_le(s@, i + 1, radix);
                }
            }
            return None;
        }
        proof {
            let pre = s@.take(i + 1);
            assert(pre.drop_last() =~= s@.take(i as int));
            assert(pre.last() == s@[i as int]);
            assert(acc * radix + spec_digit_val(s@[i as int]) <= u64::MAX) by (nonlinear_arith)
                requires
                    0 <= spec_digit_val(s@[i as int]),
                    acc <= (u64::MAX - spec_digit_val(s@[i as int])) / (radix as int),
                    2 <= radix,
                    acc >= 0,
            ;
        }
        acc = acc * (radix as u64) + (d as u64);
        i = i + 1;
    }
    proof {
        assert(s@.take(s@.len() as int) =~= s@);
    }
    Some(acc)
}

/// Read a number in the given radix, `0` standing for any malformed input.
pub fn parse_radix(s: &[u8], radix: u32) -> (r: u64)
    requires
        2 <= radix <= 36,
    ensures
        r == if spec_is_radix_number(s@, radix) {
            spec_radix_value(s@, radix)
        } else {
            0
        },
{
    match try_parse_radix(s, radix) {
        Some(v) => v,
        None => 0,
    }
}

pub fn is_radix_number(s: &[u8], radix: u32) -> (r: bool)
    requires
        2 <= radix <= 36,
    ensures
        r == spec_is_radix_number(s@, radix),
{
    try_parse_radix(s, radix).is_some()
}

/// The first position at or after `from` holding `sep`, or the length where
/// none does.
pub open spec fn spec_find(s: Seq<u8>, from: int, sep: u8) -> int
    decreases s.len() - from,
{
    if from < 0 {
        spec_find(s, 0, sep)
    } else if from >= s.len() {
        s.len() as int
    } else if s[from] == sep {
        from
    } else {
        spec_find(s, from + 1, sep)
    }
}

pub fn find_byte(s: &[u8], from: usize, sep: u8) -> (r: usize)
    requires
        from <= s@.len(),
    ensures
        r == spec_find(s@, from as int, sep),
        from <= r <= s@.len(),
        r < s@.len() ==> s@[r as int] == sep,
{
    let mut i = from;
    while i < s.len()
        invariant
            from <= i <= s@.len(),
            spec_find(s@, from as int, sep) == spec_find(s@, i as int, sep),
        decreases s@.len() - i,
    {
        if s[i] == sep {
            return i;
        }
        i = i + 1;
    }
    i
}

/// The first position at or after `from` holding anything but `sep`, or the
/// length where none does.
pub open spec fn spec_find_not(s: Seq<u8>, from: int, sep: u8) -> int
    decreases s.len() - from,
{
    if from < 0 {
        spec_find_not(s, 0, sep)
    } else if from >= s.len() {
        s.len() as int
    } else if s[from] != sep {
        from
    } else {
        spec_find_not(s, from + 1, sep)
    }
}

pub fn find_not_byte(s: &[u8], from: usize, sep: u8) -> (r: usize)
    requires
        from <= s@.len(),
    ensures
        r == spec_find_not(s@, from as int, sep),
        from <= r <= s@.len(),
{
    let mut i = from;
    while i < s.len()
        invariant
            from <= i <= s@.len(),
            spec_find_not(s@, from as int, sep) == spec_find_not(s@, i as int, sep),
        decreases s@.len() - i,
    {
        if s[i] != sep {
            return i;
        }
        i = i + 1;
    }
    i
}

/// Copy of `s[i..j]` as an owned vector.
pub fn copy_range(s: &[u8], i: usize, j: usize) -> (r: Vec<u8>)
    requires
        i <= j <= s@.len(),
    ensures
        r@ == s@.subrange(i as int, j as int),
{
    let mut out: Vec<u8> = Vec::new();
    let mut k = i;
    while k < j
        invariant
            i <= k <= j <= s@.len(),
            out@ == s@.subrange(i as int, k as int),
        decreases j - k,
    {
        out.push(s[k]);
        proof {
            assert(out@ =~= s@.subrange(i as int, k + 1));
        }
        k = k + 1;
    }
    out
}

/// Where the next token starts, given where the separator was found: one
/// past the separator, or the end where none was found.
pub open spec fn spec_after(s: Seq<u8>, pos: int) -> int {
    if pos >= s.len() {
        s.len() as int
    } else {
        pos + 1
    }
}

/// One parsed line of `/proc/self/maps`. Fields hold the raw bytes of each
/// token; the accessors decode them.
pub struct MemoryMapDesc {
    pub addr: Vec<u8>,
    pub end: Vec<u8>,
    pub perm: Vec<u8>,
    pub offs: Vec<u8>,
    pub dev: Vec<u8>,
    pub inode: Vec<u8>,
    pub file: Vec<u8>,
}

impl MemoryMapDesc {
    /// The address token ends at the first `-`; the next five tokens end
    /// at the following spaces; the file name starts at the first byte
    /// after the inode token that is no space.
    pub open spec fn wf_parse(&self, line: Seq<u8>) -> bool {
        {
            let b0 = spec_find(line, 0, DASH);
            let s1 = spec_after(line, b0);
            let b1 = spec_find(line, s1, SPACE);
            let s2 = spec_after(line, b1);
            let b2 = spec_find(line, s2, SPACE);
            let s3 = spec_after(line, b2);
            let b3 = spec_find(line, s3, SPACE);
            let s4 = spec_after(line, b3);
            let b4 = spec_find(line, s4, SPACE);
            let s5 = spec_after(line, b4);
            let b5 = spec_find(line, s5, SPACE);
            let s6 = spec_after(line, b5);
            let f = spec_find_not(line, s6, SPACE);
            &&& self.addr@ == line.subrange(0, b0)
            &&& self.end@ == line.subrange(s1, b1)
            &&& self.perm@ == line.subrange(s2, b2)
            &&& self.offs@ == line.subrange(s3, b3)
            &&& self.dev@ == line.subrange(s4, b4)
            &&& self.inode@ == line.subrange(s5, b5)
            &&& self.file@ == line.subrange(f, line.len() as int)
        }
    }

    /// Split one maps line into its seven tokens.
    pub fn parse(line: &[u8]) -> (r: Self)
        ensures
            r.wf_parse(line@),
    {
        let b0 = find_byte(line, 0, DASH);
        let s1 = if b0 >= line.len() {
            line.len()
        } else {
            b0 + 1
        };
        let b1 = find_byte(line, s1, SPACE);
        let s2 = if b1 >= line.len() {
            line.len()
        } else {
            b1 + 1
        };
        let b2 = find_byte(line, s2, SPACE);
        let s3 = if b2 >= line.len() {
            line.len()
        } else {
            b2 + 1
        };
        let b3 = find_byte(line, s3, SPACE);
        let s4 = if b3 >= line.len() {
            line.len()
        } else {
            b3 + 1
        };
        let b4 = find_byte(line, s4, SPACE);
        let s5 = if b4 >= line.len() {
            line.len()
        } else {
            b4 + 1
        };
        let b5 = find_byte(line, s5, SPACE);
        let s6 = if b5 >= line.len() {
            line.len()
        } else {
            b5 + 1
        };
        let f = find_not_byte(line, s6, SPACE);
        MemoryMapDesc {
            addr: copy_range(line, 0, b0),
            end: copy_range(line, s1, b1),
            perm: copy_range(line, s2, b2),
            offs: copy_range(line, s3, b3),
            dev: copy_range(line, s4, b4),
            inode: copy_range(line, s5, b5),
            file: copy_range(line, f, line.len()),
        }
    }

    /// A region is readable when its permission token starts with `r`.
    pub fn is_readable(&self) -> (r: bool)
        ensures
            r == (self.perm@.len() > 0 && self.perm@[0] == 114),
    {
        self.perm.len() > 0 && self.perm[0] == LOWER_R
    }

    /// A region is executable when the third permission byte is `x`.
    pub fn is_executable(&self) -> (r: bool)
        ensures
            r == (self.perm@.len() > 2 && self.perm@[2] == 120),
    {
        self.perm.len() > 2 && self.perm[2] == LOWER_X
    }

    pub fn is_empty_file(&self) -> (r: bool)
        ensures
            r == (self.file@.len() == 0),
    {
        self.file.len() == 0
    }

    pub fn file(&self) -> (r: &[u8])
        ensures
            r@ == self.file@,
    {
        self.file.as_slice()
    }

    /// The region's start address, read as hexadecimal.
    pub fn addr(&self) -> (r: u64)
        ensures
            r == if spec_is_radix_number(self.addr@, 16) {
                spec_radix_value(self.addr@, 16)
            } else {
                0
            },
    {
        parse_radix(self.addr.as_slice(), 16)
    }

    /// The region's end address, read as hexadecimal.
    pub fn end(&self) -> (r: u64)
        ensures
            r == if spec_is_radix_number(self.end@, 16) {
                spec_radix_value(self.end@, 16)
            } else {
                0
            },
    {
        parse_radix(self.end.as_slice(), 16)
    }

    /// The region's file offset, read as hexadecimal.
    pub fn offs(&self) -> (r: u64)
        ensures
            r == if spec_is_radix_number(self.offs@, 16) {
                spec_radix_value(self.offs@, 16)
            } else {
                0
            },
    {
        parse_radix(self.offs.as_slice(), 16)
    }

    /// The region's inode number, read as decimal.
    pub fn inode(&self) -> (r: u64)
        ensures
            r == if spec_is_radix_number(self.inode@, 10) {
                spec_radix_value(self.inode@, 10)
            } else {
                0
            },
    {
        parse_radix(self.inode.as_slice(), 10)
    }

    /// The device number folded into one word: major shifted left by eight,
    /// or-ed with minor.
    pub fn dev(&self) -> (r: u64)
        ensures
            r == (Self::spec_dev_part(self.dev@, true) << 8) | Self::spec_dev_part(
                self.dev@,
                false,
            ),
    {
        let c = find_byte(self.dev.as_slice(), 0, COLON);
        let maj_end = c;
        let min_start = if c >= self.dev.len() {
            self.dev.len()
        } else {
            c + 1
        };
        let maj = parse_radix(copy_range(self.dev.as_slice(), 0, maj_end).as_slice(), 16);
        let min = parse_radix(
            copy_range(self.dev.as_slice(), min_start, self.dev.len()).as_slice(),
            16,
        );
        (maj << 8u64) | min
    }

    /// The major (`true`) or minor (`false`) half of the device token,
    /// split at the first colon and read as hexadecimal.
    pub open spec fn spec_dev_part(dev: Seq<u8>, major: bool) -> u64 {
        {
            let c = spec_find(dev, 0, 58);
            let tok = if major {
                dev.subrange(0, c)
            } else {
                dev.subrange(spec_after(dev, c), dev.len() as int)
            };
            if spec_is_radix_number(tok, 16) {
                spec_radix_value(tok, 16) as u64
            } else {
                0
            }
        }
    }
}

/// The boundary chain of one maps line, as `wf_parse` fixes it.
pub open spec fn spec_tok_bounds(line: Seq<u8>) -> (int, int, int, int, int, int, int, int, int,
    int,
    int,
    int,
    int,
) {
    {
        let b0 = spec_find(line, 0, DASH);
        let s1 = spec_after(line, b0);
        let b1 = spec_find(line, s1, SPACE);
        let s2 = spec_after(line, b1);
        let b2 = spec_find(line, s2, SPACE);
        let s3 = spec_after(line, b2);
        let b3 = spec_find(line, s3, SPACE);
        let s4 = spec_after(line, b3);
        let b4 = spec_find(line, s4, SPACE);
        let s5 = spec_after(line, b4);
        let b5 = spec_find(line, s5, SPACE);
        let s6 = spec_after(line, b5);
        let f = spec_find_not(line, s6, SPACE);
        (b0, s1, b1, s2, b2, s3, b3, s4, b4, s5, b5, s6, f)
    }
}

/// The raw address token of a maps line.
pub open spec fn spec_addr_tok(line: Seq<u8>) -> Seq<u8> {
    line.subrange(0, spec_tok_bounds(line).0)
}

/// The raw end-address token.
pub open spec fn spec_end_tok(line: Seq<u8>) -> Seq<u8> {
    line.subrange(spec_tok_bounds(line).1, spec_tok_bounds(line).2)
}

/// The raw permission token.
pub open spec fn spec_perm_tok(line: Seq<u8>) -> Seq<u8> {
    line.subrange(spec_tok_bounds(line).3, spec_tok_bounds(line).4)
}

/// The raw offset token.
pub open spec fn spec_offs_tok(line: Seq<u8>) -> Seq<u8> {
    line.subrange(spec_tok_bounds(line).5, spec_tok_bounds(line).6)
}

/// The raw device token.
pub open spec fn spec_dev_tok(line: Seq<u8>) -> Seq<u8> {
    line.subrange(spec_tok_bounds(line).7, spec_tok_bounds(line).8)
}

/// The raw inode token.
pub open spec fn spec_inode_tok(line: Seq<u8>) -> Seq<u8> {
    line.subrange(spec_tok_bounds(line).9, spec_tok_bounds(line).10)
}

/// The raw file token.
pub open spec fn spec_file_tok(line: Seq<u8>) -> Seq<u8> {
    line.subrange(spec_tok_bounds(line).12, line.len() as int)
}

/// The value of a raw token read as a number, malformed giving zero.
pub open spec fn spec_tok_value(tok: Seq<u8>, radix: u32) -> u64 {
    if spec_is_radix_number(tok, radix) {
        spec_radix_value(tok, radix) as u64
    } else {
        0
    }
}

/// A line's region is readable.
pub open spec fn spec_line_readable(line: Seq<u8>) -> bool {
    spec_perm_tok(line).len() > 0 && spec_perm_tok(line)[0] == LOWER_R
}

/// A line's region is executable.
pub open spec fn spec_line_exec(line: Seq<u8>) -> bool {
    spec_perm_tok(line).len() > 2 && spec_perm_tok(line)[2] == LOWER_X
}

/// A line names no file.
pub open spec fn spec_line_empty_file(line: Seq<u8>) -> bool {
    spec_file_tok(line).len() == 0
}

/// A line's start address.
pub open spec fn spec_line_addr(line: Seq<u8>) -> u64 {
    spec_tok_value(spec_addr_tok(line), 16)
}

/// A line's end address.
pub open spec fn spec_line_end(line: Seq<u8>) -> u64 {
    spec_tok_value(spec_end_tok(line), 16)
}

/// A line's file offset.
pub open spec fn spec_line_offs(line: Seq<u8>) -> u64 {
    spec_tok_value(spec_offs_tok(line), 16)
}

/// A line's inode number.
pub open spec fn spec_line_inode(line: Seq<u8>) -> u64 {
    spec_tok_value(spec_inode_tok(line), 10)
}

/// A line's folded device number.
pub open spec fn spec_line_dev(line: Seq<u8>) -> u64 {
    (MemoryMapDesc::spec_dev_part(spec_dev_tok(line), true) << 8u64)
        | MemoryMapDesc::spec_dev_part(spec_dev_tok(line), false)
}

/// The identity a parsed image is deduplicated under: the device number
/// shifted into the high word, or-ed with the inode.
pub open spec fn spec_line_key(line: Seq<u8>) -> u64 {
    (spec_line_dev(line) << 32u64) | spec_line_inode(line)
}

} // verus!
