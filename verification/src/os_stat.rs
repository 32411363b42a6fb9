//! Decoding of the per-thread and per-process `stat` records and of the
//! task-directory entries that enumerate live threads. Reading the files is
//! the caller's business; the decisions on their bytes are made here.

use vstd::prelude::*;
use crate::maps::spec_find;
use crate::maps::find_byte;
use crate::maps::spec_is_radix_number;
use crate::maps::spec_radix_value;
use crate::maps::try_parse_radix;
use crate::maps::copy_range;

verus! {

pub const RIGHT_PAREN: u8 = 41;

pub const UPPER_R: u8 = 82;

pub const UPPER_D: u8 = 68;

pub const DOT: u8 = 46;

#[derive(PartialEq, Eq, Structural, Clone, Copy, Debug)]
pub enum ThreadState {
    Invalid,
    Running,
    Sleeping,
}

/// The thread state a `stat` record encodes: the byte two past the closing
/// parenthesis of the command name, `R` or `D` counting as running, any
/// other as sleeping; too short a record is invalid.
pub open spec fn spec_thread_state(content: Seq<u8>) -> ThreadState {
    {
        let n = spec_find(content, 0, RIGHT_PAREN);
        if n >= content.len() || n + 2 >= content.len() {
            ThreadState::Invalid
        } else if content[n + 2] == UPPER_R || content[n + 2] == UPPER_D {
            ThreadState::Running
        } else {
            ThreadState::Sleeping
        }
    }
}

/// Decode a thread's state from its `stat` record.
pub fn thread_state_of_stat(content: &[u8]) -> (r: ThreadState)
    ensures
        r == spec_thread_state(content@),
{
    let n = find_byte(content, 0, RIGHT_PAREN);
    if n >= content.len() || content.len() - n <= 2 {
        return ThreadState::Invalid;
    }
    let b = content[n + 2];
    if b == UPPER_R || b == UPPER_D {
        ThreadState::Running
    } else {
        ThreadState::Sleeping
    }
}

/// The position of the `k`-th space at or after `from`, or the length where
/// there is none.
pub open spec fn spec_nth_space(s: Seq<u8>, from: int, k: int) -> int
    decreases k,
{
    if k <= 1 {
        spec_find(s, from, 32)
    } else {
        {
            let p = spec_nth_space(s, from, k - 1);
            if p >= s.len() {
                s.len() as int
            } else {
                spec_find(s, p + 1, 32)
            }
        }
    }
}

/// The thread-count token of a process `stat` record: the bytes between the
/// eighteenth and nineteenth space after the command name's closing
/// parenthesis, with the record's final byte dropped where the nineteenth
/// space is missing.
pub open spec fn spec_thread_count_token(s: Seq<u8>) -> Seq<u8> {
    {
        let n = spec_find(s, 0, RIGHT_PAREN);
        let p18 = spec_nth_space(s, n, 18);
        let p19 = spec_nth_space(s, n, 19);
        if p18 >= s.len() {
            Seq::empty()
        } else if p19 < s.len() {
            s.subrange(p18 + 1, p19)
        } else if p18 + 1 < s.len() {
            s.subrange(p18 + 1, s.len() - 1)
        } else {
            Seq::empty()
        }
    }
}

/// The number a decimal token encodes, when it fits a `u32`; else zero.
pub open spec fn spec_decimal_u32(tok: Seq<u8>) -> u32 {
    if spec_is_radix_number(tok, 10) && spec_radix_value(tok, 10) <= u32::MAX {
        spec_radix_value(tok, 10) as u32
    } else {
        0
    }
}

/// Read the live-thread count out of a process `stat` record.
pub fn thread_count_of_stat(content: &[u8]) -> (r: u32)
    ensures
        r == spec_decimal_u32(spec_thread_count_token(content@)),
{
    let n = find_byte(content, 0, RIGHT_PAREN);
    let mut p: usize = find_byte(content, n, 32);
    let mut k: usize = 1;
    while k < 18
        invariant
            1 <= k <= 18,
            p == spec_nth_space(content@, n as int, k as int),
            p <= content@.len(),
        decreases 18 - k,
    {
        let from = if p >= content.len() {
            content.len()
        } else {
            p + 1
        };
        p = find_byte(content, from, 32);
        k = k + 1;
    }
    let p18 = p;
    let from = if p18 >= content.len() {
        content.len()
    } else {
        p18 + 1
    };
    let p19 = find_byte(content, from, 32);
    let tok: Vec<u8>;
    if p18 >= content.len() {
        tok = Vec::new();
        proof {
            assert(tok@ =~= spec_thread_count_token(content@));
        }
    } else if p19 < content.len() {
        tok = copy_range(content, p18 + 1, p19);
    } else if p18 + 1 < content.len() {
        tok = copy_range(content, p18 + 1, content.len() - 1);
    } else {
        tok = Vec::new();
        proof {
            assert(tok@ =~= spec_thread_count_token(content@));
        }
    }
    match try_parse_radix(tok.as_slice(), 10) {
        Some(v) => {
            if v <= 0xffff_ffff {
                v as u32
            } else {
                0
            }
        },
        None => 0,
    }
}

/// The thread id a task-directory entry names: hidden entries (a leading
/// dot) and anything but a decimal number that fits a `u32` give nothing.
pub open spec fn spec_task_entry_tid(name: Seq<u8>) -> Option<u32> {
    if name.len() > 0 && name[0] == DOT {
        None
    } else if spec_is_radix_number(name, 10) && spec_radix_value(name, 10) <= u32::MAX {
        Some(spec_radix_value(name, 10) as u32)
    } else {
        None
    }
}

pub fn tid_from_task_entry(name: &[u8]) -> (r: Option<u32>)
    ensures
        r == spec_task_entry_tid(name@),
{
    if name.len() > 0 && name[0] == DOT {
        return None;
    }
    match try_parse_radix(name, 10) {
        Some(v) => {
            if v <= 0xffff_ffff {
                Some(v as u32)
            } else {
                None
            }
        },
        None => None,
    }
}

} // verus!
