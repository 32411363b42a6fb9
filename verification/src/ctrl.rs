//! The control channel's command language: ASCII lines whose first word is
//! `start`, `stop` or `quit`. Only the prefix decides; anything else is
//! ignored.

use vstd::prelude::*;
use crate::bytes::spec_starts_with;
use crate::bytes::starts_with;

verus! {

#[derive(PartialEq, Eq, Structural, Clone, Copy, Debug)]
pub enum Command {
    Start,
    Stop,
    Quit,
}

/// The bytes of `start`.
pub open spec fn spec_start_word() -> Seq<u8> {
    seq![115u8, 116u8, 97u8, 114u8, 116u8]
}

/// The bytes of `stop`.
pub open spec fn spec_stop_word() -> Seq<u8> {
    seq![115u8, 116u8, 111u8, 112u8]
}

/// The bytes of `quit`.
pub open spec fn spec_quit_word() -> Seq<u8> {
    seq![113u8, 117u8, 105u8, 116u8]
}

/// The command a received line carries, if any: decided by its prefix,
/// `start` before `stop` before `quit`.
pub open spec fn spec_command(line: Seq<u8>) -> Option<Command> {
    if spec_starts_with(line, spec_start_word()) {
        Some(Command::Start)
    } else if spec_starts_with(line, spec_stop_word()) {
        Some(Command::Stop)
    } else if spec_starts_with(line, spec_quit_word()) {
        Some(Command::Quit)
    } else {
        None
    }
}

fn start_word() -> (r: Vec<u8>)
    ensures
        r@ == spec_start_word(),
{
    let mut v: Vec<u8> = Vec::new();
    v.push(115);
    v.push(116);
    v.push(97);
    v.push(114);
    v.push(116);
    proof {
        assert(v@ =~= spec_start_word());
    }
    v
}

fn stop_word() -> (r: Vec<u8>)
    ensures
        r@ == spec_stop_word(),
{
    let mut v: Vec<u8> = Vec::new();
    v.push(115);
    v.push(116);
    v.push(111);
    v.push(112);
    proof {
        assert(v@ =~= spec_stop_word());
    }
    v
}

fn quit_word() -> (r: Vec<u8>)
    ensures
        r@ == spec_quit_word(),
{
    let mut v: Vec<u8> = Vec::new();
    v.push(113);
    v.push(117);
    v.push(105);
    v.push(116);
    proof {
        assert(v@ =~= spec_quit_word());
    }
    v
}

/// Decode one received line.
pub fn parse_command(line: &[u8]) -> (r: Option<Command>)
    ensures
        r == spec_command(line@),
{
    if starts_with(line, start_word().as_slice()) {
        Some(Command::Start)
    } else if starts_with(line, stop_word().as_slice()) {
        Some(Command::Stop)
    } else if starts_with(line, quit_word().as_slice()) {
        Some(Command::Quit)
    } else {
        None
    }
}

} // verus!
