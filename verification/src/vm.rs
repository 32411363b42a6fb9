//! Frame and trace records exchanged between the signal-time capture path
//! and the background consumer, together with the frame-kind sentinels and
//! the runtime-version decoder.

use vstd::prelude::*;

verus! {

pub const MAX_NATIVE_FRAMES: usize = 128;
pub const RESERVED_FRAMES: usize = 4;
pub const MAX_FRAMES: usize = 2048;

pub const ASGCTFAIL_TICKS_NO_CLASS_LOAD: i32 = -1;
pub const ASGCTFAIL_TICKS_GCACTIVE: i32 = -2;
pub const ASGCTFAIL_TICKS_UNKNOWN_NOT_JAVA: i32 = -3;
pub const ASGCTFAIL_TICKS_NOT_WALKABLE_JAVA: i32 = -4;
pub const ASGCTFAIL_TICKS_UNKNOWN_JAVA: i32 = -5;

pub const BCI_NATIVE_FRAME: i32 = -10;
pub const BIC_ALLOC: i32 = -11;
pub const BCI_ALLOC_OUTSIDE_TLAB: i32 = -12;
pub const BCI_LIVE_OBJECT: i32 = -13;
pub const BCI_LOCK: i32 = -14;
pub const BCI_PARK: i32 = -15;
pub const BCI_THREADID: i32 = -16;
pub const BCI_ERROR: i32 = -17;
pub const BCI_INSTRUMENT: i32 = -18;

/// One captured frame. A non-negative `bci` marks a managed frame; the
/// negative sentinels above mark native frames, thread-id frames and the
/// other synthetic kinds. `method_id` carries, by kind: the start address
/// of the code blob (native), the runtime's opaque method handle (managed),
/// or the OS thread id (thread-id frames).
#[derive(Clone, Copy, PartialEq, Eq, Structural, Debug)]
pub struct JVMPICallFrame {
    pub bci: i32,
    pub method_id: u64,
}

impl Default for JVMPICallFrame {
    fn default() -> (r: Self)
        ensures
            r.bci == 0 && r.method_id == 0,
    {
        JVMPICallFrame { bci: 0, method_id: 0 }
    }
}

/// One captured trace. `num_frames` below zero preserves the runtime's
/// stack-capture failure codes verbatim; otherwise it counts the entries
/// of `frames` that are meaningful.
#[derive(Clone, Debug)]
pub struct JVMPICallTrace {
    /// Opaque handle of the thread environment the trace was taken from.
    pub env: u64,
    pub num_frames: i32,
    pub frames: Vec<JVMPICallFrame>,
}

/// The mathematical content of a trace: its thread environment handle, its
/// frame count or failure code, and its frames.
pub ghost struct TraceView {
    pub env: u64,
    pub num_frames: int,
    pub frames: Seq<JVMPICallFrame>,
}

impl View for JVMPICallTrace {
    type V = TraceView;

    open spec fn view(&self) -> TraceView {
        TraceView { env: self.env, num_frames: self.num_frames as int, frames: self.frames@ }
    }
}

impl JVMPICallTrace {
    pub fn new(env: u64, frames: Vec<JVMPICallFrame>) -> (r: Self)
        ensures
            r.env == env,
            r.num_frames == 0,
            r.frames@ == frames@,
    {
        JVMPICallTrace { env, num_frames: 0, frames }
    }
}

impl Default for JVMPICallTrace {
    fn default() -> (r: Self)
        ensures
            r.env == 0 && r.num_frames == 0 && r.frames@.len() == 0,
    {
        JVMPICallTrace { env: 0, num_frames: 0, frames: Vec::new() }
    }
}

/// The version number that a `java.vm.version` property string decodes to.
pub open spec fn spec_hotspot_version(prop: Seq<u8>) -> i32 {
    if prop.len() >= 3 && prop[0] == 50u8 && prop[1] == 53u8 && prop[2] == 46u8 {
        8
    } else if prop.len() >= 3 && prop[0] == 50u8 && prop[1] == 52u8 && prop[2] == 46u8 {
        7
    } else if prop.len() >= 3 && prop[0] == 50u8 && prop[1] == 48u8 && prop[2] == 46u8 {
        6
    } else if crate::maps::spec_is_radix_number(prop, 10) && crate::maps::spec_radix_value(prop, 10)
        < 9 {
        9
    } else {
        0
    }
}

/// Decode the runtime's `java.vm.version` property: `25.*` is release 8,
/// `24.*` is 7, `20.*` is 6; a bare number below 9 marks a modular release.
pub fn resolve_hotspot_version(prop: &[u8]) -> (r: i32)
    ensures
        r == spec_hotspot_version(prop@),
{
    if prop.len() >= 3 && prop[0] == 50 && prop[2] == 46 {
        if prop[1] == 53 {
            return 8;
        }
        if prop[1] == 52 {
            return 7;
        }
        if prop[1] == 48 {
            return 6;
        }
    }
    if crate::maps::is_radix_number(prop, 10) {
        let v = crate::maps::parse_radix(prop, 10);
        if v < 9 {
            return 9;
        }
    }
    0
}

} // verus!
