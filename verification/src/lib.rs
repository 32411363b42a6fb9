//! Core of a sampling profiler agent for a managed runtime: a lock-free
//! handoff ring for captured call traces, a per-image code-blob index with
//! binary search, byte-level parsers for `/proc/self/maps` and ELF images,
//! a frame-pointer stack walker, a resolver for the runtime's exported
//! VM-structures table, and a frame-name renderer.

pub mod broadcast_alarm;
pub mod bytes;
pub mod code_cache;
pub mod ctrl;
pub mod elf;
pub mod frame_name;
pub mod maps;
pub mod os_stat;
pub mod ring;
pub mod sampler;
pub mod signal;
pub mod spinlock;
pub mod symbols;
pub mod vm;
pub mod vm_struct;
pub mod walker;

pub use vm::JVMPICallFrame;
pub use vm::JVMPICallTrace;
