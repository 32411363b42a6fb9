[package]
name = "agent_profiler"
version = "0.1.0"
edition = "2021"
publish = false

[dependencies]
cpp_demangle = "*"
libc = "*"
