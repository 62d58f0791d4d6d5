//! A small virtual CPU: a fixed-layout binary instruction codec, a machine
//! state of 65536 signed 32-bit memory cells, the semantics of each
//! instruction family, and a cycle function that a host drives to run a
//! program and serve its syscalls.
pub mod bytes;
pub mod exec;
pub mod instr;
pub mod machine;
pub mod process;
