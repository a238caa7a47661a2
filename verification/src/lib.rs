//! A small virtual machine: sixteen 8-bit registers, 4096 bytes of memory, a
//! call stack of sixteen addresses, and 16-bit instructions read as four
//! nibbles.
//!
//! `machine` defines what a step does, as a function on mathematical
//! values; `processor` holds the executable machine, proved to compute it;
//! `laws` states what follows for every program.
pub mod address;
pub mod dispatch;
pub mod float_bits;
pub mod laws;
pub mod machine;
pub mod opcodes;
pub mod processor;
