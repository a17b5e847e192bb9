//! An interpreter for a small fixed instruction-set virtual machine: 4KB of
//! memory, 16 8-bit registers, a 16-entry call stack, two countdown timers,
//! a 16-key pad and a 64x32 monochrome pixel grid. The `semantics` module
//! gives the machine its mathematical model and the meaning of every
//! instruction; `cpu` holds the executable machine, whose stepping, ticking
//! and input operations are verified against that model; `laws` states and
//! proves general properties of the instruction semantics.

pub mod cpu;
pub mod laws;
pub mod semantics;
