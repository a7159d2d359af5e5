//! Resolution of the instruction-set capabilities of a RISC-V processor:
//! a small set of directly observed capability flags is expanded along a
//! fixed table of implication rules until no further flag can be inferred.

pub mod bit;
pub mod cache;
pub mod closure;
pub mod engine;
pub mod feature;
pub mod linux;
pub mod riscv;
pub mod rule;
