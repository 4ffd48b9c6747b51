//! A small multi-node stepping machine: a fixed grid of four independent
//! nodes, each an instruction-driven register machine with an accumulator
//! and a backup register, advanced in lockstep one instruction per sweep.

pub mod cpu;
pub mod isa;
pub mod node;
