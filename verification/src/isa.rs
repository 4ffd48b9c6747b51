//! The instruction set: operand values and the closed set of opcodes a
//! node can execute.

use vstd::prelude::*;

verus! {

/// Communication channel between nodes in the CPU.
///
/// These selectors are part of the operand type but have no resolution
/// behaviour: an instruction whose operand refers to a port is rejected at
/// execution time with [`crate::node::StepError::UnsupportedOperand`].
#[derive(Clone, Copy, Debug, PartialEq, Eq, Structural)]
pub enum Port {
    /// Left communication channel from a node.
    Left,
    /// Right communication channel from a node.
    Right,
    /// Up communication channel from a node.
    Up,
    /// Down communication channel from a node.
    Down,
    /// First available port of Left/Right/Up/Down.
    Any,
    /// The last port read or written through [`Port::Any`].
    Last,
}

/// Operational unit used by the CPU nodes: either a raw literal number or a
/// reference to a communication port.
#[derive(Clone, Copy, Debug, PartialEq, Eq, Structural)]
pub enum Value {
    /// Raw literal number.
    Number(i16),
    /// Communication register to read/write.
    Port(Port),
}

/// An instruction to execute in a node of the CPU.
#[derive(Clone, Copy, Debug, PartialEq, Eq, Structural)]
pub enum Opcode {
    /// Add the [`Value`] to the `ACC` register and store the result back
    /// into `ACC`, saturating at the register bounds.
    Add(Value),
    /// Subtract the [`Value`] from the `ACC` register and store the result
    /// back into `ACC`, saturating at the register bounds.
    Sub(Value),
    /// Exchange the values of `ACC` and `BAK`.
    Swap,
    /// Write the value of `ACC` to `BAK`.
    Save,
    /// Arithmetically negate the value of `ACC`. Zero remains the same.
    Negate,
}

/// Whether an opcode can be executed at all: arithmetic against a port
/// operand has no defined behaviour, everything else is executable.
pub open spec fn instr_supported(op: Opcode) -> bool {
    match op {
        Opcode::Add(v) => v is Number,
        Opcode::Sub(v) => v is Number,
        Opcode::Swap => true,
        Opcode::Save => true,
        Opcode::Negate => true,
    }
}

} // verus!
