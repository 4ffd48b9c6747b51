//! A single execution node: two saturating registers, a fixed program and
//! a program counter that wraps at the end of the program.

use vstd::prelude::*;

use crate::isa::instr_supported;
use crate::isa::Opcode;
use crate::isa::Value;

verus! {

/// Smallest value a register can hold.
pub const REG_MIN: i16 = -999;

/// Largest value a register can hold.
pub const REG_MAX: i16 = 999;

/// Whether `v` lies within the register bounds.
pub open spec fn reg_in_range(v: int) -> bool {
    REG_MIN <= v <= REG_MAX
}

/// Saturate `v` to the register bounds: values beyond a bound are pinned to
/// that bound, never wrapped.
pub open spec fn clamp_to_range(v: int) -> int {
    if v < REG_MIN as int {
        REG_MIN as int
    } else if v > REG_MAX as int {
        REG_MAX as int
    } else {
        v
    }
}

/// The program counter after one executed instruction: advance by one and
/// wrap to the start when the end of the program is reached.
pub open spec fn next_pc(pc: nat, len: nat) -> nat {
    if pc + 1 >= len {
        0
    } else {
        pc + 1
    }
}

/// The accumulator after executing `op` on registers `(acc, bak)`.
pub open spec fn acc_after(acc: int, bak: int, op: Opcode) -> int {
    match op {
        Opcode::Add(Value::Number(n)) => clamp_to_range(acc + n),
        Opcode::Sub(Value::Number(n)) => clamp_to_range(acc - n),
        Opcode::Swap => bak,
        Opcode::Negate => -acc,
        _ => acc,
    }
}

/// The backup register after executing `op` on registers `(acc, bak)`.
pub open spec fn bak_after(acc: int, bak: int, op: Opcode) -> int {
    match op {
        Opcode::Swap => acc,
        Opcode::Save => acc,
        _ => bak,
    }
}

/// Why a step could not be executed.
#[derive(Clone, Copy, Debug, PartialEq, Eq, Structural)]
pub enum StepError {
    /// An arithmetic instruction's operand refers to a communication port;
    /// port resolution has no defined behaviour.
    UnsupportedOperand,
    /// The node's program is empty, so there is no instruction to execute.
    EmptyProgram,
}

/// The mathematical state of a node.
#[verifier::ext_equal]
pub ghost struct NodeView {
    /// The `ACC` register.
    pub acc: int,
    /// The `BAK` register.
    pub bak: int,
    /// The program, fixed for the run's duration.
    pub program: Seq<Opcode>,
    /// Index of the instruction to execute next.
    pub pc: nat,
}

impl NodeView {
    /// Both registers lie within bounds, and the program counter indexes
    /// the program whenever the program is non-empty.
    pub open spec fn wf(self) -> bool {
        &&& reg_in_range(self.acc)
        &&& reg_in_range(self.bak)
        &&& self.program.len() > 0 ==> self.pc < self.program.len()
    }

    /// The instruction the program counter points at.
    pub open spec fn current(self) -> Opcode
        recommends
            self.pc < self.program.len(),
    {
        self.program[self.pc as int]
    }

    /// Whether a step succeeds from this state, and if not, why.
    pub open spec fn step_result(self) -> Result<(), StepError> {
        if self.program.len() == 0 {
            Err(StepError::EmptyProgram)
        } else if !instr_supported(self.current()) {
            Err(StepError::UnsupportedOperand)
        } else {
            Ok(())
        }
    }

    /// The state after one step: on success the current instruction's
    /// effect is applied and the program counter advances with wraparound;
    /// on failure the state is unchanged.
    pub open spec fn step_state(self) -> NodeView {
        if self.step_result() is Ok {
            NodeView {
                acc: acc_after(self.acc, self.bak, self.current()),
                bak: bak_after(self.acc, self.bak, self.current()),
                program: self.program,
                pc: next_pc(self.pc, self.program.len()),
            }
        } else {
            self
        }
    }
}

/// An individual node of execution in the CPU.
#[derive(Debug)]
pub struct Node {
    /// The `ACC` register.
    pub acc: i16,
    /// The `BAK` register.
    pub bak: i16,
    /// The opcodes executing in this [`Node`].
    pub opcodes: Vec<Opcode>,
    /// The current instruction being executed.
    pub pc: usize,
}

impl View for Node {
    type V = NodeView;

    open spec fn view(&self) -> NodeView {
        NodeView {
            acc: self.acc as int,
            bak: self.bak as int,
            program: self.opcodes@,
            pc: self.pc as nat,
        }
    }
}

/// Saturate `v` to the register bounds.
fn clamp_reg(v: i32) -> (r: i16)
    ensures
        r as int == clamp_to_range(v as int),
{
    if v < REG_MIN as i32 {
        REG_MIN
    } else if v > REG_MAX as i32 {
        REG_MAX
    } else {
        v as i16
    }
}

impl Node {
    /// A fresh node about to run `opcodes`: both registers zero, program
    /// counter at the first instruction.
    pub fn new(opcodes: Vec<Opcode>) -> (n: Node)
        ensures
            n@ == (NodeView { acc: 0, bak: 0, program: opcodes@, pc: 0 }),
            n@.wf(),
    {
        Node { acc: 0, bak: 0, opcodes, pc: 0 }
    }

    /// Execute exactly the instruction at the current program counter, then
    /// advance control flow, wrapping at the end of the program.
    ///
    /// An empty program or an arithmetic instruction with a port operand is
    /// reported as an error and leaves the node untouched.
    pub fn step(&mut self) -> (r: Result<(), StepError>)
        requires
            old(self)@.wf(),
        ensures
            r == old(self)@.step_result(),
            final(self)@ == old(self)@.step_state(),
            final(self)@.wf(),
    {
        if self.opcodes.len() == 0 {
            return Err(StepError::EmptyProgram);
        }
        let op = self.opcodes[self.pc];
        match op {
            Opcode::Add(Value::Number(n)) => {
                self.acc = clamp_reg(self.acc as i32 + n as i32);
            }
            Opcode::Sub(Value::Number(n)) => {
                self.acc = clamp_reg(self.acc as i32 - n as i32);
            }
            Opcode::Add(Value::Port(_)) => {
                return Err(StepError::UnsupportedOperand);
            }
            Opcode::Sub(Value::Port(_)) => {
                return Err(StepError::UnsupportedOperand);
            }
            Opcode::Swap => {
                let tmp = self.acc;
                self.acc = self.bak;
                self.bak = tmp;
            }
            Opcode::Save => {
                self.bak = self.acc;
            }
            Opcode::Negate => {
                self.acc = -self.acc;
            }
        }
        self.pc = self.pc + 1;
        if self.pc >= self.opcodes.len() {
            self.pc = 0;
        }
        Ok(())
    }
}

/// The node state after `k` successive steps.
pub open spec fn step_state_n(v: NodeView, k: nat) -> NodeView
    decreases k,
{
    if k == 0 {
        v
    } else {
        step_state_n(v, (k - 1) as nat).step_state()
    }
}

/// Clamping always lands inside the register bounds: starting from a
/// register value `a` within bounds, adding any integer `b` and saturating
/// yields a value within bounds, in either direction.
pub proof fn lemma_clamp_in_range(a: int, b: int)
    requires
        reg_in_range(a),
    ensures
        reg_in_range(clamp_to_range(a + b)),
        reg_in_range(clamp_to_range(a - b)),
{
}

/// Zero is a true fixed point of negation: negating a zero accumulator
/// leaves it zero.
pub proof fn lemma_negate_zero_fixed_point(v: NodeView)
    requires
        v.wf(),
        v.program.len() > 0,
        v.current() is Negate,
        v.acc == 0,
    ensures
        v.step_state().acc == 0,
{
}

/// Negation is an involution: executing `Negate` twice consecutively
/// restores the original accumulator.
pub proof fn lemma_negate_involution(v: NodeView)
    requires
        v.wf(),
        v.program.len() > 0,
        v.current() is Negate,
        v.step_state().current() is Negate,
    ensures
        v.step_state().step_state().acc == v.acc,
        v.step_state().step_state().bak == v.bak,
{
}

/// Swapping is an involution: for any register pair, executing `Swap`
/// twice consecutively restores the original `(acc, bak)` pair.
pub proof fn lemma_swap_involution(v: NodeView)
    requires
        v.wf(),
        v.program.len() > 0,
        v.current() is Swap,
        v.step_state().current() is Swap,
    ensures
        v.step_state().step_state().acc == v.acc,
        v.step_state().step_state().bak == v.bak,
{
}

/// Saving is idempotent: after one `Save` the backup register equals the
/// accumulator, and a second consecutive `Save` leaves the backup (and the
/// accumulator) unchanged.
pub proof fn lemma_save_idempotent(v: NodeView)
    requires
        v.wf(),
        v.program.len() > 0,
        v.current() is Save,
        v.step_state().current() is Save,
    ensures
        v.step_state().bak == v.acc,
        v.step_state().step_state().bak == v.step_state().bak,
        v.step_state().step_state().acc == v.step_state().acc,
{
}

/// A successful step advances the program counter by exactly one position,
/// modulo the program length.
pub proof fn lemma_step_advances_pc(v: NodeView)
    requires
        v.wf(),
        v.program.len() > 0,
        v.step_result() is Ok,
    ensures
        v.step_state().pc as int == (v.pc as int + 1) % (v.program.len() as int),
{
    let len = v.program.len() as int;
    if v.pc + 1 < v.program.len() {
        vstd::arithmetic::div_mod::lemma_small_mod((v.pc + 1) as nat, v.program.len());
    } else {
        assert(v.pc as int + 1 == len);
        vstd::arithmetic::div_mod::lemma_mod_self_0(len);
    }
}

/// Helper for [`lemma_pc_wraparound`]: stepping `k` times from the start
/// of an everywhere-supported program keeps the program fixed, succeeds at
/// every step, and leaves the program counter at `k`, or at zero when `k`
/// equals the program length.
proof fn lemma_pc_advance_upto(v: NodeView, k: nat)
    requires
        v.wf(),
        v.pc == 0,
        v.program.len() > 0,
        k <= v.program.len(),
        forall|i: int| 0 <= i < v.program.len() ==> instr_supported(#[trigger] v.program[i]),
    ensures
        step_state_n(v, k).program == v.program,
        step_state_n(v, k).wf(),
        step_state_n(v, k).pc == if k == v.program.len() {
            0nat
        } else {
            k
        },
        k < v.program.len() ==> step_state_n(v, k).step_result() is Ok,
    decreases k,
{
    if k > 0 {
        lemma_pc_advance_upto(v, (k - 1) as nat);
    }
}

/// Program-counter wraparound: a node whose program has length `n`,
/// started at program counter zero with every instruction supported,
/// stands at program counter `k` before its `k`-th step — so it executes
/// each instruction exactly once, in order — and returns to program
/// counter zero after exactly `n` steps.
pub proof fn lemma_pc_wraparound(v: NodeView)
    requires
        v.wf(),
        v.pc == 0,
        v.program.len() > 0,
        forall|i: int| 0 <= i < v.program.len() ==> instr_supported(#[trigger] v.program[i]),
    ensures
        forall|k: nat|
            k < v.program.len() ==> {
                &&& (#[trigger] step_state_n(v, k)).pc == k
                &&& step_state_n(v, k).program == v.program
                &&& step_state_n(v, k).step_result() is Ok
            },
        step_state_n(v, v.program.len()).pc == 0,
        step_state_n(v, v.program.len()).program == v.program,
{
    assert forall|k: nat| k < v.program.len() implies {
        &&& (#[trigger] step_state_n(v, k)).pc == k
        &&& step_state_n(v, k).program == v.program
        &&& step_state_n(v, k).step_result() is Ok
    } by {
        lemma_pc_advance_upto(v, k);
    }
    lemma_pc_advance_upto(v, v.program.len());
}

impl Default for Node {
    /// A node with both registers zero and an empty program.
    fn default() -> (n: Node)
        ensures
            n@.acc == 0,
            n@.bak == 0,
            n@.pc == 0,
            n@.program == Seq::<Opcode>::empty(),
            n@.wf(),
    {
        Node { acc: 0, bak: 0, opcodes: Vec::new(), pc: 0 }
    }
}

} // verus!
