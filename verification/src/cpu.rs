//! The CPU: a fixed grid of four nodes advanced in lockstep, one
//! instruction per node per sweep, in index order.

use vstd::prelude::*;

use crate::node::Node;
use crate::node::StepError;

verus! {

/// Number of nodes in the CPU.
pub const NODE_COUNT: usize = 4;

/// A node's failure during a sweep, with the index of the node it
/// happened in.
#[derive(Clone, Copy, Debug, PartialEq, Eq, Structural)]
pub struct Fault {
    /// Index of the node whose step failed.
    pub node: usize,
    /// Why that node's step failed.
    pub error: StepError,
}

/// Collection of executing [`Node`]s.
#[derive(Debug)]
pub struct Cpu {
    /// Individual node units for the CPU, in canonical step order.
    pub nodes: Vec<Node>,
}

impl Cpu {
    /// The CPU always holds exactly four nodes, each well-formed.
    pub open spec fn wf(self) -> bool {
        &&& self.nodes@.len() == NODE_COUNT
        &&& forall|i: int|
            0 <= i < self.nodes@.len() ==> (#[trigger] self.nodes@[i])@.wf()
    }

    /// A CPU of four fresh nodes, each with both registers zero and an
    /// empty program.
    pub fn new() -> (cpu: Cpu)
        ensures
            cpu.wf(),
            cpu.nodes@.len() == NODE_COUNT,
            forall|i: int|
                0 <= i < NODE_COUNT ==> {
                    &&& (#[trigger] cpu.nodes@[i])@.acc == 0
                    &&& cpu.nodes@[i]@.bak == 0
                    &&& cpu.nodes@[i]@.pc == 0
                    &&& cpu.nodes@[i]@.program == Seq::<crate::isa::Opcode>::empty()
                },
    {
        let mut nodes: Vec<Node> = Vec::new();
        nodes.push(Node::default());
        nodes.push(Node::default());
        nodes.push(Node::default());
        nodes.push(Node::default());
        Cpu { nodes }
    }

    /// Advance every node exactly once, in fixed index order 0,1,2,3,
    /// synchronously: a node's step completes before the next node begins.
    ///
    /// On success every node has applied exactly one instruction's effect
    /// and advanced its program counter by one position, wrapping at its
    /// program's end. On the first node whose step fails the sweep stops:
    /// earlier nodes keep their stepped state, the failing node and all
    /// later ones are untouched, and the fault names the failing node.
    pub fn step(&mut self) -> (r: Result<(), Fault>)
        requires
            old(self).wf(),
        ensures
            final(self).wf(),
            final(self).nodes@.len() == NODE_COUNT,
            r is Ok ==> forall|j: int|
                0 <= j < NODE_COUNT ==> {
                    &&& (#[trigger] old(self).nodes@[j])@.step_result() is Ok
                    &&& final(self).nodes@[j]@ == old(self).nodes@[j]@.step_state()
                },
            r matches Err(f) ==> {
                &&& f.node < NODE_COUNT
                &&& old(self).nodes@[f.node as int]@.step_result() == Err::<(), StepError>(f.error)
                &&& forall|j: int|
                    0 <= j < f.node ==> {
                        &&& (#[trigger] old(self).nodes@[j])@.step_result() is Ok
                        &&& final(self).nodes@[j]@ == old(self).nodes@[j]@.step_state()
                    }
                &&& forall|j: int|
                    f.node <= j < NODE_COUNT ==> (#[trigger] final(self).nodes@[j])@
                        == old(self).nodes@[j]@
            },
    {
        let mut i: usize = 0;
        while i < NODE_COUNT
            invariant
                self.nodes@.len() == NODE_COUNT,
                i <= NODE_COUNT,
                forall|j: int|
                    0 <= j < self.nodes@.len() ==> (#[trigger] self.nodes@[j])@.wf(),
                forall|j: int|
                    0 <= j < i ==> {
                        &&& (#[trigger] old(self).nodes@[j])@.step_result() is Ok
                        &&& self.nodes@[j]@ == old(self).nodes@[j]@.step_state()
                    },
                forall|j: int|
                    i <= j < NODE_COUNT ==> (#[trigger] self.nodes@[j])@
                        == old(self).nodes@[j]@,
            decreases NODE_COUNT - i,
        {
            let node = &mut self.nodes[i];
            let stepped = node.step();
            if let Err(e) = stepped {
                return Err(Fault { node: i, error: e });
            }
            i = i + 1;
        }
        Ok(())
    }

    /// Whether the CPU is well-formed, decided at run time: exactly four
    /// nodes, every register within bounds, every non-empty program's
    /// counter in range.
    pub fn wf_check(&self) -> (b: bool)
        ensures
            b == self.wf(),
    {
        if self.nodes.len() != NODE_COUNT {
            return false;
        }
        let mut i: usize = 0;
        while i < NODE_COUNT
            invariant
                self.nodes@.len() == NODE_COUNT,
                i <= NODE_COUNT,
                forall|j: int| 0 <= j < i ==> (#[trigger] self.nodes@[j])@.wf(),
            decreases NODE_COUNT - i,
        {
            let node = &self.nodes[i];
            if node.acc < crate::node::REG_MIN || node.acc > crate::node::REG_MAX {
                return false;
            }
            if node.bak < crate::node::REG_MIN || node.bak > crate::node::REG_MAX {
                return false;
            }
            if node.opcodes.len() > 0 && node.pc >= node.opcodes.len() {
                return false;
            }
            i = i + 1;
        }
        true
    }
}

impl Default for Cpu {
    /// Same as [`Cpu::new`]: four fresh nodes with empty programs.
    fn default() -> (cpu: Cpu)
        ensures
            cpu.wf(),
            cpu.nodes@.len() == NODE_COUNT,
            forall|i: int|
                0 <= i < NODE_COUNT ==> {
                    &&& (#[trigger] cpu.nodes@[i])@.acc == 0
                    &&& cpu.nodes@[i]@.bak == 0
                    &&& cpu.nodes@[i]@.pc == 0
                    &&& cpu.nodes@[i]@.program == Seq::<crate::isa::Opcode>::empty()
                },
    {
        Cpu::new()
    }
}

} // verus!
