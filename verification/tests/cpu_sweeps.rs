use cpu_grid::cpu::{Cpu, Fault, NODE_COUNT};
use cpu_grid::isa::{Opcode, Port, Value};
use cpu_grid::node::{Node, StepError};

fn lit(n: i16) -> Value {
    Value::Number(n)
}

fn demo_cpu() -> Cpu {
    let mut cpu = Cpu::new();
    cpu.nodes[0] = Node::new(vec![
        Opcode::Add(lit(1)),
        Opcode::Save,
        Opcode::Add(lit(1)),
        Opcode::Swap,
        Opcode::Negate,
    ]);
    cpu.nodes[1] = Node::new(vec![Opcode::Add(lit(2)), Opcode::Sub(lit(400))]);
    cpu.nodes[2] = Node::new(vec![Opcode::Add(lit(-400))]);
    cpu.nodes[3] = Node::new(vec![
        Opcode::Add(lit(1)),
        Opcode::Sub(lit(2)),
        Opcode::Sub(lit(4)),
        Opcode::Sub(lit(5)),
    ]);
    cpu
}

#[test]
fn new_cpu_holds_four_idle_nodes() {
    let cpu = Cpu::new();
    assert_eq!(cpu.nodes.len(), NODE_COUNT);
    for node in &cpu.nodes {
        assert_eq!(node.acc, 0);
        assert_eq!(node.bak, 0);
        assert_eq!(node.pc, 0);
        assert!(node.opcodes.is_empty());
    }
    assert!(cpu.wf_check());
}

#[test]
fn default_cpu_matches_new() {
    let cpu = Cpu::default();
    assert_eq!(cpu.nodes.len(), NODE_COUNT);
    for node in &cpu.nodes {
        assert_eq!((node.acc, node.bak, node.pc), (0, 0, 0));
        assert!(node.opcodes.is_empty());
    }
}

#[test]
fn sweep_advances_every_node_once() {
    let mut cpu = demo_cpu();
    assert_eq!(cpu.step(), Ok(()));
    // every program counter advanced by exactly one, modulo program length
    assert_eq!(cpu.nodes[0].pc, 1);
    assert_eq!(cpu.nodes[1].pc, 1);
    assert_eq!(cpu.nodes[2].pc, 0); // length-1 program wraps at once
    assert_eq!(cpu.nodes[3].pc, 1);
    assert_eq!(cpu.nodes[0].acc, 1);
    assert_eq!(cpu.nodes[1].acc, 2);
    assert_eq!(cpu.nodes[2].acc, -400);
    assert_eq!(cpu.nodes[3].acc, 1);
}

#[test]
fn second_sweep_keeps_advancing_deterministically() {
    let mut cpu = demo_cpu();
    assert_eq!(cpu.step(), Ok(()));
    assert_eq!(cpu.step(), Ok(()));
    assert_eq!((cpu.nodes[0].acc, cpu.nodes[0].bak, cpu.nodes[0].pc), (1, 1, 2));
    assert_eq!((cpu.nodes[1].acc, cpu.nodes[1].pc), (-398, 0));
    assert_eq!((cpu.nodes[2].acc, cpu.nodes[2].pc), (-800, 0));
    assert_eq!((cpu.nodes[3].acc, cpu.nodes[3].pc), (-1, 2));
}

#[test]
fn sweep_stops_at_first_failing_node() {
    let mut cpu = Cpu::new();
    cpu.nodes[0] = Node::new(vec![Opcode::Add(lit(1))]);
    cpu.nodes[1] = Node::new(vec![Opcode::Add(Value::Port(Port::Left))]);
    cpu.nodes[2] = Node::new(vec![Opcode::Add(lit(5))]);
    cpu.nodes[3] = Node::new(vec![Opcode::Add(lit(7))]);
    let fault = cpu.step().unwrap_err();
    assert_eq!(fault, Fault { node: 1, error: StepError::UnsupportedOperand });
    // node 0 had already stepped, the failing node and later ones are untouched
    assert_eq!(cpu.nodes[0].acc, 1);
    assert_eq!((cpu.nodes[1].acc, cpu.nodes[1].pc), (0, 0));
    assert_eq!((cpu.nodes[2].acc, cpu.nodes[2].pc), (0, 0));
    assert_eq!((cpu.nodes[3].acc, cpu.nodes[3].pc), (0, 0));
}

#[test]
fn empty_program_faults_the_sweep() {
    let mut cpu = Cpu::new();
    cpu.nodes[0] = Node::new(vec![Opcode::Add(lit(1))]);
    cpu.nodes[1] = Node::new(vec![Opcode::Add(lit(2))]);
    cpu.nodes[2] = Node::new(vec![Opcode::Add(lit(3))]);
    // node 3 keeps its empty program
    let fault = cpu.step().unwrap_err();
    assert_eq!(fault, Fault { node: 3, error: StepError::EmptyProgram });
    assert_eq!(cpu.nodes[0].acc, 1);
    assert_eq!(cpu.nodes[1].acc, 2);
    assert_eq!(cpu.nodes[2].acc, 3);
    assert_eq!((cpu.nodes[3].acc, cpu.nodes[3].bak, cpu.nodes[3].pc), (0, 0, 0));
}

#[test]
fn wf_check_rejects_bad_states() {
    let mut cpu = Cpu::new();
    assert!(cpu.wf_check());
    cpu.nodes[2].acc = 1000;
    assert!(!cpu.wf_check());
    cpu.nodes[2].acc = 0;
    cpu.nodes[1].pc = 3; // out of range for a non-empty program
    cpu.nodes[1].opcodes = vec![Opcode::Swap];
    assert!(!cpu.wf_check());
    cpu.nodes[1].pc = 0;
    assert!(cpu.wf_check());
    cpu.nodes.pop();
    assert!(!cpu.wf_check());
}
