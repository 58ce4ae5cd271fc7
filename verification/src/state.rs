//! The program and the machine state that instructions act on.

use vstd::prelude::*;
use std::collections::HashMap;

verus! {

/// The loaded program: a dense sequence of machine words, the word at byte
/// address `a` standing at index `a / 4`.
pub struct InstSpace {
    pub prog: Vec<u32>,
}

impl View for InstSpace {
    type V = Seq<u32>;

    open spec fn view(&self) -> Seq<u32> {
        self.prog@
    }
}

impl InstSpace {
    /// Wraps a sequence of words as a program.
    pub fn new(v: Vec<u32>) -> (r: InstSpace)
        ensures
            r@ == v@,
    {
        InstSpace { prog: v }
    }

    /// The word at byte address `i`.
    pub fn word_at(&self, i: u32) -> (r: u32)
        requires
            i / 4 < self@.len(),
        ensures
            r == self@[i as int / 4],
    {
        self.prog[(i / 4) as usize]
    }
}

/// The machine as a mathematical value.
pub struct VmState {
    /// The program, word by word.
    pub prog: Seq<u32>,
    /// The 32 registers.
    pub regs: Seq<i32>,
    /// The program counter, a byte address.
    pub pc: u32,
    /// Data memory: the addresses that a store has written, with their values.
    pub mem: Map<u32, i32>,
}

/// The machine: program, register file, program counter and data memory.
pub struct Vm {
    pub inst_space: InstSpace,
    pub regs: [i32; 32],
    pub pc: u32,
    pub mem: HashMap<u32, i32>,
}

impl View for Vm {
    type V = VmState;

    open spec fn view(&self) -> VmState {
        VmState { prog: self.inst_space@, regs: self.regs@, pc: self.pc, mem: self.mem@ }
    }
}

/// The state of a machine that has just been given `prog`: all registers
/// zero, the program counter at 0 and nothing in memory.
pub open spec fn initial_state(prog: Seq<u32>) -> VmState {
    VmState { prog, regs: Seq::new(32, |i: int| 0i32), pc: 0, mem: Map::empty() }
}

impl Vm {
    /// A machine about to run `is` from its first word.
    pub fn new(is: InstSpace) -> (r: Vm)
        ensures
            r@ == initial_state(is@),
    {
        let r = Vm { inst_space: is, regs: [0i32; 32], pc: 0, mem: HashMap::new() };
        assert(r.regs@ =~= initial_state(is@).regs);
        r
    }
}

} // verus!
