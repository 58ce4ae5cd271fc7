//! The fetch-decode-execute cycle and the loop that repeats it.

use vstd::prelude::*;
use crate::bits::wrap_u32;
use crate::decode::{
    construct_inst, decode, lemma_decode_well_formed, IType, Instruction, RType,
};
use crate::fault::Fault;
use crate::exec::{lemma_single_effect, Inst};
use crate::state::{initial_state, Vm, VmState};

verus! {

impl VmState {
    /// The program counter has run past the last word of the program.
    pub open spec fn halted(self) -> bool {
        self.pc / 4 >= self.prog.len()
    }

    /// The word that the program counter addresses.
    pub open spec fn fetched(self) -> u32 {
        self.prog[self.pc as int / 4]
    }
}

/// One cycle from a state that has not halted: the fetched word is decoded
/// and carried out, and the program counter then moves on by 4, whatever the
/// instruction did to it.
pub open spec fn cycle(s: VmState) -> Result<VmState, Fault> {
    match decode(s.fetched()) {
        Err(f) => Err(f),
        Ok(i) => match i.apply(s) {
            Err(f) => Err(f),
            Ok(t) => Ok(t.with_pc(wrap_u32(t.pc + 4))),
        },
    }
}

/// Up to `cycles` cycles from `s`: the state in which the machine halted,
/// ran out of cycles or met a fault, and that fault if there was one.
pub open spec fn run_from(s: VmState, cycles: nat) -> (VmState, Option<Fault>)
    decreases cycles,
{
    if cycles == 0 || s.halted() {
        (s, None)
    } else {
        match cycle(s) {
            Err(f) => (s, Some(f)),
            Ok(t) => run_from(t, (cycles - 1) as nat),
        }
    }
}

/// Instructions that may redirect the program counter: jump-register, the
/// two branches and the two jumps.
pub open spec fn is_control_flow(i: Instruction) -> bool {
    match i {
        Instruction::Register(r) => r.fun == 0x08,
        Instruction::Immediate(m) => m.op == 0x4 || m.op == 0x5,
        Instruction::Jump(_) => true,
    }
}

/// A cycle that carries out an instruction other than a jump or a branch
/// leaves the program counter 4 above where it was, provided that address
/// fits 32 bits.
pub proof fn lemma_pc_advances_by_four(s: VmState)
    requires
        decode(s.fetched()) matches Ok(i) && !is_control_flow(i),
        cycle(s) is Ok,
        s.pc + 4 <= u32::MAX,
    ensures
        cycle(s) matches Ok(t) && t.pc == s.pc + 4,
{
}

/// A cycle that carries out a branch changes the program counter only. A
/// branch that is not taken leaves it 4 above where it was, like any other
/// instruction. One that is taken moves it by 4 + `im`, `im` being the raw
/// immediate field without sign extension, and the cycle's advance adds 4
/// more. Addresses wrap at 32 bits.
pub proof fn lemma_branch_displacement(s: VmState, m: IType)
    requires
        decode(s.fetched()) == Ok::<Instruction, Fault>(Instruction::Immediate(m)),
        m.op == 0x4 || m.op == 0x5,
    ensures
        cycle(s) matches Ok(t) && t.regs == s.regs && t.mem == s.mem && t.pc == wrap_u32(
            if (s.reg(m.rt) == s.reg(m.rs)) == (m.op == 0x4) {
                s.pc + 4 + m.im + 4
            } else {
                s.pc + 4
            },
        ),
{
}

/// After a cycle that carries out jump-register, the next fetch is at the
/// address held in the source register: the instruction aims 4 below it and
/// the cycle's advance makes up for that.
pub proof fn lemma_jump_register_lands_on_register(s: VmState, r: RType)
    requires
        decode(s.fetched()) == Ok::<Instruction, Fault>(Instruction::Register(r)),
        r.fun == 0x08,
    ensures
        cycle(s) == Ok::<VmState, Fault>(s.with_pc(wrap_u32(s.reg(r.rs) as int))),
{
}

/// A machine has halted exactly when its program counter has reached four
/// times the number of words in the program, so a fresh machine has halted
/// exactly when its program is empty.
pub proof fn lemma_halts_at_program_end(s: VmState)
    ensures
        s.halted() <==> s.pc >= 4 * s.prog.len(),
        initial_state(s.prog).halted() <==> s.prog.len() == 0,
{
}

/// Running never changes the program and keeps the register file at 32
/// registers. With no cycle allowed, or from a halted state, it changes
/// nothing at all.
pub proof fn lemma_run_keeps_program(s: VmState, cycles: nat)
    requires
        s.regs.len() == 32,
    ensures
        run_from(s, cycles).0.prog == s.prog,
        run_from(s, cycles).0.regs.len() == 32,
        run_from(s, 0) == (s, None::<Fault>),
        s.halted() ==> run_from(s, cycles) == (s, None::<Fault>),
    decreases cycles,
{
    if cycles > 0 && !s.halted() {
        if let Ok(t) = cycle(s) {
            let i = decode(s.fetched())->Ok_0;
            lemma_decode_well_formed(s.fetched());
            lemma_single_effect(i, s);
            lemma_run_keeps_program(t, (cycles - 1) as nat);
        }
    }
}

/// Running in two parts is running at once: after `first` cycles without a
/// fault, `second` more cycles end where `first + second` cycles from the
/// start would have ended. A fault in the first part ends both alike.
pub proof fn lemma_run_in_parts(s: VmState, first: nat, second: nat)
    ensures
        run_from(s, first + second) == (match run_from(s, first).1 {
            Some(f) => run_from(s, first),
            None => run_from(run_from(s, first).0, second),
        }),
    decreases first,
{
    if first > 0 && !s.halted() {
        if let Ok(t) = cycle(s) {
            lemma_run_in_parts(t, (first - 1) as nat, second);
        }
    }
}

impl Vm {
    /// Whether the program counter has run past the end of the program.
    pub fn halted(&self) -> (r: bool)
        ensures
            r == self@.halted(),
    {
        (self.pc / 4) as usize >= self.inst_space.prog.len()
    }

    /// Performs one cycle. Returns `Ok(false)` and changes nothing if the
    /// machine has halted; otherwise fetches, decodes and carries out one
    /// instruction, advances the program counter by 4 and returns `Ok(true)`.
    /// A fault is returned with the machine left as it was.
    pub fn exucute(&mut self) -> (r: Result<bool, Fault>)
        ensures
            (r == Ok::<bool, Fault>(false)) <==> old(self)@.halted(),
            old(self)@.halted() ==> final(self)@ == old(self)@,
            !old(self)@.halted() ==> match cycle(old(self)@) {
                Ok(t) => r == Ok::<bool, Fault>(true) && final(self)@ == t,
                Err(f) => r == Err::<bool, Fault>(f) && final(self)@ == old(self)@,
            },
    {
        if self.halted() {
            return Ok(false);
        }
        let word = self.inst_space.word_at(self.pc);
        let instruction = match construct_inst(word) {
            Ok(i) => i,
            Err(f) => {
                return Err(f);
            },
        };
        match instruction.exucute(self) {
            Ok(()) => {},
            Err(f) => {
                return Err(f);
            },
        }
        self.pc = self.pc.wrapping_add(4);
        Ok(true)
    }

    /// Repeats the cycle until the machine halts, a fault occurs or
    /// `max_cycles` cycles have been performed. Returns whether the machine
    /// is still running, that is `Ok(false)` once it has halted.
    pub fn run(&mut self, max_cycles: u64) -> (r: Result<bool, Fault>)
        ensures
            final(self)@ == run_from(old(self)@, max_cycles as nat).0,
            match run_from(old(self)@, max_cycles as nat).1 {
                Some(f) => r == Err::<bool, Fault>(f),
                None => r == Ok::<bool, Fault>(!final(self)@.halted()),
            },
    {
        let mut left = max_cycles;
        while left > 0
            invariant
                run_from(self@, left as nat) == run_from(old(self)@, max_cycles as nat),
            decreases left,
        {
            match self.exucute() {
                Ok(true) => {},
                Ok(false) => {
                    return Ok(false);
                },
                Err(f) => {
                    return Err(f);
                },
            }
            left = left - 1;
        }
        Ok(!self.halted())
    }
}

} // verus!
