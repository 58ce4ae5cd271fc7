//! What each instruction does to the machine.

use vstd::prelude::*;
use crate::bits::{
    as_signed, as_unsigned, nor, nor32, read_imm, shift_left, shift_right, shl32, shr32,
    sign_extend, wrap_i32, wrap_u32,
};
use crate::decode::{IType, Instruction, JType, RType};
use crate::fault::Fault;
use crate::state::{initial_state, Vm, VmState};

verus! {

impl VmState {
    /// The value of register `r`.
    pub open spec fn reg(self, r: u32) -> i32 {
        self.regs[r as int]
    }

    /// The state with register `r` holding `v`.
    pub open spec fn with_reg(self, r: u32, v: i32) -> VmState {
        VmState { regs: self.regs.update(r as int, v), ..self }
    }

    /// The state with the program counter at `pc`.
    pub open spec fn with_pc(self, pc: u32) -> VmState {
        VmState { pc, ..self }
    }

    /// The state with `v` stored at address `a`.
    pub open spec fn with_mem(self, a: u32, v: i32) -> VmState {
        VmState { mem: self.mem.insert(a, v), ..self }
    }
}

/// An instruction that can be carried out on a machine.
pub trait Inst {
    /// Every register field names one of the 32 registers, a shift amount is
    /// below 32 and an immediate fits 16 bits.
    spec fn wf(&self) -> bool;

    /// The state that the instruction leaves when carried out in state `s`,
    /// or the fault that stops it.
    spec fn apply(&self, s: VmState) -> Result<VmState, Fault>;

    /// Carries the instruction out on `vm`. A fault leaves `vm` as it was.
    fn exucute(&self, vm: &mut Vm) -> (r: Result<(), Fault>)
        requires
            self.wf(),
        ensures
            match self.apply(old(vm)@) {
                Ok(s) => r is Ok && final(vm)@ == s,
                Err(f) => r == Err::<(), Fault>(f) && final(vm)@ == old(vm)@,
            },
    ;
}

impl Inst for RType {
    open spec fn wf(&self) -> bool {
        self.rs < 32 && self.rt < 32 && self.rd < 32 && self.sh < 32
    }

    open spec fn apply(&self, s: VmState) -> Result<VmState, Fault> {
        let rs = s.reg(self.rs);
        let rt = s.reg(self.rt);
        match self.fun {
            0x20 | 0x21 => Ok(s.with_reg(self.rd, wrap_i32(rs + rt))),
            0x24 => Ok(s.with_reg(self.rd, rs & rt)),
            0x25 => Ok(s.with_reg(self.rd, rs | rt)),
            0x27 => Ok(s.with_reg(self.rd, nor(rs, rt))),
            0x00 => Ok(s.with_reg(self.rd, shift_left(rt, self.sh as nat))),
            0x02 => Ok(s.with_reg(self.rd, shift_right(rt, self.sh as nat))),
            0x22 | 0x23 => Ok(s.with_reg(self.rd, wrap_i32(rs - rt))),
            0x08 => Ok(s.with_pc(wrap_u32(rs - 4))),
            0x2A => Ok(s.with_reg(self.rd, if rs < rt { 1i32 } else { 0i32 })),
            _ => Err(Fault::UnknownFunction { code: self.fun }),
        }
    }

    fn exucute(&self, vm: &mut Vm) -> (r: Result<(), Fault>) {
        let rs = vm.regs[self.rs as usize];
        let rt = vm.regs[self.rt as usize];
        let rd = self.rd as usize;
        match self.fun {
            0x20 | 0x21 => {
                vm.regs[rd] = rs.wrapping_add(rt);
            },
            0x24 => {
                vm.regs[rd] = rs & rt;
            },
            0x25 => {
                vm.regs[rd] = rs | rt;
            },
            0x27 => {
                vm.regs[rd] = nor32(rs, rt);
            },
            0x00 => {
                vm.regs[rd] = shl32(rt, self.sh);
            },
            0x02 => {
                vm.regs[rd] = shr32(rt, self.sh);
            },
            0x22 | 0x23 => {
                vm.regs[rd] = rs.wrapping_sub(rt);
            },
            0x08 => {
                vm.pc = as_unsigned(rs).wrapping_sub(4);
            },
            0x2A => {
                if rs < rt {
                    vm.regs[rd] = 1;
                } else {
                    vm.regs[rd] = 0;
                }
            },
            _ => {
                return Err(Fault::UnknownFunction { code: self.fun });
            },
        }
        Ok(())
    }
}

impl Inst for IType {
    open spec fn wf(&self) -> bool {
        self.rs < 32 && self.rt < 32 && self.im < 0x1_0000
    }

    open spec fn apply(&self, s: VmState) -> Result<VmState, Fault> {
        let rs = s.reg(self.rs);
        let rt = s.reg(self.rt);
        let address = wrap_u32(rs + sign_extend(self.im));
        match self.op {
            0x8 | 0x9 => Ok(s.with_reg(self.rt, wrap_i32(rs + sign_extend(self.im)))),
            0xC => Ok(s.with_reg(self.rt, rs & (self.im as i32))),
            0x4 => Ok(if rt == rs { s.with_pc(wrap_u32(s.pc + 4 + self.im)) } else { s }),
            0x5 => Ok(if rt != rs { s.with_pc(wrap_u32(s.pc + 4 + self.im)) } else { s }),
            0xD => Ok(s.with_reg(self.rt, rs | (self.im as i32))),
            0xA => Ok(s.with_reg(self.rt, if rs < sign_extend(self.im) { 1i32 } else { 0i32 })),
            0x2B => Ok(s.with_mem(address, rt)),
            0x23 => if s.mem.contains_key(address) {
                Ok(s.with_reg(self.rt, s.mem[address]))
            } else {
                Err(Fault::UnmappedRead { address })
            },
            _ => Err(Fault::UnknownOpcode { opcode: self.op }),
        }
    }

    fn exucute(&self, vm: &mut Vm) -> (r: Result<(), Fault>) {
        let rs = vm.regs[self.rs as usize];
        let rt = vm.regs[self.rt as usize];
        let target = self.rt as usize;
        match self.op {
            0x8 | 0x9 => {
                vm.regs[target] = rs.wrapping_add(read_imm(self.im));
            },
            0xC => {
                vm.regs[target] = rs & (self.im as i32);
            },
            0x4 => {
                if rt == rs {
                    vm.pc = vm.pc.wrapping_add(4).wrapping_add(self.im);
                }
            },
            0x5 => {
                if rt != rs {
                    vm.pc = vm.pc.wrapping_add(4).wrapping_add(self.im);
                }
            },
            0xD => {
                vm.regs[target] = rs | (self.im as i32);
            },
            0xA => {
                if rs < read_imm(self.im) {
                    vm.regs[target] = 1;
                } else {
                    vm.regs[target] = 0;
                }
            },
            0x2B => {
                let address = as_unsigned(rs.wrapping_add(read_imm(self.im)));
                vm.mem.insert(address, rt);
            },
            0x23 => {
                let address = as_unsigned(rs.wrapping_add(read_imm(self.im)));
                match vm.mem.get(&address) {
                    Some(value) => {
                        vm.regs[target] = *value;
                    },
                    None => {
                        return Err(Fault::UnmappedRead { address });
                    },
                }
            },
            _ => {
                return Err(Fault::UnknownOpcode { opcode: self.op });
            },
        }
        Ok(())
    }
}

impl Inst for JType {
    open spec fn wf(&self) -> bool {
        true
    }

    open spec fn apply(&self, s: VmState) -> Result<VmState, Fault> {
        match self.op {
            0x2 => Ok(s.with_pc(self.ad)),
            0x3 => Ok(s.with_reg(31, wrap_i32(s.pc + 4)).with_pc(self.ad)),
            _ => Err(Fault::UnknownOpcode { opcode: self.op }),
        }
    }

    fn exucute(&self, vm: &mut Vm) -> (r: Result<(), Fault>) {
        match self.op {
            0x2 => {
                vm.pc = self.ad;
            },
            0x3 => {
                vm.regs[31] = as_signed(vm.pc.wrapping_add(4));
                vm.pc = self.ad;
            },
            _ => {
                return Err(Fault::UnknownOpcode { opcode: self.op });
            },
        }
        Ok(())
    }
}

impl Inst for Instruction {
    open spec fn wf(&self) -> bool {
        match *self {
            Instruction::Register(r) => r.wf(),
            Instruction::Immediate(i) => i.wf(),
            Instruction::Jump(j) => j.wf(),
        }
    }

    open spec fn apply(&self, s: VmState) -> Result<VmState, Fault> {
        match *self {
            Instruction::Register(r) => r.apply(s),
            Instruction::Immediate(i) => i.apply(s),
            Instruction::Jump(j) => j.apply(s),
        }
    }

    fn exucute(&self, vm: &mut Vm) -> (r: Result<(), Fault>) {
        match self {
            Instruction::Register(r) => r.exucute(vm),
            Instruction::Immediate(i) => i.exucute(vm),
            Instruction::Jump(j) => j.exucute(vm),
        }
    }
}

/// An instruction never touches the program, and it changes at most one of
/// the register file, the memory and the program counter. The one exception
/// is jump-and-link, which changes a register and the program counter and
/// leaves memory alone. Where the register file changes, one register does.
pub proof fn lemma_single_effect(i: Instruction, s: VmState)
    requires
        i.wf(),
        s.regs.len() == 32,
    ensures
        i.apply(s) matches Ok(t) ==> {
            &&& t.prog == s.prog
            &&& t.regs.len() == 32
            &&& exists|r: int| 0 <= r < 32 && t.regs == s.regs.update(r, #[trigger] t.regs[r])
            &&& t.mem == s.mem || (t.regs == s.regs && t.pc == s.pc)
            &&& t.regs == s.regs || t.pc == s.pc || i == Instruction::Jump(
                JType { op: 0x3, ad: t.pc },
            )
        },
{
    if let Ok(t) = i.apply(s) {
        match i {
            Instruction::Register(r) => {
                assert(t.regs == s.regs.update(r.rd as int, t.regs[r.rd as int]));
            },
            Instruction::Immediate(m) => {
                assert(t.regs == s.regs.update(m.rt as int, t.regs[m.rt as int]));
            },
            Instruction::Jump(j) => {
                assert(t.regs == s.regs.update(31, t.regs[31]));
            },
        }
    }
}

/// A load succeeds exactly when a store has written the address it reads,
/// and then yields the value stored there. Otherwise it faults; it never
/// yields a value of its own making. On a fresh machine every load faults.
pub proof fn lemma_load_needs_store(i: IType, s: VmState)
    requires
        i.op == 0x23,
    ensures
        ({
            let address = wrap_u32(s.reg(i.rs) + sign_extend(i.im));
            if s.mem.contains_key(address) {
                i.apply(s) == Ok::<VmState, Fault>(s.with_reg(i.rt, s.mem[address]))
            } else {
                i.apply(s) == Err::<VmState, Fault>(Fault::UnmappedRead { address })
            }
        }),
        initial_state(s.prog).mem == Map::<u32, i32>::empty(),
        i.apply(initial_state(s.prog)) is Err,
{
}

} // verus!
