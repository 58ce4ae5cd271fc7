//! The three instruction forms and the decoder that classifies machine words.

use vstd::prelude::*;
use crate::bits::{get_inst_seg, lemma_segment_values, segment, Segment};
use crate::exec::Inst;
use crate::fault::Fault;

verus! {

/// Register-register form.
#[derive(Debug, Clone, Copy, PartialEq, Eq)]
pub struct RType {
    pub op: u32,
    pub rs: u32,
    pub rt: u32,
    pub rd: u32,
    pub sh: u32,
    pub fun: u32,
}

/// Register-immediate form. `im` holds the raw 16-bit field.
#[derive(Debug, Clone, Copy, PartialEq, Eq)]
pub struct IType {
    pub op: u32,
    pub rs: u32,
    pub rt: u32,
    pub im: u32,
}

/// Jump-target form.
#[derive(Debug, Clone, Copy, PartialEq, Eq)]
pub struct JType {
    pub op: u32,
    pub ad: u32,
}

/// A decoded instruction: one of the three forms.
#[derive(Debug, Clone, Copy, PartialEq, Eq)]
pub enum Instruction {
    Register(RType),
    Immediate(IType),
    Jump(JType),
}

/// Opcodes of the immediate form.
pub open spec fn is_immediate_opcode(op: nat) -> bool {
    op == 0x4 || op == 0x5 || op == 0x8 || op == 0x9 || op == 0xA || op == 0xC || op == 0xD
        || op == 0x23 || op == 0x2B
}

/// The register form read from the fields of `word`.
pub open spec fn register_form(word: u32) -> RType {
    RType {
        op: segment(word, Segment::Op) as u32,
        rs: segment(word, Segment::Rs) as u32,
        rt: segment(word, Segment::Rt) as u32,
        rd: segment(word, Segment::Rd) as u32,
        sh: segment(word, Segment::Sh) as u32,
        fun: segment(word, Segment::Funct) as u32,
    }
}

/// The immediate form read from the fields of `word`.
pub open spec fn immediate_form(word: u32) -> IType {
    IType {
        op: segment(word, Segment::Op) as u32,
        rs: segment(word, Segment::Rs) as u32,
        rt: segment(word, Segment::Rt) as u32,
        im: segment(word, Segment::Imm) as u32,
    }
}

/// The jump form read from the fields of `word`.
pub open spec fn jump_form(word: u32) -> JType {
    JType { op: segment(word, Segment::Op) as u32, ad: segment(word, Segment::Addr) as u32 }
}

/// What a machine word decodes to: the opcode selects the form, and an
/// opcode of no form is a fault.
pub open spec fn decode(word: u32) -> Result<Instruction, Fault> {
    let op = segment(word, Segment::Op);
    if op == 0 {
        Ok(Instruction::Register(register_form(word)))
    } else if op == 2 || op == 3 {
        Ok(Instruction::Jump(jump_form(word)))
    } else if is_immediate_opcode(op) {
        Ok(Instruction::Immediate(immediate_form(word)))
    } else {
        Err(Fault::UnknownOpcode { opcode: op as u32 })
    }
}

/// Every instruction that a word decodes to is well formed: its register
/// fields name registers, its shift amount is below 32 and its immediate
/// fits 16 bits.
pub proof fn lemma_decode_well_formed(word: u32)
    ensures
        decode(word) matches Ok(i) ==> i.wf(),
{
    lemma_segment_values(word);
}

/// Decodes a machine word into an instruction.
pub fn construct_inst(inst: u32) -> (r: Result<Instruction, Fault>)
    ensures
        r == decode(inst),
        r matches Ok(i) ==> i.wf(),
{
    proof {
        lemma_segment_values(inst);
    }
    let op = get_inst_seg(inst, Segment::Op);
    match op {
        0 => Ok(
            Instruction::Register(
                RType {
                    op,
                    rs: get_inst_seg(inst, Segment::Rs),
                    rt: get_inst_seg(inst, Segment::Rt),
                    rd: get_inst_seg(inst, Segment::Rd),
                    sh: get_inst_seg(inst, Segment::Sh),
                    fun: get_inst_seg(inst, Segment::Funct),
                },
            ),
        ),
        2 | 3 => Ok(Instruction::Jump(JType { op, ad: get_inst_seg(inst, Segment::Addr) })),
        0x4 | 0x5 | 0x8 | 0x9 | 0xA | 0xC | 0xD | 0x23 | 0x2B => Ok(
            Instruction::Immediate(
                IType {
                    op,
                    rs: get_inst_seg(inst, Segment::Rs),
                    rt: get_inst_seg(inst, Segment::Rt),
                    im: get_inst_seg(inst, Segment::Imm),
                },
            ),
        ),
        _ => Err(Fault::UnknownOpcode { opcode: op }),
    }
}

/// The word that holds the given register-form fields at their positions,
/// with opcode 0.
pub open spec fn register_word(rs: u32, rt: u32, rd: u32, sh: u32, fun: u32) -> u32 {
    (rs * 0x20_0000 + rt * 0x1_0000 + rd * 0x800 + sh * 0x40 + fun) as u32
}

/// Placing register-form fields in a word and decoding that word gives the
/// same fields back.
pub proof fn lemma_register_round_trip(rs: u32, rt: u32, rd: u32, sh: u32, fun: u32)
    requires
        rs < 32,
        rt < 32,
        rd < 32,
        sh < 32,
        fun < 64,
    ensures
        decode(register_word(rs, rt, rd, sh, fun)) == Ok::<Instruction, Fault>(
            Instruction::Register(RType { op: 0, rs, rt, rd, sh, fun }),
        ),
{
    let word = register_word(rs, rt, rd, sh, fun);
    lemma_segment_values(word);
    assert(word / 0x400_0000 == 0 && (word / 0x20_0000) % 32 == rs && (word / 0x1_0000) % 32 == rt
        && (word / 0x800) % 32 == rd && (word / 0x40) % 32 == sh && word % 64 == fun)
        by (bit_vector)
        requires
            rs < 32,
            rt < 32,
            rd < 32,
            sh < 32,
            fun < 64,
            word == rs * 0x20_0000 + rt * 0x1_0000 + rd * 0x800 + sh * 0x40 + fun,
    ;
}

/// The word that holds the given immediate-form fields at their positions.
pub open spec fn immediate_word(op: u32, rs: u32, rt: u32, im: u32) -> u32 {
    (op * 0x400_0000 + rs * 0x20_0000 + rt * 0x1_0000 + im) as u32
}

/// The word that holds the given jump-form fields at their positions.
pub open spec fn jump_word(op: u32, ad: u32) -> u32 {
    (op * 0x400_0000 + ad) as u32
}

/// Placing immediate-form fields in a word and decoding that word gives the
/// same fields back, for every opcode of the immediate form.
pub proof fn lemma_immediate_round_trip(op: u32, rs: u32, rt: u32, im: u32)
    requires
        is_immediate_opcode(op as nat),
        rs < 32,
        rt < 32,
        im < 0x1_0000,
    ensures
        decode(immediate_word(op, rs, rt, im)) == Ok::<Instruction, Fault>(
            Instruction::Immediate(IType { op, rs, rt, im }),
        ),
{
    let word = immediate_word(op, rs, rt, im);
    lemma_segment_values(word);
    assert(word / 0x400_0000 == op && (word / 0x20_0000) % 32 == rs && (word / 0x1_0000) % 32
        == rt && word % 0x1_0000 == im) by (bit_vector)
        requires
            op < 64,
            rs < 32,
            rt < 32,
            im < 0x1_0000,
            word == op * 0x400_0000 + rs * 0x20_0000 + rt * 0x1_0000 + im,
    ;
}

/// Placing jump-form fields in a word and decoding that word gives the same
/// fields back, for both jump opcodes.
pub proof fn lemma_jump_round_trip(op: u32, ad: u32)
    requires
        op == 2 || op == 3,
        ad < 0x400_0000,
    ensures
        decode(jump_word(op, ad)) == Ok::<Instruction, Fault>(
            Instruction::Jump(JType { op, ad }),
        ),
{
    lemma_segment_values(jump_word(op, ad));
}

} // verus!
