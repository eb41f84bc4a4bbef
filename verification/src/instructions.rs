//! The classic MIPS instruction formats, by mnemonic and operand fields.

use vstd::prelude::*;

use crate::registers::Register;

verus! {

/// The mnemonics of the MIPS integer instruction set.
#[allow(non_camel_case_types)]
#[derive(Debug, Clone, Copy, PartialEq, Eq, Structural)]
pub enum InstructionMnemonic {
    add,
    addi,
    addiu,
    addu,
    and,
    andi,
    beq,
    blez,
    bne,
    bgtz,
    div,
    divu,
    j,
    jal,
    jr,
    lb,
    lbu,
    lhu,
    lui,
    lw,
    mfhi,
    mthi,
    mflo,
    mtlo,
    mfc0,
    mult,
    multu,
    nor,
    xor,
    or,
    ori,
    sb,
    sh,
    slt,
    slti,
    sltiu,
    sltu,
    sll,
    srl,
    sra,
    sub,
    subu,
    sw,
}

/// A register-format instruction: two source registers and a destination.
pub struct RInstructions {
    mnemonic: InstructionMnemonic,
    rs: Register,
    rt: Register,
    rd: Register,
}

/// An immediate-format instruction: two registers and an immediate.
pub struct IInstructions {
    mnemonic: InstructionMnemonic,
    rs: Register,
    rt: Register,
    imm: u32,
}

/// A jump-format instruction: a target address.
pub struct JInstructions {
    mnemonic: InstructionMnemonic,
    addr: u32,
}

} // verus!
