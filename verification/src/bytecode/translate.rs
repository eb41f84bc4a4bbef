//! The bytecode templates of the three assembly instructions.

use vstd::prelude::*;

use crate::bytecode::{Bytecode, Value};

verus! {

/// `li reg, imm`: push the immediate, pop it into the register.
pub fn convert_li(reg: u32, imm: i16) -> (r: Vec<Bytecode>)
    ensures
        r@ == seq![Bytecode::PUSH(Value::Immediate(imm)), Bytecode::SETO(Value::Register(reg))],
{
    let mut out: Vec<Bytecode> = Vec::new();
    out.push(Bytecode::PUSH(Value::Immediate(imm)));
    out.push(Bytecode::SETO(Value::Register(reg)));
    assert(out@ =~= seq![Bytecode::PUSH(Value::Immediate(imm)), Bytecode::SETO(Value::Register(reg))]);
    out
}

/// `add src, op1, op2`: push both operands, add them, pop the sum into `src`.
pub fn convert_add(src: u32, op1: u32, op2: u32) -> (r: Vec<Bytecode>)
    ensures
        r@ == seq![
            Bytecode::GETP(Value::Register(op1)),
            Bytecode::GETP(Value::Register(op2)),
            Bytecode::ADD,
            Bytecode::SETO(Value::Register(src)),
        ],
{
    let mut out: Vec<Bytecode> = Vec::new();
    out.push(Bytecode::GETP(Value::Register(op1)));
    out.push(Bytecode::GETP(Value::Register(op2)));
    out.push(Bytecode::ADD);
    out.push(Bytecode::SETO(Value::Register(src)));
    assert(out@ =~= seq![
        Bytecode::GETP(Value::Register(op1)),
        Bytecode::GETP(Value::Register(op2)),
        Bytecode::ADD,
        Bytecode::SETO(Value::Register(src)),
    ]);
    out
}

/// A jump to bytecode index `line`.
pub fn convert_jump(line: u32) -> (r: Vec<Bytecode>)
    ensures
        r@ == seq![Bytecode::JUMP(line)],
{
    let mut out: Vec<Bytecode> = Vec::new();
    out.push(Bytecode::JUMP(line));
    assert(out@ =~= seq![Bytecode::JUMP(line)]);
    out
}

} // verus!
