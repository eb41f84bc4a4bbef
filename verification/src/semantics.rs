//! What an assembly instruction means on the machine, and the law that its
//! lowered bytecode means the same.
//!
//! The stack is the only channel between the bytecode operations of one
//! instruction: once they have all run, the stack is as it was before.

use vstd::prelude::*;

use crate::bytecode::{
    lowerable, lowered, widened, AsmInstructionView, Bytecode, Value, WhereToView,
};
use crate::debug_table::{
    all_lowerable, lemma_range_holds_lowered, lemma_range_step, program_of, range_start,
};
use crate::error::VmError;
use crate::registers::{lemma_name_of_index, register_index, REGISTER_COUNT};
use crate::virtual_machine::{
    advanced, jumped, restorable, step_of, with_push, with_register, StepView, VmView,
};

verus! {

/// The state after `count` steps that ask nothing of the caller.  `None` where
/// one of them fails, stops the machine or asks for something.
pub open spec fn run_of(state: VmView, count: nat) -> Option<VmView>
    decreases count,
{
    if count == 0 {
        Some(state)
    } else {
        match step_of(state) {
            Ok((next, StepView::Continue)) => run_of(next, (count - 1) as nat),
            _ => None,
        }
    }
}

/// The state after `count` operations in a row were recorded in the trace and the
/// program counter moved behind them.
pub open spec fn advanced_by(state: VmView, count: nat) -> VmView
    decreases count,
{
    if count == 0 {
        state
    } else {
        advanced_by(advanced(state), (count - 1) as nat)
    }
}

/// The sum of two words, wrapped to 32 bits.
pub open spec fn wrapped_sum(a: u32, b: u32) -> u32 {
    ((a + b) % 0x1_0000_0000) as u32
}

/// What an instruction means: the state that it leaves behind.  `li` sets its
/// register to the immediate, `add` sets its destination to the wrapped sum of
/// its operands, and a jump sets the program counter.  Nothing else changes but
/// the trace, and the stack does not change at all.
pub open spec fn meaning(ins: AsmInstructionView, state: VmView) -> VmView
    recommends
        lowerable(ins),
{
    match ins {
        AsmInstructionView::LI(reg, imm) => advanced_by(
            VmView {
                registers: with_register(
                    state.registers,
                    register_index(reg).unwrap(),
                    widened(imm),
                ),
                ..state
            },
            2,
        ),
        AsmInstructionView::ADD(dst, op1, op2) => advanced_by(
            VmView {
                registers: with_register(
                    state.registers,
                    register_index(dst).unwrap(),
                    wrapped_sum(
                        state.registers[register_index(op1).unwrap() as int],
                        state.registers[register_index(op2).unwrap() as int],
                    ),
                ),
                ..state
            },
            4,
        ),
        AsmInstructionView::JUMP(WhereToView::Line(line)) => jumped(state, line),
        AsmInstructionView::JUMP(WhereToView::Label(_)) => state,
    }
}

/// Whether the program of `state` holds the bytecode of `ins` at the program
/// counter.
pub open spec fn holds_at_pc(state: VmView, ins: AsmInstructionView) -> bool {
    &&& state.pc + lowered(ins).len() <= state.program.len()
    &&& state.pc + lowered(ins).len() <= usize::MAX
    &&& state.program.subrange(state.pc as int, state.pc + lowered(ins).len()) == lowered(ins)
}

/// What the machine does in one step at a push of an immediate.
proof fn lemma_step_push(state: VmView, imm: i16)
    requires
        state.pc < state.program.len(),
        state.program[state.pc as int] == Bytecode::PUSH(Value::Immediate(imm)),
    ensures
        step_of(state) == Ok::<(VmView, StepView), VmError>(
            (advanced(with_push(state, widened(imm))), StepView::Continue),
        ),
{
}

/// What the machine does in one step at a push of a register.
proof fn lemma_step_getp(state: VmView, reg: u32)
    requires
        state.pc < state.program.len(),
        state.program[state.pc as int] == Bytecode::GETP(Value::Register(reg)),
        reg < REGISTER_COUNT,
    ensures
        step_of(state) == Ok::<(VmView, StepView), VmError>(
            (advanced(with_push(state, state.registers[reg as int])), StepView::Continue),
        ),
{
}

/// What the machine does in one step at a pop into a register.
proof fn lemma_step_seto(state: VmView, reg: u32)
    requires
        state.pc < state.program.len(),
        state.program[state.pc as int] == Bytecode::SETO(Value::Register(reg)),
        reg < REGISTER_COUNT,
        state.stack.len() > 0,
    ensures
        step_of(state) == Ok::<(VmView, StepView), VmError>(
            (
                advanced(
                    VmView {
                        stack: state.stack.drop_last(),
                        registers: with_register(state.registers, reg, state.stack.last()),
                        ..state
                    },
                ),
                StepView::Continue,
            ),
        ),
{
}

/// What the machine does in one step at an addition.
proof fn lemma_step_add(state: VmView)
    requires
        state.pc < state.program.len(),
        state.program[state.pc as int] == Bytecode::ADD,
        state.stack.len() >= 2,
    ensures
        step_of(state) == Ok::<(VmView, StepView), VmError>(
            (
                advanced(
                    VmView {
                        stack: state.stack.drop_last().drop_last().push(
                            wrapped_sum(state.stack.last(), state.stack[state.stack.len() - 2]),
                        ),
                        ..state
                    },
                ),
                StepView::Continue,
            ),
        ),
{
}

/// Running on after one step that asks nothing of the caller.
proof fn lemma_run_step(state: VmView, next: VmView, count: nat)
    requires
        step_of(state) == Ok::<(VmView, StepView), VmError>((next, StepView::Continue)),
    ensures
        run_of(state, count + 1) == run_of(next, count),
{
}

/// `li` is lowered faithfully.
proof fn lemma_li_is_faithful(state: VmView, reg: u32, imm: i16)
    requires
        reg < REGISTER_COUNT,
        state.pc + 2 <= state.program.len(),
        state.pc + 2 <= usize::MAX,
        state.program[state.pc as int] == Bytecode::PUSH(Value::Immediate(imm)),
        state.program[state.pc + 1] == Bytecode::SETO(Value::Register(reg)),
    ensures
        run_of(state, 2) == Some(
            advanced_by(
                VmView { registers: with_register(state.registers, reg, widened(imm)), ..state },
                2,
            ),
        ),
{
    let target = VmView { registers: with_register(state.registers, reg, widened(imm)), ..state };
    lemma_step_push(state, imm);
    let s1 = advanced(with_push(state, widened(imm)));
    lemma_step_seto(s1, reg);
    let s2 = advanced(
        VmView {
            stack: s1.stack.drop_last(),
            registers: with_register(s1.registers, reg, s1.stack.last()),
            ..s1
        },
    );
    lemma_run_step(state, s1, 1);
    lemma_run_step(s1, s2, 0);
    assert(s1.stack.drop_last() =~= state.stack);
    assert(advanced(target).pc == s1.pc);
    assert(s2 =~= advanced(advanced(target)));
    reveal_with_fuel(advanced_by, 3);
}

/// `add` is lowered faithfully.
proof fn lemma_add_is_faithful(state: VmView, dst: u32, op1: u32, op2: u32)
    requires
        dst < REGISTER_COUNT,
        op1 < REGISTER_COUNT,
        op2 < REGISTER_COUNT,
        state.pc + 4 <= state.program.len(),
        state.pc + 4 <= usize::MAX,
        state.program[state.pc as int] == Bytecode::GETP(Value::Register(op1)),
        state.program[state.pc + 1] == Bytecode::GETP(Value::Register(op2)),
        state.program[state.pc + 2] == Bytecode::ADD,
        state.program[state.pc + 3] == Bytecode::SETO(Value::Register(dst)),
    ensures
        run_of(state, 4) == Some(
            advanced_by(
                VmView {
                    registers: with_register(
                        state.registers,
                        dst,
                        wrapped_sum(state.registers[op1 as int], state.registers[op2 as int]),
                    ),
                    ..state
                },
                4,
            ),
        ),
{
    let first = state.registers[op1 as int];
    let second = state.registers[op2 as int];
    let sum = wrapped_sum(first, second);
    let target = VmView { registers: with_register(state.registers, dst, sum), ..state };
    lemma_step_getp(state, op1);
    let s1 = advanced(with_push(state, first));
    lemma_step_getp(s1, op2);
    let s2 = advanced(with_push(s1, second));
    lemma_step_add(s2);
    assert(s2.stack.last() == second);
    assert(s2.stack[s2.stack.len() - 2] == first);
    let s3 = advanced(
        VmView {
            stack: s2.stack.drop_last().drop_last().push(wrapped_sum(second, first)),
            ..s2
        },
    );
    assert(s2.stack.drop_last().drop_last() =~= state.stack);
    lemma_step_seto(s3, dst);
    let s4 = advanced(
        VmView {
            stack: s3.stack.drop_last(),
            registers: with_register(s3.registers, dst, s3.stack.last()),
            ..s3
        },
    );
    assert(s3.stack.drop_last() =~= state.stack);
    lemma_run_step(state, s1, 3);
    lemma_run_step(s1, s2, 2);
    lemma_run_step(s2, s3, 1);
    lemma_run_step(s3, s4, 0);
    assert(s4 =~= advanced(advanced(advanced(advanced(target)))));
    reveal_with_fuel(advanced_by, 5);
}

/// Lowering is faithful: running the bytecode that an instruction lowers to
/// leaves the machine in the state that the instruction means, with the stack as
/// it was before.
pub proof fn lemma_lowering_is_faithful(state: VmView, ins: AsmInstructionView)
    requires
        restorable(state),
        lowerable(ins),
        holds_at_pc(state, ins),
    ensures
        run_of(state, lowered(ins).len()) == Some(meaning(ins, state)),
        meaning(ins, state).stack == state.stack,
        meaning(ins, state).memory == state.memory,
        meaning(ins, state).program == state.program,
{
    let code = lowered(ins);
    let slice = state.program.subrange(state.pc as int, state.pc + code.len());
    assert forall|i: int| 0 <= i < code.len() implies state.program[state.pc + i] == code[i] by {
        assert(slice[i] == code[i]);
    }
    match ins {
        AsmInstructionView::LI(reg, imm) => {
            lemma_name_of_index(reg);
            assert(state.program[state.pc + 0] == code[0]);
            assert(state.program[state.pc + 1] == code[1]);
            lemma_li_is_faithful(state, register_index(reg).unwrap(), imm);
            reveal_with_fuel(advanced_by, 3);
        },
        AsmInstructionView::ADD(dst, op1, op2) => {
            lemma_name_of_index(dst);
            lemma_name_of_index(op1);
            lemma_name_of_index(op2);
            assert(state.program[state.pc + 0] == code[0]);
            assert(state.program[state.pc + 1] == code[1]);
            assert(state.program[state.pc + 2] == code[2]);
            assert(state.program[state.pc + 3] == code[3]);
            lemma_add_is_faithful(
                state,
                register_index(dst).unwrap(),
                register_index(op1).unwrap(),
                register_index(op2).unwrap(),
            );
            reveal_with_fuel(advanced_by, 5);
        },
        AsmInstructionView::JUMP(where_to) => {
            assert(state.program[state.pc + 0] == code[0]);
            reveal_with_fuel(run_of, 2);
        },
    }
}

/// Running `a` steps and then `b` more is running `a + b` steps.
pub proof fn lemma_run_additive(state: VmView, a: nat, b: nat)
    requires
        run_of(state, a) is Some,
    ensures
        run_of(state, a + b) == run_of(run_of(state, a).unwrap(), b),
    decreases a,
{
    if a > 0 {
        let next = step_of(state).unwrap().0;
        lemma_run_additive(next, (a - 1) as nat, b);
    }
}

/// What a sequence of instructions means: the meaning of each in turn.
pub open spec fn meaning_of_all(instructions: Seq<AsmInstructionView>, state: VmView) -> VmView
    decreases instructions.len(),
{
    if instructions.len() == 0 {
        state
    } else {
        meaning(instructions.last(), meaning_of_all(instructions.drop_last(), state))
    }
}

/// Whether a sequence of instructions runs from its first to its last: it can be
/// lowered and holds no jump.
pub open spec fn straight_line(instructions: Seq<AsmInstructionView>) -> bool {
    &&& all_lowerable(instructions)
    &&& forall|k: int| 0 <= k < instructions.len() ==> !((#[trigger] instructions[k]) is JUMP)
}

/// The instruction means a step forward by the length of its bytecode, and
/// changes neither program nor stack.
proof fn lemma_meaning_advances(ins: AsmInstructionView, state: VmView)
    requires
        restorable(state),
        lowerable(ins),
        !(ins is JUMP),
        state.pc + lowered(ins).len() <= usize::MAX,
    ensures
        meaning(ins, state).pc == state.pc + lowered(ins).len(),
        meaning(ins, state).program == state.program,
        meaning(ins, state).stack == state.stack,
        restorable(meaning(ins, state)),
{
    reveal_with_fuel(advanced_by, 5);
    match ins {
        AsmInstructionView::LI(reg, _) => {
            lemma_name_of_index(reg);
        },
        AsmInstructionView::ADD(dst, _, _) => {
            lemma_name_of_index(dst);
        },
        _ => {},
    }
}

/// A compiled straight-line program does what its instructions mean: started at
/// its beginning, the machine runs through the bytecode of the first `k`
/// instructions into the state that they mean, at the start of instruction `k`
/// and with the stack as it was.
pub proof fn lemma_program_is_faithful(
    state: VmView,
    instructions: Seq<AsmInstructionView>,
    k: int,
)
    requires
        restorable(state),
        straight_line(instructions),
        0 <= k <= instructions.len(),
        state.pc == 0,
        state.program == program_of(instructions).push(Bytecode::TERMINATOR),
        state.program.len() <= usize::MAX,
    ensures
        run_of(state, range_start(instructions, k)) == Some(
            meaning_of_all(instructions.take(k), state),
        ),
        meaning_of_all(instructions.take(k), state).pc == range_start(instructions, k),
        meaning_of_all(instructions.take(k), state).program == state.program,
        meaning_of_all(instructions.take(k), state).stack == state.stack,
        restorable(meaning_of_all(instructions.take(k), state)),
    decreases k,
{
    if k == 0 {
        assert(instructions.take(0) =~= Seq::<AsmInstructionView>::empty());
    } else {
        lemma_program_is_faithful(state, instructions, k - 1);
        let before = meaning_of_all(instructions.take(k - 1), state);
        let ins = instructions[k - 1];
        assert(instructions.take(k).drop_last() =~= instructions.take(k - 1));
        assert(instructions.take(k).last() == ins);
        assert(lowerable(ins));
        lemma_range_step(instructions, k - 1);
        lemma_range_holds_lowered(instructions, k - 1);
        let from = range_start(instructions, k - 1) as int;
        let to = range_start(instructions, k) as int;
        assert(state.program.subrange(from, to) =~= program_of(instructions).subrange(from, to));
        assert(holds_at_pc(before, ins));
        lemma_lowering_is_faithful(before, ins);
        lemma_meaning_advances(ins, before);
        lemma_run_additive(state, range_start(instructions, k - 1), lowered(ins).len());
    }
}

/// A compiled straight-line program runs to its terminator: after its last
/// instruction the machine reports the end of a program that did not exit, in the
/// state that the instructions mean.
pub proof fn lemma_program_ends_at_terminator(state: VmView, instructions: Seq<AsmInstructionView>)
    requires
        restorable(state),
        straight_line(instructions),
        state.pc == 0,
        state.program == program_of(instructions).push(Bytecode::TERMINATOR),
        state.program.len() <= usize::MAX,
    ensures
        run_of(state, program_of(instructions).len()) == Some(meaning_of_all(instructions, state)),
        step_of(meaning_of_all(instructions, state)) == Err::<(VmView, StepView), VmError>(
            VmError::EndedWithoutExit,
        ),
        meaning_of_all(instructions, state).stack == state.stack,
{
    let n = instructions.len() as int;
    lemma_program_is_faithful(state, instructions, n);
    assert(instructions.take(n) =~= instructions);
    if n > 0 {
        lemma_range_step(instructions, n - 1);
    }
}

} // verus!
