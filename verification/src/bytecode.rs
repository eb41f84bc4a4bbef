//! The shared vocabulary: operand values, assembly instructions, bytecode, and the
//! lowering of one assembly instruction into its bytecode sequence.

use vstd::prelude::*;
use vstd::std_specs::cmp::PartialEqSpecImpl;

use crate::registers::{register_index, register_to_addr, same_text};

pub mod translate;

verus! {

/// An operand of a bytecode operation.
#[derive(Debug, Clone, Copy, PartialEq, Eq, Structural)]
pub enum Value {
    /// A register, by index.
    Register(u32),
    /// A 16-bit signed literal.
    Immediate(i16),
}

/// One atomic operation of the virtual machine.
#[derive(Debug, Clone, Copy, PartialEq, Eq, Structural)]
pub enum Bytecode {
    /// Pops a size and grows the memory store by that many bytes.
    ALLOC,
    DEBUG,
    /// End-of-program sentinel: no more operations to execute.
    TERMINATOR,
    /// Deliberate exit from the program.
    EXIT,
    HALT,
    /// Reads a line from the console.
    STDIN,
    /// Writes the console buffer out.
    STDOUT,
    /// Shows the runtime trace.
    STRACE,
    /// Hands out a snapshot of the machine.
    DUMP,
    /// Pushes a literal or a register's value.
    PUSH(Value),
    POP,
    /// Pushes a register's value.
    GETP(Value),
    /// Pops the top of the stack into a register.
    SETO(Value),
    /// Calls the host service whose code register `$v0` holds.
    SYSCALL,
    SET(Value),
    GET(Value),
    /// Pops two words and pushes their sum.
    ADD,
    /// Pops two words and pushes their difference: the word below the top minus
    /// the top.
    SUB,
    /// Continues at the given bytecode index.
    JUMP(u32),
}

/// The target of a jump: a label still to be resolved, or a bytecode index.
#[derive(Debug)]
pub enum WhereTo {
    Label(String),
    Line(u32),
}

/// What a [`WhereTo`] holds, as mathematical values.
pub enum WhereToView {
    Label(Seq<char>),
    Line(u32),
}

impl View for WhereTo {
    type V = WhereToView;

    open spec fn view(&self) -> WhereToView {
        match self {
            WhereTo::Label(label) => WhereToView::Label(label@),
            WhereTo::Line(line) => WhereToView::Line(*line),
        }
    }
}

impl Clone for WhereTo {
    fn clone(&self) -> (r: Self)
        ensures
            r == *self,
    {
        match self {
            WhereTo::Label(label) => WhereTo::Label(label.clone()),
            WhereTo::Line(line) => WhereTo::Line(*line),
        }
    }
}

impl PartialEq for WhereTo {
    fn eq(&self, other: &Self) -> (r: bool) {
        match self {
            WhereTo::Label(a) => match other {
                WhereTo::Label(b) => *a == *b,
                WhereTo::Line(_) => false,
            },
            WhereTo::Line(a) => match other {
                WhereTo::Label(_) => false,
                WhereTo::Line(b) => *a == *b,
            },
        }
    }
}

impl PartialEqSpecImpl for WhereTo {
    open spec fn obeys_eq_spec() -> bool {
        true
    }

    open spec fn eq_spec(&self, other: &Self) -> bool {
        self@ == other@
    }
}

impl WhereTo {
    /// The label of an unresolved target.
    pub fn lift_label(&self) -> (r: String)
        requires
            self is Label,
        ensures
            self@ == WhereToView::Label(r@),
    {
        match self {
            WhereTo::Label(label) => label.clone(),
            WhereTo::Line(_) => String::new(),
        }
    }

    /// The bytecode index of a resolved target.
    pub fn lift_line(&self) -> (r: u32)
        requires
            self is Line,
        ensures
            self@ == WhereToView::Line(r),
    {
        match self {
            WhereTo::Line(line) => *line,
            WhereTo::Label(_) => 0,
        }
    }
}

/// The 32-bit word that a 16-bit immediate widens to: its value, sign-extended.
pub open spec fn widened(imm: i16) -> u32 {
    if imm >= 0 {
        imm as u32
    } else {
        (imm + 0x1_0000_0000) as u32
    }
}

impl Value {
    /// The index of a register operand.
    pub fn lift_register(&self) -> (r: u32)
        requires
            self is Register,
        ensures
            *self == Value::Register(r),
    {
        match self {
            Value::Register(reg) => *reg,
            Value::Immediate(_) => 0,
        }
    }

    /// The machine word of an immediate operand.
    pub fn lift_immediate(&self) -> (r: u32)
        requires
            self is Immediate,
        ensures
            *self matches Value::Immediate(imm) && r == widened(imm),
    {
        match self {
            Value::Immediate(imm) => {
                if *imm >= 0 {
                    *imm as u32
                } else {
                    let wide: i64 = *imm as i64 + 0x1_0000_0000i64;
                    wide as u32
                }
            },
            Value::Register(_) => 0,
        }
    }
}

/// One parsed assembly line.  Register operands are canonical register names.
#[derive(Debug)]
pub enum AsmInstruction {
    /// Load an immediate into a register.
    LI(String, i16),
    /// Add two registers into a destination register: destination, first, second.
    ADD(String, String, String),
    /// Jump to a bytecode index.
    JUMP(WhereTo),
}

/// What an [`AsmInstruction`] holds, as mathematical values.
pub enum AsmInstructionView {
    LI(Seq<char>, i16),
    ADD(Seq<char>, Seq<char>, Seq<char>),
    JUMP(WhereToView),
}

impl View for AsmInstruction {
    type V = AsmInstructionView;

    open spec fn view(&self) -> AsmInstructionView {
        match self {
            AsmInstruction::LI(reg, imm) => AsmInstructionView::LI(reg@, *imm),
            AsmInstruction::ADD(dst, op1, op2) => AsmInstructionView::ADD(dst@, op1@, op2@),
            AsmInstruction::JUMP(where_to) => AsmInstructionView::JUMP(where_to@),
        }
    }
}

impl Clone for AsmInstruction {
    fn clone(&self) -> (r: Self)
        ensures
            r == *self,
    {
        match self {
            AsmInstruction::LI(reg, imm) => AsmInstruction::LI(reg.clone(), *imm),
            AsmInstruction::ADD(dst, op1, op2) => AsmInstruction::ADD(
                dst.clone(),
                op1.clone(),
                op2.clone(),
            ),
            AsmInstruction::JUMP(where_to) => AsmInstruction::JUMP(where_to.clone()),
        }
    }
}

impl PartialEq for AsmInstruction {
    fn eq(&self, other: &Self) -> (r: bool) {
        match self {
            AsmInstruction::LI(reg, imm) => match other {
                AsmInstruction::LI(reg2, imm2) => *reg == *reg2 && *imm == *imm2,
                _ => false,
            },
            AsmInstruction::ADD(dst, op1, op2) => match other {
                AsmInstruction::ADD(dst2, op12, op22) => *dst == *dst2 && *op1 == *op12 && *op2
                    == *op22,
                _ => false,
            },
            AsmInstruction::JUMP(where_to) => match other {
                AsmInstruction::JUMP(where_to2) => where_to == where_to2,
                _ => false,
            },
        }
    }
}

impl PartialEqSpecImpl for AsmInstruction {
    open spec fn obeys_eq_spec() -> bool {
        true
    }

    open spec fn eq_spec(&self, other: &Self) -> bool {
        self@ == other@
    }
}

/// Whether an instruction can be lowered: every register operand is a canonical
/// register name and a jump target is a bytecode index.
pub open spec fn lowerable(ins: AsmInstructionView) -> bool {
    match ins {
        AsmInstructionView::LI(reg, _) => register_index(reg) is Some,
        AsmInstructionView::ADD(dst, op1, op2) => {
            &&& register_index(dst) is Some
            &&& register_index(op1) is Some
            &&& register_index(op2) is Some
        },
        AsmInstructionView::JUMP(where_to) => where_to is Line,
    }
}

/// The bytecode that an instruction lowers to.
pub open spec fn lowered(ins: AsmInstructionView) -> Seq<Bytecode>
    recommends
        lowerable(ins),
{
    match ins {
        AsmInstructionView::LI(reg, imm) => seq![
            Bytecode::PUSH(Value::Immediate(imm)),
            Bytecode::SETO(Value::Register(register_index(reg).unwrap())),
        ],
        AsmInstructionView::ADD(dst, op1, op2) => seq![
            Bytecode::GETP(Value::Register(register_index(op1).unwrap())),
            Bytecode::GETP(Value::Register(register_index(op2).unwrap())),
            Bytecode::ADD,
            Bytecode::SETO(Value::Register(register_index(dst).unwrap())),
        ],
        AsmInstructionView::JUMP(where_to) => match where_to {
            WhereToView::Line(line) => seq![Bytecode::JUMP(line)],
            WhereToView::Label(_) => Seq::empty(),
        },
    }
}

/// The instruction that a mnemonic alone stands for, with empty register names
/// and a zero immediate; or the complaint about a mnemonic that stands for none.
pub open spec fn of_mnemonic(mnemonic: Seq<char>) -> Result<AsmInstructionView, Seq<char>> {
    if mnemonic == "li"@ {
        Ok(AsmInstructionView::LI(Seq::empty(), 0))
    } else if mnemonic == "add"@ {
        Ok(AsmInstructionView::ADD(Seq::empty(), Seq::empty(), Seq::empty()))
    } else {
        Err("invalid instruction: "@ + mnemonic)
    }
}

impl std::str::FromStr for AsmInstruction {
    type Err = String;

    /// The instruction of a mnemonic, its operands at their defaults.
    fn from_str(s: &str) -> (r: Result<Self, String>)
        ensures
            match r {
                Ok(instruction) => of_mnemonic(s@) == Ok::<AsmInstructionView, Seq<char>>(
                    instruction@,
                ),
                Err(complaint) => of_mnemonic(s@) == Err::<AsmInstructionView, Seq<char>>(
                    complaint@,
                ),
            },
    {
        AsmInstruction::from_mnemonic(s)
    }
}

impl AsmInstruction {
    /// The instruction of a mnemonic, its operands at their defaults.
    pub fn from_mnemonic(s: &str) -> (r: Result<AsmInstruction, String>)
        ensures
            match r {
                Ok(instruction) => of_mnemonic(s@) == Ok::<AsmInstructionView, Seq<char>>(
                    instruction@,
                ),
                Err(complaint) => of_mnemonic(s@) == Err::<AsmInstructionView, Seq<char>>(
                    complaint@,
                ),
            },
    {
        if same_text(s, "li") {
            Ok(AsmInstruction::LI(String::new(), 0))
        } else if same_text(s, "add") {
            Ok(AsmInstruction::ADD(String::new(), String::new(), String::new()))
        } else {
            Err(String::from_str("invalid instruction: ").concat(s))
        }
    }

    /// Whether [`AsmInstruction::to_bytecode`] accepts this instruction.
    pub fn is_lowerable(&self) -> (r: bool)
        ensures
            r == lowerable(self@),
    {
        match self {
            AsmInstruction::LI(reg, _) => register_to_addr(reg.clone()).is_some(),
            AsmInstruction::ADD(dst, op1, op2) => {
                register_to_addr(dst.clone()).is_some() && register_to_addr(op1.clone()).is_some()
                    && register_to_addr(op2.clone()).is_some()
            },
            AsmInstruction::JUMP(where_to) => match where_to {
                WhereTo::Line(_) => true,
                WhereTo::Label(_) => false,
            },
        }
    }

    /// Lowers the instruction into its bytecode sequence.
    pub fn to_bytecode(&self) -> (r: Vec<Bytecode>)
        requires
            lowerable(self@),
        ensures
            r@ == lowered(self@),
    {
        match self {
            AsmInstruction::LI(reg, imm) => {
                let reg_name = register_to_addr(reg.clone()).unwrap();
                translate::convert_li(reg_name, *imm)
            },
            AsmInstruction::ADD(src, op1, op2) => {
                let reg_name = register_to_addr(src.clone()).unwrap();
                let op1_name = register_to_addr(op1.clone()).unwrap();
                let op2_name = register_to_addr(op2.clone()).unwrap();
                translate::convert_add(reg_name, op1_name, op2_name)
            },
            AsmInstruction::JUMP(where_to) => translate::convert_jump(where_to.lift_line()),
        }
    }
}

/// Lowering depends on nothing but the instruction: two instructions that hold the
/// same operands lower to the same bytecode, of one, two or four operations.
pub proof fn lemma_lowering_deterministic(a: AsmInstruction, b: AsmInstruction)
    requires
        a@ == b@,
    ensures
        lowered(a@) == lowered(b@),
        lowerable(a@) == lowerable(b@),
{
}

/// A lowerable instruction occupies at least one and at most four bytecode slots.
pub proof fn lemma_lowered_len(ins: AsmInstructionView)
    requires
        lowerable(ins),
    ensures
        1 <= lowered(ins).len() <= 4,
{
}

} // verus!
