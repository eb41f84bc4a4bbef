//! The register-plus-stack machine: its state, the one-step transition that
//! executes the operation under the program counter, and snapshots of the whole
//! state.
//!
//! The machine performs no input or output itself.  Where an operation needs the
//! outside world, [`VirtualMachine::execute`] says so in the [`Step`] it returns,
//! and the caller does the work.

use std::collections::BTreeMap;
use vstd::arithmetic::div_mod::{lemma_fundamental_div_mod_converse, lemma_small_mod};
use vstd::prelude::*;
use vstd::slice::slice_to_vec;
use vstd::string::StringSliceAdditionalSpecFns;

use crate::bytecode::{lowered, widened, AsmInstruction, AsmInstructionView, Bytecode, Value};
use crate::debug_table::{
    all_lowerable, collapsed, program_of, pushed, recent_first, CompileDebugInfo, RuntimeDebugInfo,
    RuntimeDebugInfoView,
};
use crate::error::VmError;
use crate::memory::{zeros, MemTag, Memory, MemoryView};
use crate::registers::REGISTER_COUNT;

verus! {

/// The register that holds the service code of a `SYSCALL`: `$v0`.
pub const SERVICE_REGISTER: u32 = 2;

/// Service code of `SYSCALL` for writing the console buffer out.
pub const SERVICE_PRINT: u32 = 4;

/// Service code of `SYSCALL` for reading a line into the console buffer.
pub const SERVICE_READ: u32 = 8;

/// Service code of `SYSCALL` for leaving the program.
pub const SERVICE_EXIT: u32 = 10;

/// The operand stack: 32-bit words, last in, first out.
#[derive(Debug)]
pub struct Stack {
    data: Vec<u32>,
}

impl View for Stack {
    type V = Seq<u32>;

    closed spec fn view(&self) -> Seq<u32> {
        self.data@
    }
}

impl Stack {
    pub fn new() -> (stack: Stack)
        ensures
            stack@.len() == 0,
    {
        Stack { data: Vec::new() }
    }

    /// A stack that holds `data`, its last element on top.
    pub fn from_vec(data: Vec<u32>) -> (stack: Stack)
        ensures
            stack@ == data@,
    {
        Stack { data }
    }

    pub fn push(&mut self, value: u32)
        ensures
            final(self)@ == old(self)@.push(value),
    {
        self.data.push(value);
    }

    /// Takes the top word off, if there is one.
    pub fn pop(&mut self) -> (r: Option<u32>)
        ensures
            old(self)@.len() > 0 ==> r == Some(old(self)@.last()) && final(self)@ == old(self)@.drop_last(),
            old(self)@.len() == 0 ==> r.is_none() && final(self)@ == old(self)@,
    {
        let r = self.data.pop();
        assert(old(self)@.len() > 0 ==> self.data@ =~= old(self)@.drop_last());
        r
    }

    /// The top word, if there is one.
    pub fn peek(&self) -> (r: Option<&u32>)
        ensures
            self@.len() > 0 ==> r == Some(&self@.last()),
            self@.len() == 0 ==> r.is_none(),
    {
        if self.data.len() == 0 {
            None
        } else {
            Some(&self.data[self.data.len() - 1])
        }
    }

    /// Number of words on the stack.
    pub fn len(&self) -> (n: usize)
        ensures
            n == self@.len(),
    {
        self.data.len()
    }

    /// The words, bottom first.
    pub fn words(&self) -> (r: &Vec<u32>)
        ensures
            r@ == self@,
    {
        &self.data
    }
}

/// The channel that the console talks to.
#[derive(Debug, Clone, Copy, PartialEq, Eq, Structural)]
pub enum ConsoleLocation {
    Socket,
    Terminal,
}

impl Default for ConsoleLocation {
    fn default() -> (r: Self)
        ensures
            r == ConsoleLocation::Terminal,
    {
        ConsoleLocation::Terminal
    }
}

/// The console buffer and the channel that it is read from and written to.
#[derive(Debug)]
pub struct Console {
    console: Vec<u8>,
    location: ConsoleLocation,
}

/// What a [`Console`] holds, as mathematical values.
#[verifier::ext_equal]
pub struct ConsoleView {
    pub buffer: Seq<u8>,
    pub location: ConsoleLocation,
}

impl View for Console {
    type V = ConsoleView;

    closed spec fn view(&self) -> ConsoleView {
        ConsoleView { buffer: self.console@, location: self.location }
    }
}

impl Console {
    /// An empty console on the terminal.
    pub fn new() -> (console: Console)
        ensures
            console@.buffer.len() == 0,
            console@.location == ConsoleLocation::Terminal,
    {
        Console { console: Vec::new(), location: ConsoleLocation::Terminal }
    }

    /// A console with the given buffer and channel.
    pub fn from_parts(buffer: Vec<u8>, location: ConsoleLocation) -> (console: Console)
        ensures
            console@ == (ConsoleView { buffer: buffer@, location }),
    {
        Console { console: buffer, location }
    }

    pub fn set_location(&mut self, location: ConsoleLocation)
        ensures
            final(self)@ == (ConsoleView { location, ..old(self)@ }),
    {
        self.location = location;
    }

    /// The channel that the console talks to.
    pub fn location(&self) -> (r: ConsoleLocation)
        ensures
            r == self@.location,
    {
        self.location
    }

    /// Takes a line that was read from the console's channel: its bytes become
    /// the console buffer.
    pub fn read_from_console(&mut self, input: &str)
        ensures
            final(self)@ == (ConsoleView { buffer: input.spec_bytes(), ..old(self)@ }),
    {
        self.console = slice_to_vec(input.as_bytes());
    }

    /// The buffered bytes, for the caller to write to the console's channel.
    pub fn write_to_console(&self) -> (r: Vec<u8>)
        ensures
            r@ == self@.buffer,
    {
        let r = self.console.clone();
        assert(r@ =~= self.console@);
        r
    }
}

/// The state of a machine, as mathematical values.
#[verifier::ext_equal]
pub struct VmView {
    /// The register file, by index; register 0 holds zero.
    pub registers: Seq<u32>,
    pub memory: MemoryView,
    /// Index of the operation to execute next.
    pub pc: usize,
    pub program: Seq<Bytecode>,
    /// The operand stack, its last element on top.
    pub stack: Seq<u32>,
    pub console: ConsoleView,
    pub debug: RuntimeDebugInfoView,
}

/// What a machine has to hold: a full register file whose register 0 is zero, a
/// trace within its bound, and debug info of instructions that can be lowered to a
/// program that an index can count.
pub open spec fn restorable(state: VmView) -> bool {
    &&& state.registers.len() == REGISTER_COUNT
    &&& state.registers[0] == 0
    &&& all_lowerable(state.debug.instructions)
    &&& program_of(state.debug.instructions).len() <= usize::MAX
    &&& 0 < state.debug.max_trace
    &&& state.debug.trace.len() <= state.debug.max_trace
}

/// The layout of snapshots that this library writes and reads.
pub const SNAPSHOT_SCHEMA: u32 = 1;

/// An owned copy of a machine's whole state, with no tie to the machine it was
/// taken from.  This is what gets persisted.
#[derive(Debug)]
pub struct VmSnapshot {
    /// The layout of this snapshot: [`SNAPSHOT_SCHEMA`] for one that can be loaded.
    pub schema: u32,
    pub registers: Vec<u32>,
    pub memory: Vec<u8>,
    pub memory_tags: BTreeMap<usize, Option<MemTag>>,
    pub pc: usize,
    pub program: Vec<Bytecode>,
    pub stack: Vec<u32>,
    pub console: Vec<u8>,
    pub location: ConsoleLocation,
    /// The source instructions of the debug info.
    pub instructions: Vec<AsmInstruction>,
    pub max_trace: usize,
    pub stack_trace: Vec<usize>,
}

impl View for VmSnapshot {
    type V = VmView;

    open spec fn view(&self) -> VmView {
        VmView {
            registers: self.registers@,
            memory: MemoryView { data: self.memory@, tags: self.memory_tags@ },
            pc: self.pc,
            program: self.program@,
            stack: self.stack@,
            console: ConsoleView { buffer: self.console@, location: self.location },
            debug: RuntimeDebugInfoView {
                instructions: self.instructions@.map_values(|i: AsmInstruction| i@),
                max_trace: self.max_trace,
                trace: self.stack_trace@,
            },
        }
    }
}

/// What a step asks of the caller.
#[derive(Debug)]
pub enum Step {
    /// Nothing: fetch the next operation.
    Continue,
    /// The program left through `EXIT`: stop.
    Exit,
    /// The program stopped at `HALT`: stop.
    Halt,
    /// Persist this snapshot, taken before the step, then go on.
    Dump(VmSnapshot),
    /// Read a line from this channel, hand it to
    /// [`VirtualMachine::read_from_console`], then go on.
    ReadConsole(ConsoleLocation),
    /// Write these bytes to this channel, then go on.
    WriteConsole(ConsoleLocation, Vec<u8>),
    /// Show this trace, each source instruction with its bytecode, then go on.
    Trace(Vec<(AsmInstruction, Vec<Bytecode>)>),
}

/// What a [`Step`] holds, as mathematical values.
#[verifier::ext_equal]
pub enum StepView {
    Continue,
    Exit,
    Halt,
    Dump(VmView),
    ReadConsole(ConsoleLocation),
    WriteConsole(ConsoleLocation, Seq<u8>),
    Trace(Seq<AsmInstructionView>),
}

impl View for Step {
    type V = StepView;

    open spec fn view(&self) -> StepView {
        match self {
            Step::Continue => StepView::Continue,
            Step::Exit => StepView::Exit,
            Step::Halt => StepView::Halt,
            Step::Dump(snapshot) => StepView::Dump(snapshot@),
            Step::ReadConsole(location) => StepView::ReadConsole(*location),
            Step::WriteConsole(location, bytes) => StepView::WriteConsole(*location, bytes@),
            Step::Trace(shown) => StepView::Trace(
                shown@.map_values(|line: (AsmInstruction, Vec<Bytecode>)| line.0@),
            ),
        }
    }
}

/// The state after an operation that neither branched nor stopped: its index joins
/// the trace and the program counter moves on by one.
pub open spec fn advanced(state: VmView) -> VmView {
    VmView {
        pc: (state.pc + 1) as usize,
        debug: RuntimeDebugInfoView {
            trace: pushed(state.debug.trace, state.debug.max_trace, state.pc),
            ..state.debug
        },
        ..state
    }
}

/// The state after a jump to `target`: the jump's index joins the trace.
pub open spec fn jumped(state: VmView, target: u32) -> VmView {
    VmView {
        pc: target as usize,
        debug: RuntimeDebugInfoView {
            trace: pushed(state.debug.trace, state.debug.max_trace, state.pc),
            ..state.debug
        },
        ..state
    }
}

/// `state` with `value` pushed on the stack.
pub open spec fn with_push(state: VmView, value: u32) -> VmView {
    VmView { stack: state.stack.push(value), ..state }
}

/// `registers` after a write of `value` to register `reg`: a write to register 0
/// is discarded.
pub open spec fn with_register(registers: Seq<u32>, reg: u32, value: u32) -> Seq<u32> {
    if reg == 0 {
        registers
    } else {
        registers.update(reg as int, value)
    }
}

/// What a `SYSCALL` does with service code `code`.
pub open spec fn service_of(state: VmView, code: u32) -> Result<(VmView, StepView), VmError> {
    if code == SERVICE_PRINT {
        Ok((advanced(state), StepView::WriteConsole(state.console.location, state.console.buffer)))
    } else if code == SERVICE_READ {
        Ok((advanced(state), StepView::ReadConsole(state.console.location)))
    } else if code == SERVICE_EXIT {
        Ok((state, StepView::Exit))
    } else {
        Err(VmError::UnsupportedOpcode)
    }
}

/// One step of a machine in `state`: the next state with what the caller is asked
/// to do, or the error that stops the machine.
pub open spec fn step_of(state: VmView) -> Result<(VmView, StepView), VmError>
    recommends
        restorable(state),
{
    if state.pc >= state.program.len() {
        Err(VmError::ProgramCounterOutOfBounds)
    } else {
        match state.program[state.pc as int] {
            Bytecode::PUSH(Value::Immediate(imm)) => Ok(
                (advanced(with_push(state, widened(imm))), StepView::Continue),
            ),
            Bytecode::PUSH(Value::Register(reg)) | Bytecode::GETP(Value::Register(reg)) => if reg
                < REGISTER_COUNT {
                Ok((advanced(with_push(state, state.registers[reg as int])), StepView::Continue))
            } else {
                Err(VmError::InvalidRegister)
            },
            Bytecode::SETO(Value::Register(reg)) => if state.stack.len() == 0 {
                Err(VmError::StackUnderflow)
            } else if reg >= REGISTER_COUNT {
                Err(VmError::InvalidRegister)
            } else {
                Ok(
                    (
                        advanced(
                            VmView {
                                stack: state.stack.drop_last(),
                                registers: with_register(state.registers, reg, state.stack.last()),
                                ..state
                            },
                        ),
                        StepView::Continue,
                    ),
                )
            },
            Bytecode::ADD => if state.stack.len() < 2 {
                Err(VmError::StackUnderflow)
            } else {
                let op1 = state.stack.last();
                let op2 = state.stack[state.stack.len() - 2];
                Ok(
                    (
                        advanced(
                            VmView {
                                stack: state.stack.drop_last().drop_last().push(
                                    ((op1 + op2) % 0x1_0000_0000) as u32,
                                ),
                                ..state
                            },
                        ),
                        StepView::Continue,
                    ),
                )
            },
            Bytecode::SUB => if state.stack.len() < 2 {
                Err(VmError::StackUnderflow)
            } else {
                let op1 = state.stack.last();
                let op2 = state.stack[state.stack.len() - 2];
                Ok(
                    (
                        advanced(
                            VmView {
                                stack: state.stack.drop_last().drop_last().push(
                                    ((op2 - op1) % 0x1_0000_0000) as u32,
                                ),
                                ..state
                            },
                        ),
                        StepView::Continue,
                    ),
                )
            },
            Bytecode::JUMP(target) => Ok((jumped(state, target), StepView::Continue)),
            Bytecode::TERMINATOR => Err(VmError::EndedWithoutExit),
            Bytecode::EXIT => Ok((state, StepView::Exit)),
            Bytecode::HALT => Ok((state, StepView::Halt)),
            Bytecode::DUMP => Ok((advanced(state), StepView::Dump(state))),
            Bytecode::STDIN => Ok((advanced(state), StepView::ReadConsole(state.console.location))),
            Bytecode::STDOUT => Ok(
                (
                    advanced(state),
                    StepView::WriteConsole(state.console.location, state.console.buffer),
                ),
            ),
            Bytecode::STRACE => Ok(
                (
                    advanced(state),
                    StepView::Trace(
                        collapsed(recent_first(state.debug.instructions, state.debug.trace)),
                    ),
                ),
            ),
            Bytecode::SYSCALL => service_of(state, state.registers[SERVICE_REGISTER as int]),
            Bytecode::ALLOC => if state.stack.len() == 0 {
                Err(VmError::StackUnderflow)
            } else if state.memory.data.len() + state.stack.last() > usize::MAX {
                Err(VmError::AddressingError)
            } else {
                Ok(
                    (
                        advanced(
                            VmView {
                                stack: state.stack.drop_last(),
                                memory: MemoryView {
                                    data: state.memory.data + zeros(state.stack.last() as nat),
                                    ..state.memory
                                },
                                ..state
                            },
                        ),
                        StepView::Continue,
                    ),
                )
            },
            _ => Err(VmError::UnsupportedOpcode),
        }
    }
}

/// A machine: registers, memory, operand stack, program with its counter,
/// console, and the trace of what was executed.
#[derive(Debug)]
pub struct VirtualMachine {
    registers: [u32; 34],
    memory: Memory,
    pc: usize,
    program: Vec<Bytecode>,
    stack: Stack,
    console: Console,
    runtime_dbg: RuntimeDebugInfo,
}

impl View for VirtualMachine {
    type V = VmView;

    closed spec fn view(&self) -> VmView {
        VmView {
            registers: self.registers@,
            memory: self.memory@,
            pc: self.pc,
            program: self.program@,
            stack: self.stack@,
            console: self.console@,
            debug: self.runtime_dbg@,
        }
    }
}

impl VirtualMachine {
    /// Register 0 holds zero and the trace is consistent.
    pub closed spec fn wf(&self) -> bool {
        &&& self.registers[0] == 0
        &&& self.runtime_dbg.wf()
    }

    /// A machine with every register zero, the program counter at zero, and
    /// nothing in program, memory, stack, console or trace.
    pub fn new() -> (vm: VirtualMachine)
        ensures
            vm.wf(),
            vm@.registers == Seq::new(REGISTER_COUNT as nat, |i: int| 0u32),
            vm@.memory.data.len() == 0,
            vm@.memory.tags == Map::<usize, Option<MemTag>>::empty(),
            vm@.pc == 0,
            vm@.program.len() == 0,
            vm@.stack.len() == 0,
            vm@.console.buffer.len() == 0,
            vm@.console.location == ConsoleLocation::Terminal,
            vm@.debug.instructions.len() == 0,
            vm@.debug.trace.len() == 0,
            vm@.debug.max_trace == crate::debug_table::DEFAULT_MAX_TRACE,
    {
        let vm = VirtualMachine {
            registers: [0u32; 34],
            memory: Memory::new(),
            pc: 0,
            program: Vec::new(),
            stack: Stack::new(),
            console: Console::new(),
            runtime_dbg: RuntimeDebugInfo::new(),
        };
        assert(vm.registers@ =~= Seq::new(REGISTER_COUNT as nat, |i: int| 0u32));
        vm
    }

    /// Loads a memory image and a program.
    pub fn init(&mut self, mem: Vec<u8>, program: Vec<Bytecode>)
        requires
            old(self).wf(),
        ensures
            final(self).wf(),
            final(self)@ == (VmView {
                memory: MemoryView { data: mem@, tags: Map::empty() },
                program: program@,
                ..old(self)@
            }),
    {
        self.memory = Memory::from_bytes(mem);
        self.program = program;
    }

    /// Replaces the program.
    pub fn set_program(&mut self, program: Vec<Bytecode>)
        requires
            old(self).wf(),
        ensures
            final(self).wf(),
            final(self)@ == (VmView { program: program@, ..old(self)@ }),
    {
        self.program = program;
    }

    /// Starts a fresh trace that resolves through `debug`.
    pub fn setup_debug(&mut self, debug: CompileDebugInfo)
        requires
            old(self).wf(),
            debug.wf(),
        ensures
            final(self).wf(),
            final(self)@ == (VmView {
                debug: RuntimeDebugInfoView {
                    instructions: debug@,
                    max_trace: crate::debug_table::DEFAULT_MAX_TRACE,
                    trace: Seq::empty(),
                },
                ..old(self)@
            }),
    {
        self.runtime_dbg = RuntimeDebugInfo::new();
        self.runtime_dbg.attach_compile_debug_info(debug);
    }

    /// The register file, by index.
    pub fn registers(&self) -> (r: &[u32; 34])
        ensures
            r@ == self@.registers,
    {
        &self.registers
    }

    /// Index of the operation to execute next.
    pub fn pc(&self) -> (r: usize)
        ensures
            r == self@.pc,
    {
        self.pc
    }

    /// The loaded program.
    pub fn program(&self) -> (r: &Vec<Bytecode>)
        ensures
            r@ == self@.program,
    {
        &self.program
    }

    /// The operand stack.
    pub fn stack(&self) -> (r: &Stack)
        ensures
            r@ == self@.stack,
    {
        &self.stack
    }

    /// The memory store.
    pub fn memory(&self) -> (r: &Memory)
        ensures
            r@ == self@.memory,
    {
        &self.memory
    }

    /// The trace of what was executed, with the debug info that resolves it.
    pub fn runtime_dbg(&self) -> (r: &RuntimeDebugInfo)
        requires
            self.wf(),
        ensures
            r.wf(),
            r@ == self@.debug,
    {
        &self.runtime_dbg
    }

    /// The console.
    pub fn console(&self) -> (r: &Console)
        ensures
            r@ == self@.console,
    {
        &self.console
    }

    /// Writes `value` to register `reg`.  A write to register 0 is discarded.
    pub fn reg_set(&mut self, reg: u32, value: u32) -> (r: Result<(), VmError>)
        requires
            old(self).wf(),
        ensures
            final(self).wf(),
            reg < REGISTER_COUNT ==> r is Ok && final(self)@ == (VmView {
                registers: with_register(old(self)@.registers, reg, value),
                ..old(self)@
            }),
            reg >= REGISTER_COUNT ==> r == Err::<(), VmError>(VmError::InvalidRegister) && final(self)@ == old(self)@,
    {
        if reg >= REGISTER_COUNT {
            return Err(VmError::InvalidRegister);
        }
        if reg != 0 {
            self.registers[reg as usize] = value;
        }
        Ok(())
    }

    /// The value of register `reg`.  Register 0 always reads zero.
    pub fn reg_get(&self, reg: u32) -> (r: Result<u32, VmError>)
        requires
            self.wf(),
        ensures
            reg < REGISTER_COUNT ==> r == Ok::<u32, VmError>(self@.registers[reg as int]),
            reg >= REGISTER_COUNT ==> r == Err::<u32, VmError>(VmError::InvalidRegister),
            reg == 0 ==> r == Ok::<u32, VmError>(0),
    {
        if reg >= REGISTER_COUNT {
            return Err(VmError::InvalidRegister);
        }
        Ok(self.registers[reg as usize])
    }

    /// Takes a line that was read from the console's channel into the console
    /// buffer.
    pub fn read_from_console(&mut self, input: &str)
        requires
            old(self).wf(),
        ensures
            final(self).wf(),
            final(self)@ == (VmView {
                console: ConsoleView { buffer: input.spec_bytes(), ..old(self)@.console },
                ..old(self)@
            }),
    {
        self.console.read_from_console(input);
    }

    /// The console buffer, for the caller to write to the console's channel.
    pub fn write_to_console(&self) -> (r: Vec<u8>)
        ensures
            r@ == self@.console.buffer,
    {
        self.console.write_to_console()
    }

    /// A snapshot of the machine's whole state.
    pub fn dump(&self) -> (snapshot: VmSnapshot)
        requires
            self.wf(),
        ensures
            snapshot@ == self@,
            snapshot.schema == SNAPSHOT_SCHEMA,
    {
        let mut registers: Vec<u32> = Vec::new();
        let mut i: usize = 0;
        while i < 34
            invariant
                i <= 34,
                registers@.len() == i,
                forall|k: int| 0 <= k < i ==> registers@[k] == self.registers@[k],
            decreases 34 - i,
        {
            registers.push(self.registers[i]);
            i += 1;
        }
        let memory = self.memory.bytes().clone();
        let program = self.program.clone();
        let stack = self.stack.words().clone();
        let stack_trace = self.runtime_dbg.stack_trace().clone();
        let snapshot = VmSnapshot {
            schema: SNAPSHOT_SCHEMA,
            registers,
            memory,
            memory_tags: self.memory.tags().clone(),
            pc: self.pc,
            program,
            stack,
            console: self.console.write_to_console(),
            location: self.console.location(),
            instructions: self.runtime_dbg.compile_debug_info().instructions(),
            max_trace: self.runtime_dbg.max_trace(),
            stack_trace,
        };
        assert(snapshot.registers@ =~= self.registers@);
        assert(snapshot.memory@ =~= self@.memory.data);
        assert(snapshot.program@ =~= self.program@);
        assert(snapshot.stack@ =~= self.stack@);
        assert(snapshot.stack_trace@ =~= self@.debug.trace);
        assert(snapshot@ =~= self@);
        snapshot
    }

    /// The machine that a snapshot describes, or a serialization error where the
    /// snapshot is of another layout or does not describe a machine.
    pub fn load(snapshot: VmSnapshot) -> (r: Result<VirtualMachine, VmError>)
        ensures
            loads_as(snapshot.schema, snapshot@, r),
    {
        if snapshot.schema != SNAPSHOT_SCHEMA {
            return Err(VmError::SerializationError);
        }
        if snapshot.registers.len() != 34 || snapshot.registers[0] != 0 {
            return Err(VmError::SerializationError);
        }
        let mut registers = [0u32; 34];
        let mut i: usize = 0;
        while i < 34
            invariant
                i <= 34,
                snapshot.registers@.len() == 34,
                forall|k: int| 0 <= k < i ==> registers@[k] == snapshot.registers@[k],
            decreases 34 - i,
        {
            registers[i] = snapshot.registers[i];
            i += 1;
        }
        assert(registers@ =~= snapshot.registers@);
        let compile_debug_info = match CompileDebugInfo::checked_new(snapshot.instructions) {
            Some(info) => info,
            None => {
                return Err(VmError::SerializationError);
            },
        };
        let runtime_dbg = match RuntimeDebugInfo::from_parts(
            compile_debug_info,
            snapshot.max_trace,
            snapshot.stack_trace,
        ) {
            Some(info) => info,
            None => {
                return Err(VmError::SerializationError);
            },
        };
        let vm = VirtualMachine {
            registers,
            memory: Memory::from_parts(snapshot.memory, snapshot.memory_tags),
            pc: snapshot.pc,
            program: snapshot.program,
            stack: Stack::from_vec(snapshot.stack),
            console: Console::from_parts(snapshot.console, snapshot.location),
            runtime_dbg,
        };
        assert(vm@ =~= snapshot@);
        Ok(vm)
    }

    /// Records the operation under the program counter in the trace and moves
    /// the program counter on by one.
    fn advance(&mut self)
        requires
            old(self).wf(),
            old(self)@.pc < old(self)@.program.len(),
        ensures
            final(self).wf(),
            final(self)@ == advanced(old(self)@),
    {
        let len = self.program.len();
        self.runtime_dbg.push_stack_trace(self.pc);
        assert(self.pc < len);
        self.pc += 1;
    }

    /// Pushes `value` and moves on.
    fn push_and_advance(&mut self, value: u32)
        requires
            old(self).wf(),
            old(self)@.pc < old(self)@.program.len(),
        ensures
            final(self).wf(),
            final(self)@ == advanced(with_push(old(self)@, value)),
    {
        self.stack.push(value);
        self.advance();
    }

    /// Pops two words, pushes `result` in their place and moves on.
    fn replace_two_and_advance(&mut self, result: u32)
        requires
            old(self).wf(),
            old(self)@.pc < old(self)@.program.len(),
            old(self)@.stack.len() >= 2,
        ensures
            final(self).wf(),
            final(self)@ == advanced(
                VmView {
                    stack: old(self)@.stack.drop_last().drop_last().push(result),
                    ..old(self)@
                },
            ),
    {
        self.stack.pop();
        self.stack.pop();
        self.stack.push(result);
        self.advance();
    }

    /// Asks the caller to write the console buffer out, and moves on.
    fn write_and_advance(&mut self) -> (step: Step)
        requires
            old(self).wf(),
            old(self)@.pc < old(self)@.program.len(),
        ensures
            final(self).wf(),
            final(self)@ == advanced(old(self)@),
            step@ == StepView::WriteConsole(
                old(self)@.console.location,
                old(self)@.console.buffer,
            ),
    {
        let step = Step::WriteConsole(self.console.location(), self.console.write_to_console());
        self.advance();
        step
    }

    /// Asks the caller to read a line from the console, and moves on.
    fn read_and_advance(&mut self) -> (step: Step)
        requires
            old(self).wf(),
            old(self)@.pc < old(self)@.program.len(),
        ensures
            final(self).wf(),
            final(self)@ == advanced(old(self)@),
            step@ == StepView::ReadConsole(old(self)@.console.location),
    {
        let step = Step::ReadConsole(self.console.location());
        self.advance();
        step
    }

    /// Executes the operation under the program counter.
    ///
    /// On success the machine is in the next state and the result says what the
    /// caller has to do before the next step.  On failure the machine is as it
    /// was; the caller shows [`RuntimeDebugInfo::render`] and stops.
    pub fn execute(&mut self) -> (r: Result<Step, VmError>)
        requires
            old(self).wf(),
        ensures
            final(self).wf(),
            match r {
                Ok(step) => {
                    &&& step_of(old(self)@) is Ok
                    &&& final(self)@ == step_of(old(self)@).unwrap().0
                    &&& step@ == step_of(old(self)@).unwrap().1
                    &&& step matches Step::Dump(snapshot) ==> snapshot.schema == SNAPSHOT_SCHEMA
                    &&& step matches Step::Trace(shown) ==> forall|j: int|
                        0 <= j < shown@.len() ==> (#[trigger] shown@[j]).1@ == lowered(
                            shown@[j].0@,
                        )
                },
                Err(e) => step_of(old(self)@) == Err::<(VmView, StepView), VmError>(e) && final(self)@ == old(self)@,
            },
    {
        if self.pc >= self.program.len() {
            return Err(VmError::ProgramCounterOutOfBounds);
        }
        let current = self.program[self.pc];
        match current {
            Bytecode::PUSH(Value::Immediate(imm)) => {
                self.push_and_advance(Value::Immediate(imm).lift_immediate());
                Ok(Step::Continue)
            },
            Bytecode::PUSH(Value::Register(reg)) | Bytecode::GETP(Value::Register(reg)) => {
                match self.reg_get(reg) {
                    Ok(value) => {
                        self.push_and_advance(value);
                        Ok(Step::Continue)
                    },
                    Err(e) => Err(e),
                }
            },
            Bytecode::SETO(Value::Register(reg)) => {
                if self.stack.len() == 0 {
                    return Err(VmError::StackUnderflow);
                }
                if reg >= REGISTER_COUNT {
                    return Err(VmError::InvalidRegister);
                }
                let value = self.stack.pop().unwrap();
                let _ = self.reg_set(reg, value);
                self.advance();
                Ok(Step::Continue)
            },
            Bytecode::ADD => {
                let depth = self.stack.len();
                if depth < 2 {
                    return Err(VmError::StackUnderflow);
                }
                let op1 = self.stack.words()[depth - 1];
                let op2 = self.stack.words()[depth - 2];
                let sum = op1.wrapping_add(op2);
                assert(sum == ((op1 + op2) % 0x1_0000_0000) as u32) by {
                    lemma_wrapping_add(op1, op2);
                }
                self.replace_two_and_advance(sum);
                Ok(Step::Continue)
            },
            Bytecode::SUB => {
                let depth = self.stack.len();
                if depth < 2 {
                    return Err(VmError::StackUnderflow);
                }
                let op1 = self.stack.words()[depth - 1];
                let op2 = self.stack.words()[depth - 2];
                let difference = op2.wrapping_sub(op1);
                assert(difference == ((op2 - op1) % 0x1_0000_0000) as u32) by {
                    lemma_wrapping_sub(op2, op1);
                }
                self.replace_two_and_advance(difference);
                Ok(Step::Continue)
            },
            Bytecode::JUMP(target) => {
                self.runtime_dbg.push_stack_trace(self.pc);
                self.pc = target as usize;
                Ok(Step::Continue)
            },
            Bytecode::TERMINATOR => Err(VmError::EndedWithoutExit),
            Bytecode::EXIT => Ok(Step::Exit),
            Bytecode::HALT => Ok(Step::Halt),
            Bytecode::DUMP => {
                let snapshot = self.dump();
                self.advance();
                Ok(Step::Dump(snapshot))
            },
            Bytecode::STDIN => Ok(self.read_and_advance()),
            Bytecode::STDOUT => Ok(self.write_and_advance()),
            Bytecode::STRACE => {
                let shown = self.runtime_dbg.render();
                assert(shown@.map_values(|line: (AsmInstruction, Vec<Bytecode>)| line.0@)
                    =~= collapsed(recent_first(self@.debug.instructions, self@.debug.trace)));
                self.advance();
                Ok(Step::Trace(shown))
            },
            Bytecode::SYSCALL => {
                let code = self.registers[SERVICE_REGISTER as usize];
                if code == SERVICE_PRINT {
                    Ok(self.write_and_advance())
                } else if code == SERVICE_READ {
                    Ok(self.read_and_advance())
                } else if code == SERVICE_EXIT {
                    Ok(Step::Exit)
                } else {
                    Err(VmError::UnsupportedOpcode)
                }
            },
            Bytecode::ALLOC => {
                let depth = self.stack.len();
                if depth == 0 {
                    return Err(VmError::StackUnderflow);
                }
                let size = self.stack.words()[depth - 1];
                if self.memory.last().checked_add(size as usize).is_none() {
                    return Err(VmError::AddressingError);
                }
                self.stack.pop();
                let _ = self.memory.grow(size as usize);
                self.advance();
                Ok(Step::Continue)
            },
            _ => Err(VmError::UnsupportedOpcode),
        }
    }
}

/// Wrapping addition of 32-bit words is addition modulo 2^32.
proof fn lemma_wrapping_add(a: u32, b: u32)
    ensures
        a.wrapping_add(b) == ((a + b) % 0x1_0000_0000) as u32,
{
    if a + b > u32::MAX {
        lemma_fundamental_div_mod_converse(
            a + b,
            0x1_0000_0000,
            1,
            a + b - 0x1_0000_0000,
        );
    } else {
        lemma_small_mod((a + b) as nat, 0x1_0000_0000);
    }
}

/// Wrapping subtraction of 32-bit words is subtraction modulo 2^32.
proof fn lemma_wrapping_sub(a: u32, b: u32)
    ensures
        a.wrapping_sub(b) == ((a - b) % 0x1_0000_0000) as u32,
{
    if a - b < 0 {
        lemma_fundamental_div_mod_converse(
            a - b,
            0x1_0000_0000,
            -1,
            a - b + 0x1_0000_0000,
        );
    } else {
        lemma_small_mod((a - b) as nat, 0x1_0000_0000);
    }
}

/// What loading a snapshot of layout `schema` in state `state` gives: a machine
/// in that state where the layout is this library's and the state is restorable,
/// a serialization error where not.
pub open spec fn loads_as(schema: u32, state: VmView, r: Result<VirtualMachine, VmError>) -> bool {
    match r {
        Ok(vm) => schema == SNAPSHOT_SCHEMA && restorable(state) && vm.wf() && vm@ == state,
        Err(e) => !(schema == SNAPSHOT_SCHEMA && restorable(state)) && e
            == VmError::SerializationError,
    }
}

/// The state of a machine is restorable; in particular, register 0 holds zero.
pub proof fn lemma_machine_restorable(vm: VirtualMachine)
    requires
        vm.wf(),
    ensures
        restorable(vm@),
        vm@.registers[0] == 0,
{
    vm.runtime_dbg.lemma_wf();
}

/// A step keeps a state restorable: whatever is executed, register 0 still holds
/// zero and the trace stays within its bound.
pub proof fn lemma_step_keeps_restorable(state: VmView)
    requires
        restorable(state),
        step_of(state) is Ok,
    ensures
        restorable(step_of(state).unwrap().0),
        step_of(state).unwrap().0.registers[0] == 0,
{
}

/// A write to register 0 changes no register.
pub proof fn lemma_zero_register_discards(registers: Seq<u32>, value: u32)
    ensures
        with_register(registers, 0, value) == registers,
{
}

/// Reaching the terminator is reported as the end of a program that did not
/// exit, and leaves the state as it is.
pub proof fn lemma_terminator_reported(state: VmView)
    requires
        state.pc < state.program.len(),
        state.program[state.pc as int] == Bytecode::TERMINATOR,
    ensures
        step_of(state) == Err::<(VmView, StepView), VmError>(VmError::EndedWithoutExit),
{
}

/// An operation that pops more words than the stack holds is reported as a stack
/// underflow.
pub proof fn lemma_underflow_reported(state: VmView)
    requires
        state.pc < state.program.len(),
        match state.program[state.pc as int] {
            Bytecode::SETO(Value::Register(_)) | Bytecode::ALLOC => state.stack.len() < 1,
            Bytecode::ADD | Bytecode::SUB => state.stack.len() < 2,
            _ => false,
        },
    ensures
        step_of(state) == Err::<(VmView, StepView), VmError>(VmError::StackUnderflow),
{
}

/// A snapshot taken of a machine and loaded again gives a machine in the same
/// state: registers, memory, stack, program counter, program, console and trace.
pub proof fn lemma_dump_then_load(
    vm: VirtualMachine,
    snapshot: VmSnapshot,
    loaded: Result<VirtualMachine, VmError>,
)
    requires
        vm.wf(),
        snapshot@ == vm@,
        snapshot.schema == SNAPSHOT_SCHEMA,
        loads_as(snapshot.schema, snapshot@, loaded),
    ensures
        loaded is Ok,
        loaded.unwrap()@ == vm@,
{
    lemma_machine_restorable(vm);
}

} // verus!
