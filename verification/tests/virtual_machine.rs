use std::collections::BTreeMap;

use mipstenite::bytecode::{AsmInstruction, Bytecode, Value};
use mipstenite::debug_table::CompileDebugInfo;
use mipstenite::error::VmError;
use mipstenite::memory::MemTag;
use mipstenite::registers::register_to_addr;
use mipstenite::virtual_machine::{
    Console, ConsoleLocation, Stack, Step, VirtualMachine, VmSnapshot, SERVICE_EXIT,
    SERVICE_PRINT, SERVICE_READ, SERVICE_REGISTER, SNAPSHOT_SCHEMA,
};

#[test]
fn test_vm_add() {
    let mut vm = VirtualMachine::new();

    let program = vec![
        // li $t1, 1
        Bytecode::PUSH(Value::Immediate(1)),
        Bytecode::SETO(Value::Register(register_to_addr("$t1".to_string()).unwrap())),
        // li $t2, 1
        Bytecode::PUSH(Value::Immediate(1)),
        Bytecode::SETO(Value::Register(register_to_addr("$t2".to_string()).unwrap())),
        // add $t3, $t1, $t2
        Bytecode::GETP(Value::Register(register_to_addr("$t1".to_string()).unwrap())),
        Bytecode::GETP(Value::Register(register_to_addr("$t2".to_string()).unwrap())),
        Bytecode::ADD,
        Bytecode::SETO(Value::Register(register_to_addr("$t3".to_string()).unwrap())),

        Bytecode::TERMINATOR,
    ];
    vm.set_program(program);

    // PUSH 1
    vm.execute().unwrap();
    assert!(vm.stack().peek() == Some(&1));

    // SET $t1
    vm.execute().unwrap();
    assert!(matches!(vm.reg_get(register_to_addr("$t1".to_string()).unwrap()), Ok(1)));
    assert!(matches!(vm.reg_get(register_to_addr("$t2".to_string()).unwrap()), Ok(0)));
    assert!(matches!(vm.reg_get(register_to_addr("$t3".to_string()).unwrap()), Ok(0)));

    // PUSH 1
    vm.execute().unwrap();
    assert!(vm.stack().peek() == Some(&1));

    // SET $t2
    vm.execute().unwrap();
    assert!(matches!(vm.reg_get(register_to_addr("$t1".to_string()).unwrap()), Ok(1)));
    assert!(matches!(vm.reg_get(register_to_addr("$t2".to_string()).unwrap()), Ok(1)));
    assert!(matches!(vm.reg_get(register_to_addr("$t3".to_string()).unwrap()), Ok(0)));

    // GETP $t1
    vm.execute().unwrap();
    assert!(vm.stack().peek() == Some(&1));

    // GETP $t2
    vm.execute().unwrap();
    assert!(vm.stack().peek() == Some(&1));

    // ADD
    vm.execute().unwrap();
    assert!(vm.stack().peek() == Some(&2));

    // SET $t3
    vm.execute().unwrap();
    assert!(matches!(vm.reg_get(register_to_addr("$t1".to_string()).unwrap()), Ok(1)));
    assert!(matches!(vm.reg_get(register_to_addr("$t2".to_string()).unwrap()), Ok(1)));
    assert!(matches!(vm.reg_get(register_to_addr("$t3".to_string()).unwrap()), Ok(2)));
    assert!(vm.stack().peek() == None);

}

fn machine(program: Vec<Bytecode>) -> VirtualMachine {
    let mut vm = VirtualMachine::new();
    vm.set_program(program);
    vm
}

fn push(value: i16) -> Bytecode {
    Bytecode::PUSH(Value::Immediate(value))
}

fn seto(reg: u32) -> Bytecode {
    Bytecode::SETO(Value::Register(reg))
}

#[test]
fn a_new_machine_is_blank() {
    let vm = VirtualMachine::new();
    assert_eq!(*vm.registers(), [0u32; 34]);
    assert_eq!(vm.pc(), 0);
    assert!(vm.program().is_empty());
    assert_eq!(vm.stack().len(), 0);
    assert_eq!(vm.memory().last(), 0);
    assert!(vm.console().write_to_console().is_empty());
    assert_eq!(vm.console().location(), ConsoleLocation::Terminal);
    assert!(vm.runtime_dbg().stack_trace().is_empty());
    assert_eq!(vm.runtime_dbg().max_trace(), 20);
}

#[test]
fn loading_sets_memory_and_program() {
    let mut vm = VirtualMachine::new();
    vm.init(vec![1, 2, 3], vec![Bytecode::EXIT]);
    assert_eq!(*vm.memory().bytes(), vec![1, 2, 3]);
    assert_eq!(*vm.program(), vec![Bytecode::EXIT]);
    assert_eq!(vm.memory().read(2), Ok((3, None)));
    assert_eq!(vm.memory().read(3), Err(VmError::AddressingError));
    assert_eq!(vm.pc(), 0);
}

#[test]
fn zero_reads_zero_even_after_a_write() {
    let mut vm = machine(vec![push(7), seto(0), Bytecode::GETP(Value::Register(0)), Bytecode::TERMINATOR]);
    assert_eq!(vm.reg_set(0, 99), Ok(()));
    assert_eq!(vm.reg_get(0), Ok(0));
    vm.execute().unwrap();
    vm.execute().unwrap();
    assert_eq!(vm.reg_get(0), Ok(0));
    assert_eq!(vm.stack().len(), 0);
    vm.execute().unwrap();
    assert_eq!(vm.stack().peek(), Some(&0));
    assert_eq!(vm.registers()[0], 0);
}

#[test]
fn registers_are_bounds_checked() {
    let mut vm = VirtualMachine::new();
    assert_eq!(vm.reg_set(33, 5), Ok(()));
    assert_eq!(vm.reg_get(33), Ok(5));
    assert_eq!(vm.reg_set(32, 6), Ok(()));
    assert_eq!(vm.reg_get(32), Ok(6));
    assert_eq!(vm.reg_set(34, 5), Err(VmError::InvalidRegister));
    assert_eq!(vm.reg_get(34), Err(VmError::InvalidRegister));
    assert_eq!(vm.reg_get(u32::MAX), Err(VmError::InvalidRegister));
}

#[test]
fn the_terminator_is_reported() {
    let mut vm = machine(vec![push(1), Bytecode::TERMINATOR]);
    assert!(matches!(vm.execute(), Ok(Step::Continue)));
    assert!(matches!(vm.execute(), Err(VmError::EndedWithoutExit)));
    assert_eq!(vm.pc(), 1);
    assert_eq!(*vm.runtime_dbg().stack_trace(), vec![0]);
    assert!(matches!(vm.execute(), Err(VmError::EndedWithoutExit)));
}

#[test]
fn a_pop_from_an_empty_stack_is_reported() {
    let mut vm = machine(vec![seto(9)]);
    assert!(matches!(vm.execute(), Err(VmError::StackUnderflow)));
    assert_eq!(vm.pc(), 0);
    assert_eq!(vm.reg_get(9), Ok(0));
    assert!(vm.runtime_dbg().stack_trace().is_empty());

    let mut vm = machine(vec![Bytecode::ADD]);
    assert!(matches!(vm.execute(), Err(VmError::StackUnderflow)));

    let mut vm = machine(vec![push(1), Bytecode::ADD]);
    vm.execute().unwrap();
    assert!(matches!(vm.execute(), Err(VmError::StackUnderflow)));
    assert_eq!(*vm.stack().words(), vec![1]);
    assert_eq!(vm.pc(), 1);

    let mut vm = machine(vec![push(1), Bytecode::SUB]);
    vm.execute().unwrap();
    assert!(matches!(vm.execute(), Err(VmError::StackUnderflow)));

    let mut vm = machine(vec![Bytecode::ALLOC]);
    assert!(matches!(vm.execute(), Err(VmError::StackUnderflow)));

    let mut stack = Stack::new();
    assert_eq!(stack.pop(), None);
    assert_eq!(stack.peek(), None);
    stack.push(4);
    stack.push(5);
    assert_eq!(stack.peek(), Some(&5));
    assert_eq!(stack.pop(), Some(5));
    assert_eq!(stack.pop(), Some(4));
    assert_eq!(stack.pop(), None);
}

#[test]
fn underflow_comes_before_an_invalid_register() {
    let mut vm = machine(vec![seto(40)]);
    assert!(matches!(vm.execute(), Err(VmError::StackUnderflow)));
    let mut vm = machine(vec![push(1), seto(40)]);
    vm.execute().unwrap();
    assert!(matches!(vm.execute(), Err(VmError::InvalidRegister)));
    assert_eq!(*vm.stack().words(), vec![1]);
    let mut vm = machine(vec![Bytecode::GETP(Value::Register(34))]);
    assert!(matches!(vm.execute(), Err(VmError::InvalidRegister)));
    let mut vm = machine(vec![Bytecode::PUSH(Value::Register(34))]);
    assert!(matches!(vm.execute(), Err(VmError::InvalidRegister)));
}

#[test]
fn leaving_the_program_is_reported() {
    let mut vm = VirtualMachine::new();
    assert!(matches!(vm.execute(), Err(VmError::ProgramCounterOutOfBounds)));
    let mut vm = machine(vec![push(1)]);
    vm.execute().unwrap();
    assert!(matches!(vm.execute(), Err(VmError::ProgramCounterOutOfBounds)));
    let mut vm = machine(vec![Bytecode::JUMP(7)]);
    vm.execute().unwrap();
    assert_eq!(vm.pc(), 7);
    assert!(matches!(vm.execute(), Err(VmError::ProgramCounterOutOfBounds)));
}

#[test]
fn undefined_operations_are_unsupported() {
    for operation in [
        Bytecode::POP,
        Bytecode::DEBUG,
        Bytecode::SET(Value::Register(1)),
        Bytecode::GET(Value::Register(1)),
        Bytecode::SETO(Value::Immediate(1)),
        Bytecode::GETP(Value::Immediate(1)),
    ] {
        let mut vm = machine(vec![push(1), operation]);
        vm.execute().unwrap();
        assert!(matches!(vm.execute(), Err(VmError::UnsupportedOpcode)));
        assert_eq!(vm.pc(), 1);
        assert_eq!(*vm.stack().words(), vec![1]);
    }
}

#[test]
fn arithmetic_wraps_at_32_bits() {
    let mut vm = machine(vec![push(-1), push(1), Bytecode::ADD, push(3), push(5), Bytecode::SUB, push(5), push(3), Bytecode::SUB]);
    for _ in 0..3 {
        vm.execute().unwrap();
    }
    assert_eq!(*vm.stack().words(), vec![0]);
    for _ in 0..3 {
        vm.execute().unwrap();
    }
    assert_eq!(*vm.stack().words(), vec![0, 0xFFFF_FFFE]);
    for _ in 0..3 {
        vm.execute().unwrap();
    }
    assert_eq!(*vm.stack().words(), vec![0, 0xFFFF_FFFE, 2]);

    let mut vm = machine(vec![push(-1), push(-1), Bytecode::ADD]);
    for _ in 0..3 {
        vm.execute().unwrap();
    }
    assert_eq!(*vm.stack().words(), vec![0xFFFF_FFFE]);
}

#[test]
fn push_takes_a_literal_or_a_register() {
    let mut vm = machine(vec![push(-2), seto(5), Bytecode::PUSH(Value::Register(5)), Bytecode::GETP(Value::Register(5))]);
    for _ in 0..4 {
        assert!(matches!(vm.execute(), Ok(Step::Continue)));
    }
    assert_eq!(*vm.stack().words(), vec![0xFFFF_FFFE, 0xFFFF_FFFE]);
    assert_eq!(vm.reg_get(5), Ok(0xFFFF_FFFE));
    assert_eq!(vm.pc(), 4);
    assert_eq!(*vm.runtime_dbg().stack_trace(), vec![0, 1, 2, 3]);
}

#[test]
fn a_jump_sets_the_program_counter() {
    let mut vm = machine(vec![Bytecode::JUMP(2), push(1), Bytecode::JUMP(0)]);
    assert!(matches!(vm.execute(), Ok(Step::Continue)));
    assert_eq!(vm.pc(), 2);
    assert_eq!(*vm.runtime_dbg().stack_trace(), vec![0]);
    assert!(matches!(vm.execute(), Ok(Step::Continue)));
    assert_eq!(vm.pc(), 0);
    assert_eq!(*vm.runtime_dbg().stack_trace(), vec![0, 2]);
    assert_eq!(vm.stack().len(), 0);
}

#[test]
fn a_tight_loop_keeps_the_trace_bounded() {
    let mut vm = machine(vec![push(1), seto(8), Bytecode::JUMP(0)]);
    for _ in 0..100 {
        vm.execute().unwrap();
    }
    let trace = vm.runtime_dbg().stack_trace();
    assert_eq!(trace.len(), 20);
    assert_eq!(trace[19], 0);
    assert_eq!(trace[18], 2);
    assert_eq!(vm.pc(), 1);
}

#[test]
fn exit_and_halt_stop_without_advancing() {
    let mut vm = machine(vec![push(1), Bytecode::EXIT]);
    vm.execute().unwrap();
    assert!(matches!(vm.execute(), Ok(Step::Exit)));
    assert_eq!(vm.pc(), 1);
    assert_eq!(*vm.runtime_dbg().stack_trace(), vec![0]);
    let mut vm = machine(vec![Bytecode::HALT]);
    assert!(matches!(vm.execute(), Ok(Step::Halt)));
    assert_eq!(vm.pc(), 0);
    assert!(vm.runtime_dbg().stack_trace().is_empty());
}

#[test]
fn console_steps_ask_the_caller() {
    let mut vm = machine(vec![Bytecode::STDIN, Bytecode::STDOUT, Bytecode::EXIT]);
    match vm.execute() {
        Ok(Step::ReadConsole(location)) => assert_eq!(location, ConsoleLocation::Terminal),
        other => panic!("unexpected step: {:?}", other),
    }
    assert_eq!(vm.pc(), 1);
    vm.read_from_console("hello\n");
    assert_eq!(vm.write_to_console(), b"hello\n".to_vec());
    match vm.execute() {
        Ok(Step::WriteConsole(location, bytes)) => {
            assert_eq!(location, ConsoleLocation::Terminal);
            assert_eq!(bytes, b"hello\n".to_vec());
        }
        other => panic!("unexpected step: {:?}", other),
    }
    assert_eq!(vm.pc(), 2);
    assert_eq!(*vm.runtime_dbg().stack_trace(), vec![0, 1]);
}

#[test]
fn the_console_keeps_its_channel() {
    let mut console = Console::new();
    assert_eq!(console.location(), ConsoleLocation::Terminal);
    assert_eq!(ConsoleLocation::default(), ConsoleLocation::Terminal);
    console.set_location(ConsoleLocation::Socket);
    console.read_from_console("é");
    assert_eq!(console.location(), ConsoleLocation::Socket);
    assert_eq!(console.write_to_console(), vec![0xC3, 0xA9]);
    let console = Console::from_parts(vec![1, 2], ConsoleLocation::Socket);
    assert_eq!(console.write_to_console(), vec![1, 2]);
}

#[test]
fn syscall_dispatches_on_the_service_code() {
    assert_eq!(SERVICE_REGISTER, 2);
    assert_eq!((SERVICE_PRINT, SERVICE_READ, SERVICE_EXIT), (4, 8, 10));

    let mut vm = machine(vec![push(4), seto(2), Bytecode::SYSCALL]);
    vm.read_from_console("out");
    vm.execute().unwrap();
    vm.execute().unwrap();
    match vm.execute() {
        Ok(Step::WriteConsole(_, bytes)) => assert_eq!(bytes, b"out".to_vec()),
        other => panic!("unexpected step: {:?}", other),
    }
    assert_eq!(vm.pc(), 3);

    let mut vm = machine(vec![push(8), seto(2), Bytecode::SYSCALL]);
    vm.execute().unwrap();
    vm.execute().unwrap();
    assert!(matches!(vm.execute(), Ok(Step::ReadConsole(ConsoleLocation::Terminal))));
    assert_eq!(vm.pc(), 3);

    let mut vm = machine(vec![push(10), seto(2), Bytecode::SYSCALL]);
    vm.execute().unwrap();
    vm.execute().unwrap();
    assert!(matches!(vm.execute(), Ok(Step::Exit)));
    assert_eq!(vm.pc(), 2);

    let mut vm = machine(vec![Bytecode::SYSCALL]);
    assert!(matches!(vm.execute(), Err(VmError::UnsupportedOpcode)));
    assert_eq!(vm.pc(), 0);
}

#[test]
fn alloc_grows_memory_by_the_popped_size() {
    let mut vm = VirtualMachine::new();
    vm.init(vec![9, 9], vec![push(3), Bytecode::ALLOC, push(0), Bytecode::ALLOC]);
    vm.execute().unwrap();
    assert!(matches!(vm.execute(), Ok(Step::Continue)));
    assert_eq!(*vm.memory().bytes(), vec![9, 9, 0, 0, 0]);
    assert_eq!(vm.stack().len(), 0);
    vm.execute().unwrap();
    vm.execute().unwrap();
    assert_eq!(vm.memory().last(), 5);
    assert_eq!(vm.pc(), 4);
}

#[test]
fn strace_shows_the_trace_before_its_own_step() {
    let instructions = vec![
        AsmInstruction::LI("$t0".to_string(), 1),
        AsmInstruction::LI("$t1".to_string(), 2),
    ];
    let mut vm = machine(vec![push(1), seto(8), push(2), seto(9), Bytecode::STRACE, Bytecode::TERMINATOR]);
    vm.setup_debug(CompileDebugInfo::new(instructions.clone()));
    for _ in 0..4 {
        vm.execute().unwrap();
    }
    match vm.execute() {
        Ok(Step::Trace(shown)) => assert_eq!(
            shown,
            vec![
                (instructions[1].clone(), instructions[1].to_bytecode()),
                (instructions[0].clone(), instructions[0].to_bytecode()),
            ]
        ),
        other => panic!("unexpected step: {:?}", other),
    }
    assert_eq!(vm.pc(), 5);
    assert_eq!(*vm.runtime_dbg().stack_trace(), vec![0, 1, 2, 3, 4]);
}

#[test]
fn setting_up_debug_starts_a_fresh_trace() {
    let mut vm = machine(vec![push(1), push(2)]);
    vm.execute().unwrap();
    assert_eq!(*vm.runtime_dbg().stack_trace(), vec![0]);
    vm.setup_debug(CompileDebugInfo::new(vec![AsmInstruction::LI("$t0".to_string(), 1)]));
    assert!(vm.runtime_dbg().stack_trace().is_empty());
    assert_eq!(vm.runtime_dbg().compile_debug_info().len(), 1);
    assert_eq!(vm.pc(), 1);
}

fn same_state(a: &VirtualMachine, b: &VirtualMachine) {
    assert_eq!(a.registers(), b.registers());
    assert_eq!(a.memory().bytes(), b.memory().bytes());
    assert_eq!(a.memory().tags(), b.memory().tags());
    assert_eq!(a.stack().words(), b.stack().words());
    assert_eq!(a.pc(), b.pc());
    assert_eq!(a.program(), b.program());
    assert_eq!(a.write_to_console(), b.write_to_console());
    assert_eq!(a.console().location(), b.console().location());
    assert_eq!(a.runtime_dbg().stack_trace(), b.runtime_dbg().stack_trace());
    assert_eq!(a.runtime_dbg().max_trace(), b.runtime_dbg().max_trace());
    assert_eq!(
        a.runtime_dbg().compile_debug_info().instructions(),
        b.runtime_dbg().compile_debug_info().instructions()
    );
}

#[test]
fn dump_then_load_gives_the_same_machine() {
    let instructions = vec![
        AsmInstruction::LI("$t0".to_string(), 1),
        AsmInstruction::LI("$t1".to_string(), 2),
    ];
    let mut vm = VirtualMachine::new();
    vm.init(vec![1, 2, 3, 4], vec![push(1), seto(8), push(2), seto(9), push(7), Bytecode::TERMINATOR]);
    vm.setup_debug(CompileDebugInfo::new(instructions.clone()));
    vm.read_from_console("line");
    for _ in 0..5 {
        vm.execute().unwrap();
    }
    let snapshot = vm.dump();
    assert_eq!(snapshot.schema, SNAPSHOT_SCHEMA);
    assert_eq!(snapshot.pc, 5);
    assert_eq!(snapshot.stack, vec![7]);
    assert_eq!(snapshot.registers[8], 1);
    assert_eq!(snapshot.registers[9], 2);
    assert_eq!(snapshot.memory, vec![1, 2, 3, 4]);
    assert_eq!(snapshot.console, b"line".to_vec());
    assert_eq!(snapshot.stack_trace, vec![0, 1, 2, 3, 4]);
    assert_eq!(snapshot.instructions, instructions);
    let mut loaded = VirtualMachine::load(snapshot).unwrap();
    same_state(&vm, &loaded);
    assert!(matches!(loaded.execute(), Err(VmError::EndedWithoutExit)));
    assert!(matches!(vm.execute(), Err(VmError::EndedWithoutExit)));
    same_state(&vm, &loaded);
}

#[test]
fn the_dump_step_hands_out_the_state_before_it() {
    let mut vm = machine(vec![push(3), Bytecode::DUMP, seto(8), Bytecode::TERMINATOR]);
    vm.execute().unwrap();
    let snapshot = match vm.execute() {
        Ok(Step::Dump(snapshot)) => snapshot,
        other => panic!("unexpected step: {:?}", other),
    };
    assert_eq!(vm.pc(), 2);
    assert_eq!(snapshot.pc, 1);
    assert_eq!(snapshot.stack, vec![3]);
    assert_eq!(snapshot.stack_trace, vec![0]);
    assert_eq!(*vm.runtime_dbg().stack_trace(), vec![0, 1]);
    let mut resumed = VirtualMachine::load(snapshot).unwrap();
    assert!(matches!(resumed.execute(), Ok(Step::Dump(_))));
    resumed.execute().unwrap();
    vm.execute().unwrap();
    same_state(&vm, &resumed);
    assert_eq!(resumed.reg_get(8), Ok(3));
}

fn blank_snapshot() -> VmSnapshot {
    VmSnapshot {
        schema: SNAPSHOT_SCHEMA,
        registers: vec![0; 34],
        memory: Vec::new(),
        memory_tags: BTreeMap::new(),
        pc: 0,
        program: Vec::new(),
        stack: Vec::new(),
        console: Vec::new(),
        location: ConsoleLocation::Terminal,
        instructions: Vec::new(),
        max_trace: 20,
        stack_trace: Vec::new(),
    }
}

#[test]
fn a_snapshot_that_describes_no_machine_is_refused() {
    assert!(VirtualMachine::load(blank_snapshot()).is_ok());

    let mut snapshot = blank_snapshot();
    snapshot.schema = SNAPSHOT_SCHEMA + 1;
    assert!(matches!(VirtualMachine::load(snapshot), Err(VmError::SerializationError)));
    let mut snapshot = blank_snapshot();
    snapshot.schema = 0;
    assert!(matches!(VirtualMachine::load(snapshot), Err(VmError::SerializationError)));

    let mut snapshot = blank_snapshot();
    snapshot.registers = vec![0; 32];
    assert!(matches!(VirtualMachine::load(snapshot), Err(VmError::SerializationError)));

    let mut snapshot = blank_snapshot();
    snapshot.registers[0] = 1;
    assert!(matches!(VirtualMachine::load(snapshot), Err(VmError::SerializationError)));

    let mut snapshot = blank_snapshot();
    snapshot.max_trace = 0;
    assert!(matches!(VirtualMachine::load(snapshot), Err(VmError::SerializationError)));

    let mut snapshot = blank_snapshot();
    snapshot.max_trace = 1;
    snapshot.stack_trace = vec![0, 1];
    assert!(matches!(VirtualMachine::load(snapshot), Err(VmError::SerializationError)));

    let mut snapshot = blank_snapshot();
    snapshot.instructions = vec![AsmInstruction::LI("$nope".to_string(), 0)];
    assert!(matches!(VirtualMachine::load(snapshot), Err(VmError::SerializationError)));
}

#[test]
fn a_snapshot_keeps_memory_tags() {
    let mut snapshot = blank_snapshot();
    snapshot.memory = vec![104, 105];
    snapshot.memory_tags.insert(0, Some(MemTag::String));
    snapshot.memory_tags.insert(1, None);
    snapshot.pc = 3;
    snapshot.registers[33] = 12;
    let vm = VirtualMachine::load(snapshot).unwrap();
    assert_eq!(vm.memory().read(0), Ok((104, Some(MemTag::String))));
    assert_eq!(vm.memory().read(1), Ok((105, None)));
    assert_eq!(vm.pc(), 3);
    assert_eq!(vm.reg_get(33), Ok(12));
    let again = vm.dump();
    assert_eq!(again.memory_tags.len(), 2);
    assert_eq!(again.memory_tags.get(&0), Some(&Some(MemTag::String)));
}
