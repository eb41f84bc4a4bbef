use mipstenite::bytecode::translate::{convert_add, convert_jump, convert_li};
use mipstenite::bytecode::{AsmInstruction, Bytecode, Value, WhereTo};

#[test]
fn test_to_li() {
    let asm_in = AsmInstruction::LI("$t0".to_string(), 128);
    let asm_out = asm_in.to_bytecode();

    assert!(asm_out.len() == 2);
    assert!(matches!(asm_out[0], Bytecode::PUSH(Value::Immediate(128))));
    assert!(matches!(asm_out[1], Bytecode::SETO(Value::Register(8))));
}

#[test]
fn test_to_add() {
    let asm_in = AsmInstruction::ADD("$t0".to_string(), "$t1".to_string(), "$t2".to_string());
    let asm_out = asm_in.to_bytecode();

    assert!(asm_out.len() == 4);
    assert!(matches!(asm_out[0], Bytecode::GETP(Value::Register(9))));
    assert!(matches!(asm_out[1], Bytecode::GETP(Value::Register(10))));
    assert!(matches!(asm_out[2], Bytecode::ADD));
    assert!(matches!(asm_out[3], Bytecode::SETO(Value::Register(8))));
}

#[test]
fn test_to_jump() {
    let asm_in = AsmInstruction::JUMP(WhereTo::Line(0));
    let asm_out = asm_in.to_bytecode();

    assert!(asm_out.len() == 1);
    assert!(matches!(asm_out[0], Bytecode::JUMP(0)));

    let asm_in = AsmInstruction::JUMP(WhereTo::Line(123));
    let asm_out = asm_in.to_bytecode();
    assert!(asm_out.len() == 1);
    assert!(matches!(asm_out[0], Bytecode::JUMP(123)));
}

#[test]
fn lowering_is_exact() {
    assert_eq!(
        AsmInstruction::LI("$t0".to_string(), 128).to_bytecode(),
        vec![Bytecode::PUSH(Value::Immediate(128)), Bytecode::SETO(Value::Register(8))]
    );
    assert_eq!(
        AsmInstruction::ADD("$t0".to_string(), "$t1".to_string(), "$t2".to_string()).to_bytecode(),
        vec![
            Bytecode::GETP(Value::Register(9)),
            Bytecode::GETP(Value::Register(10)),
            Bytecode::ADD,
            Bytecode::SETO(Value::Register(8)),
        ]
    );
    assert_eq!(
        AsmInstruction::JUMP(WhereTo::Line(123)).to_bytecode(),
        vec![Bytecode::JUMP(123)]
    );
}

#[test]
fn lowering_twice_gives_the_same_bytecode() {
    let instructions = vec![
        AsmInstruction::LI("$hi".to_string(), -32768),
        AsmInstruction::ADD("$lo".to_string(), "$zero".to_string(), "$ra".to_string()),
        AsmInstruction::JUMP(WhereTo::Line(u32::MAX)),
    ];
    for instruction in instructions.iter() {
        let copy = instruction.clone();
        assert_eq!(instruction.to_bytecode(), instruction.to_bytecode());
        assert_eq!(instruction.to_bytecode(), copy.to_bytecode());
    }
    assert_eq!(
        instructions[0].to_bytecode(),
        vec![Bytecode::PUSH(Value::Immediate(-32768)), Bytecode::SETO(Value::Register(32))]
    );
    assert_eq!(
        instructions[1].to_bytecode(),
        vec![
            Bytecode::GETP(Value::Register(0)),
            Bytecode::GETP(Value::Register(31)),
            Bytecode::ADD,
            Bytecode::SETO(Value::Register(33)),
        ]
    );
}

#[test]
fn templates_place_their_operands() {
    assert_eq!(
        convert_li(7, -3),
        vec![Bytecode::PUSH(Value::Immediate(-3)), Bytecode::SETO(Value::Register(7))]
    );
    assert_eq!(
        convert_add(1, 2, 3),
        vec![
            Bytecode::GETP(Value::Register(2)),
            Bytecode::GETP(Value::Register(3)),
            Bytecode::ADD,
            Bytecode::SETO(Value::Register(1)),
        ]
    );
    assert_eq!(convert_jump(9), vec![Bytecode::JUMP(9)]);
}

#[test]
fn only_canonical_operands_can_be_lowered() {
    assert!(AsmInstruction::LI("$t0".to_string(), 1).is_lowerable());
    assert!(!AsmInstruction::LI("t0".to_string(), 1).is_lowerable());
    assert!(!AsmInstruction::LI("$t10".to_string(), 1).is_lowerable());
    assert!(!AsmInstruction::ADD("$t0".to_string(), "$t1".to_string(), "$x".to_string())
        .is_lowerable());
    assert!(AsmInstruction::JUMP(WhereTo::Line(4)).is_lowerable());
    assert!(!AsmInstruction::JUMP(WhereTo::Label("main".to_string())).is_lowerable());
}

#[test]
fn lifting_reads_the_operand() {
    assert_eq!(Value::Register(12).lift_register(), 12);
    assert_eq!(Value::Immediate(128).lift_immediate(), 128);
    assert_eq!(Value::Immediate(0).lift_immediate(), 0);
    assert_eq!(Value::Immediate(-1).lift_immediate(), 0xFFFF_FFFF);
    assert_eq!(Value::Immediate(-32768).lift_immediate(), 0xFFFF_8000);
    assert_eq!(Value::Immediate(32767).lift_immediate(), 0x7FFF);
    assert_eq!(WhereTo::Line(77).lift_line(), 77);
    assert_eq!(WhereTo::Label("loop".to_string()).lift_label(), "loop");
}

#[test]
fn a_mnemonic_alone_gives_default_operands() {
    assert_eq!(
        AsmInstruction::from_mnemonic("li"),
        Ok(AsmInstruction::LI(String::new(), 0))
    );
    assert_eq!(
        "add".parse::<AsmInstruction>(),
        Ok(AsmInstruction::ADD(String::new(), String::new(), String::new()))
    );
    assert_eq!(
        "j".parse::<AsmInstruction>(),
        Err("invalid instruction: j".to_string())
    );
    assert_eq!(
        AsmInstruction::from_mnemonic(""),
        Err("invalid instruction: ".to_string())
    );
}

#[test]
fn instructions_compare_by_their_operands() {
    let a = AsmInstruction::LI("$t0".to_string(), 1);
    assert!(a == AsmInstruction::LI("$t0".to_string(), 1));
    assert!(a != AsmInstruction::LI("$t1".to_string(), 1));
    assert!(a != AsmInstruction::LI("$t0".to_string(), 2));
    assert!(a != AsmInstruction::JUMP(WhereTo::Line(1)));
    assert!(WhereTo::Label("a".to_string()) != WhereTo::Line(0));
    assert!(WhereTo::Label("a".to_string()) == WhereTo::Label("a".to_string()));
}
