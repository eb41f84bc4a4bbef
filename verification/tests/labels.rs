use mipstenite::bytecode::{AsmInstruction, Bytecode, WhereTo};
use mipstenite::labels::{collect_offsets, resolve_labels, Label};
use mipstenite::parser::assemble;

fn li(reg: &str, imm: i16) -> AsmInstruction {
    AsmInstruction::LI(reg.to_string(), imm)
}

fn add(dst: &str, a: &str, b: &str) -> AsmInstruction {
    AsmInstruction::ADD(dst.to_string(), a.to_string(), b.to_string())
}

fn jump_to(name: &str) -> AsmInstruction {
    AsmInstruction::JUMP(WhereTo::Label(name.to_string()))
}

fn label(name: &str, index: usize) -> Label {
    Label { name: name.to_string(), index }
}

#[test]
fn offsets_sum_the_lowered_lengths() {
    let program = vec![li("$t0", 1), add("$t0", "$t0", "$t0"), jump_to("x"), li("$t1", 2)];
    assert_eq!(
        collect_offsets(&program),
        vec![Some(0), Some(2), Some(6), Some(7), Some(9)]
    );
    assert_eq!(collect_offsets(&Vec::new()), vec![Some(0)]);
}

#[test]
fn labels_become_bytecode_indices() {
    let program = vec![
        li("$t0", 1),
        jump_to("end"),
        add("$t0", "$t0", "$t0"),
        jump_to("start"),
        jump_to("middle"),
        AsmInstruction::JUMP(WhereTo::Line(99)),
    ];
    let labels = vec![label("start", 0), label("middle", 2), label("end", 6), label("start", 3)];
    let resolved = resolve_labels(program, &labels).unwrap();
    assert_eq!(
        resolved,
        vec![
            li("$t0", 1),
            AsmInstruction::JUMP(WhereTo::Line(10)),
            add("$t0", "$t0", "$t0"),
            AsmInstruction::JUMP(WhereTo::Line(0)),
            AsmInstruction::JUMP(WhereTo::Line(3)),
            AsmInstruction::JUMP(WhereTo::Line(99)),
        ]
    );
    let (program, info) = assemble(resolved);
    assert_eq!(program[2], Bytecode::JUMP(10));
    assert_eq!(program[10], Bytecode::TERMINATOR);
    assert_eq!(program[3], Bytecode::GETP(mipstenite::bytecode::Value::Register(8)));
    assert_eq!(info.bytecode_len(), 10);
}

#[test]
fn a_label_that_cannot_be_resolved_is_named() {
    let program = vec![jump_to("a"), jump_to("b"), jump_to("c")];
    assert_eq!(resolve_labels(program, &vec![label("a", 1)]), Err("b".to_string()));
    let program = vec![jump_to("far")];
    assert_eq!(resolve_labels(program, &vec![label("far", 2)]), Err("far".to_string()));
    let program = vec![jump_to("far")];
    assert_eq!(
        resolve_labels(program, &vec![label("far", 2), label("far", 0)]),
        Err("far".to_string())
    );
    let program = vec![jump_to("")];
    assert_eq!(resolve_labels(program, &Vec::new()), Err(String::new()));
    assert_eq!(resolve_labels(Vec::new(), &Vec::new()), Ok(Vec::new()));
    let program = vec![jump_to("here")];
    assert_eq!(
        resolve_labels(program, &vec![label("here", 1)]),
        Ok(vec![AsmInstruction::JUMP(WhereTo::Line(1))])
    );
}
