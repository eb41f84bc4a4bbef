use mipstenite::registers::{
    addr_to_register, canonical_name, register_to_addr, same_text, PrettyFmtRegister, Register,
    REGISTER_COUNT,
};

const NAMES: [&str; 34] = [
    "$zero", "$at", "$v0", "$v1", "$a0", "$a1", "$a2", "$a3", "$t0", "$t1", "$t2", "$t3", "$t4",
    "$t5", "$t6", "$t7", "$s0", "$s1", "$s2", "$s3", "$s4", "$s5", "$s6", "$s7", "$t8", "$t9",
    "$k0", "$k1", "$gp", "$sp", "$fp", "$ra", "$hi", "$lo",
];

#[test]
fn every_name_finds_its_index_and_back() {
    assert_eq!(REGISTER_COUNT, 34);
    for (index, name) in NAMES.iter().enumerate() {
        let addr = register_to_addr(name.to_string());
        assert_eq!(addr, Some(index as u32));
        let register = addr_to_register(addr.unwrap()).unwrap();
        assert_eq!(register.name, *name);
        assert_eq!(register.value, 0);
    }
}

#[test]
fn every_index_finds_its_name_and_back() {
    for index in 0..34u32 {
        let register = addr_to_register(index).unwrap();
        assert_eq!(register.name, NAMES[index as usize]);
        assert_eq!(register_to_addr(register.name), Some(index));
        assert_eq!(canonical_name(index), Some(NAMES[index as usize]));
    }
}

#[test]
fn other_names_and_indices_are_no_registers() {
    for name in ["", "$", "t0", "$t", "$t10", "$T0", " $t0", "$t0 ", "$zer", "$zeroo", "$s8", "zero", "$0", "$a4"] {
        assert_eq!(register_to_addr(name.to_string()), None);
    }
    assert!(addr_to_register(34).is_none());
    assert!(addr_to_register(u32::MAX).is_none());
    assert_eq!(canonical_name(34), None);
}

#[test]
fn a_new_register_holds_zero() {
    let register = Register::new("$t4".to_string());
    assert_eq!(register.name, "$t4");
    assert_eq!(register.value, 0);
}

#[test]
fn texts_compare_by_their_characters() {
    assert!(same_text("", ""));
    assert!(same_text("$t0", "$t0"));
    assert!(!same_text("$t0", "$t1"));
    assert!(!same_text("$t0", "$t"));
    assert!(same_text("héllo", "héllo"));
    assert!(!same_text("héllo", "hello"));
}

#[test]
fn registers_are_listed_under_their_names() {
    let mut file = [0u32; 34];
    file[8] = 128;
    file[33] = u32::MAX;
    let lines = PrettyFmtRegister(&file).lines();
    assert_eq!(lines.len(), 34);
    assert_eq!(lines[0], "$zero: 0");
    assert_eq!(lines[8], "$t0: 128");
    assert_eq!(lines[31], "$ra: 0");
    assert_eq!(lines[33], "$lo: 4294967295");
}
