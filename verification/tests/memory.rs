use mipstenite::data::{parse_data, parse_data_section, parse_directive};
use mipstenite::error::VmError;
use mipstenite::memory::{DataDirective, DataMap, MemTag, Memory};
use mipstenite::parser::ParseErrorKind;
use mipstenite::span::Span;

#[test]
fn a_new_memory_reserves_nothing() {
    let memory = Memory::new();
    assert_eq!(memory.last(), 0);
    assert_eq!(memory.read(0), Err(VmError::AddressingError));
    assert!(memory.tags().is_empty());
}

#[test]
fn writes_stay_inside_the_reserved_region() {
    let mut memory = Memory::from_bytes(vec![0; 4]);
    assert_eq!(memory.write(1, &[7, 8]), Ok(()));
    assert_eq!(*memory.bytes(), vec![0, 7, 8, 0]);
    assert_eq!(memory.write(2, &[1, 2]), Ok(()));
    assert_eq!(*memory.bytes(), vec![0, 7, 1, 2]);
    assert_eq!(memory.write(3, &[1, 2]), Err(VmError::AddressingError));
    assert_eq!(memory.write(4, &[1]), Err(VmError::AddressingError));
    assert_eq!(memory.write(5, &[]), Err(VmError::AddressingError));
    assert_eq!(memory.write(usize::MAX, &[1]), Err(VmError::AddressingError));
    assert_eq!(*memory.bytes(), vec![0, 7, 1, 2]);
    assert_eq!(memory.write(4, &[]), Ok(()));
    assert_eq!(memory.write(0, &[9, 9, 9, 9]), Ok(()));
    assert_eq!(*memory.bytes(), vec![9, 9, 9, 9]);
}

#[test]
fn reads_give_the_byte_and_its_tag() {
    let mut memory = Memory::from_bytes(vec![104, 105, 0]);
    assert_eq!(memory.read(0), Ok((104, None)));
    memory.tag(0, MemTag::String);
    assert_eq!(memory.read(0), Ok((104, Some(MemTag::String))));
    assert_eq!(memory.read(1), Ok((105, None)));
    assert_eq!(memory.read(3), Err(VmError::AddressingError));
    assert_eq!(memory.write(0, &[1]), Ok(()));
    assert_eq!(memory.read(0), Ok((1, Some(MemTag::String))));
    memory.tag(100, MemTag::String);
    assert_eq!(memory.read(100), Err(VmError::AddressingError));
    assert_eq!(memory.last(), 3);
}

#[test]
fn growing_appends_zero_bytes() {
    let mut memory = Memory::from_bytes(vec![5]);
    assert_eq!(memory.grow(3), Ok(()));
    assert_eq!(*memory.bytes(), vec![5, 0, 0, 0]);
    assert_eq!(memory.grow(0), Ok(()));
    assert_eq!(memory.last(), 4);
    assert_eq!(memory.grow(usize::MAX), Err(VmError::AddressingError));
    assert_eq!(memory.last(), 4);
}

#[test]
fn directives_use_their_size_and_alignment() {
    let mut memory = Memory::new();
    assert_eq!(memory.store(&DataDirective::Byte(0xAB)), Ok(0));
    assert_eq!(memory.store(&DataDirective::Word(0x1122_3344)), Ok(4));
    assert_eq!(*memory.bytes(), vec![0xAB, 0, 0, 0, 0x44, 0x33, 0x22, 0x11]);
    assert_eq!(memory.store(&DataDirective::Byte(1)), Ok(8));
    assert_eq!(memory.store(&DataDirective::HalfWord(0xBEEF)), Ok(10));
    assert_eq!(memory.last(), 12);
    assert_eq!(memory.bytes()[9..], [0, 0xEF, 0xBE]);
    assert_eq!(memory.store(&DataDirective::HalfWord(1)), Ok(12));
    assert_eq!(memory.store(&DataDirective::Word(2)), Ok(16));
    assert_eq!(memory.bytes()[12..], [1, 0, 0, 0, 2, 0, 0, 0]);
}

#[test]
fn strings_are_stored_with_or_without_a_terminator() {
    let mut memory = Memory::new();
    assert_eq!(memory.store(&DataDirective::Ascii("y=".to_string())), Ok(0));
    assert_eq!(*memory.bytes(), vec![b'y', b'=']);
    assert_eq!(memory.store(&DataDirective::AsciiZero("hi".to_string())), Ok(2));
    assert_eq!(*memory.bytes(), vec![b'y', b'=', b'h', b'i', 0]);
    assert_eq!(memory.store(&DataDirective::AsciiZero(String::new())), Ok(5));
    assert_eq!(memory.last(), 6);
    assert_eq!(memory.store(&DataDirective::Ascii(String::new())), Ok(6));
    assert_eq!(memory.last(), 6);
    assert_eq!(memory.store(&DataDirective::Ascii("é".to_string())), Ok(6));
    assert_eq!(memory.bytes()[6..], [0xC3, 0xA9]);
}

#[test]
fn space_and_align_move_the_cursor() {
    let mut memory = Memory::new();
    assert_eq!(memory.store(&DataDirective::Space(3)), Ok(0));
    assert_eq!(*memory.bytes(), vec![0, 0, 0]);
    assert_eq!(memory.store(&DataDirective::Align(8)), Ok(8));
    assert_eq!(memory.last(), 8);
    assert_eq!(memory.store(&DataDirective::Align(8)), Ok(8));
    assert_eq!(memory.last(), 8);
    assert_eq!(memory.store(&DataDirective::Align(0)), Ok(8));
    assert_eq!(memory.store(&DataDirective::Align(1)), Ok(8));
    assert_eq!(memory.store(&DataDirective::Align(3)), Ok(9));
    assert_eq!(memory.last(), 9);
    assert_eq!(memory.store(&DataDirective::Space(0)), Ok(9));
    assert_eq!(memory.store(&DataDirective::Align(5)), Ok(10));
    assert_eq!(*memory.bytes(), vec![0; 10]);
}

#[test]
fn stored_data_can_be_read_and_overwritten() {
    let mut memory = Memory::new();
    let addr = memory.store(&DataDirective::Word(5)).unwrap();
    memory.tag(addr, MemTag::String);
    assert_eq!(memory.read(addr), Ok((5, Some(MemTag::String))));
    assert_eq!(memory.write(addr, &[1, 2, 3, 4]), Ok(()));
    assert_eq!(memory.read(addr + 3), Ok((4, None)));
    assert_eq!(memory.write(addr, &[1, 2, 3, 4, 5]), Err(VmError::AddressingError));
}

#[test]
fn a_datum_keeps_its_name_and_directive() {
    let datum = DataMap::new("x".to_string(), DataDirective::Word(5));
    assert_eq!(datum.get_name(), "x");
    assert!(matches!(datum.get_data(), DataDirective::Word(5)));
    let copy = datum.clone();
    assert_eq!(copy.get_name(), "x");
    assert!(matches!(copy.get_data(), DataDirective::Word(5)));
    let mut memory = Memory::new();
    assert_eq!(memory.store(copy.get_data()), Ok(0));
    assert_eq!(*memory.bytes(), vec![5, 0, 0, 0]);
}

#[test]
fn data_are_loaded_in_order() {
    let data = vec![
        DataMap::new("x".to_string(), DataDirective::Word(5)),
        DataMap::new("y".to_string(), DataDirective::Word(0)),
        DataMap::new("msg1".to_string(), DataDirective::AsciiZero("y=".to_string())),
        DataMap::new("lf".to_string(), DataDirective::AsciiZero("\n".to_string())),
        DataMap::new("h".to_string(), DataDirective::HalfWord(0x0102)),
    ];
    let (memory, addresses) = Memory::load(&data).unwrap();
    assert_eq!(addresses, vec![0, 4, 8, 11, 14]);
    assert_eq!(
        *memory.bytes(),
        vec![5, 0, 0, 0, 0, 0, 0, 0, b'y', b'=', 0, b'\n', 0, 0, 2, 1]
    );
    assert!(memory.tags().is_empty());
    let (memory, addresses) = Memory::load(&Vec::new()).unwrap();
    assert_eq!(memory.last(), 0);
    assert!(addresses.is_empty());
}

fn datum(input: &str) -> (String, DataDirective) {
    let (_, datum) = parse_directive(Span::new(input)).unwrap();
    (datum.get_name().clone(), datum.get_data().clone())
}

#[test]
fn every_directive_is_read() {
    assert!(matches!(datum("x: .word 5"), (name, DataDirective::Word(5)) if name == "x"));
    assert!(matches!(datum(".word 4294967295"), (name, DataDirective::Word(u32::MAX)) if name.is_empty()));
    assert!(matches!(datum("b:\t.byte 255 # top"), (name, DataDirective::Byte(255)) if name == "b"));
    assert!(matches!(datum("  h: .half 65535"), (name, DataDirective::HalfWord(65535)) if name == "h"));
    assert!(matches!(datum("buf: .space 16"), (name, DataDirective::Space(16)) if name == "buf"));
    assert!(matches!(datum(".align 4#x"), (_, DataDirective::Align(4))));
    assert!(matches!(datum("a::  .byte +0"), (name, DataDirective::Byte(0)) if name == "a:"));
    match datum("msg1:\t.asciiz\t\"y=\"") {
        (name, DataDirective::AsciiZero(text)) => {
            assert_eq!(name, "msg1");
            assert_eq!(text, "y=");
        }
        other => panic!("unexpected datum: {:?}", other),
    }
    match datum("greeting: .asciiz \"Hello World\" #The string to print.") {
        (name, DataDirective::AsciiZero(text)) => {
            assert_eq!(name, "greeting");
            assert_eq!(text, "Hello World");
        }
        other => panic!("unexpected datum: {:?}", other),
    }
    match datum(".ascii \"a#b, \\\"c\\\" \\n\\t\\r\\0\\\\ é\"   ") {
        (name, DataDirective::Ascii(text)) => {
            assert_eq!(name, "");
            assert_eq!(text, "a#b, \"c\" \n\t\r\0\\ é");
        }
        other => panic!("unexpected datum: {:?}", other),
    }
    assert!(matches!(datum(".ascii \"\""), (_, DataDirective::Ascii(text)) if text.is_empty()));
}

fn data_failure(input: &str) -> (ParseErrorKind, u32, usize, String) {
    let error = parse_directive(Span::new(input)).unwrap_err();
    (error.kind, error.line, error.column, error.msg)
}

#[test]
fn malformed_data_lines_are_reported() {
    let syntax = ParseErrorKind::SyntaxError;
    assert_eq!(data_failure(""), (syntax, 1, 1, "expected a directive".to_string()));
    assert_eq!(data_failure("\n  x:  # nothing"), (syntax, 2, 3, "expected a directive".to_string()));
    assert_eq!(data_failure("x: .quad 5"), (syntax, 1, 1, "invalid directive: .quad".to_string()));
    assert_eq!(data_failure(":"), (syntax, 1, 1, "invalid directive: :".to_string()));
    assert_eq!(data_failure("word 5"), (syntax, 1, 1, "invalid directive: word".to_string()));
    assert_eq!(data_failure(".word"), (syntax, 1, 1, "expected 1 arguments, got 0".to_string()));
    assert_eq!(data_failure(".word 1, 2"), (syntax, 1, 1, "expected 1 arguments, got 2".to_string()));
    for input in [".byte 256", ".half 65536", ".word 4294967296", ".word -1", ".space x", ".align 1.5", ".byte 0x10"] {
        assert_eq!(data_failure(input), (syntax, 1, 1, "unable to parse data value".to_string()));
    }
    for input in [
        ".ascii",
        ".ascii y",
        ".ascii \"y",
        ".ascii \"y\\",
        ".ascii \"y\\\"",
        ".asciiz \"y\" z",
        ".asciiz \"a\\qb\"",
        ".asciiz \"a\nb\"",
        ".asciiz x \"a\"",
    ] {
        assert_eq!(data_failure(input), (syntax, 1, 1, "unable to parse string".to_string()));
    }
}

#[test]
fn a_data_section_is_read_to_the_end_of_the_source() {
    let source = ".text\nli $t0, 1\n   .data\n# data\nx:\t.word 5\ny:\t.word 0\n\nmsg1:\t.asciiz\t\"y=\"\nlf:     .asciiz\t\"\\n\"\n";
    let data = parse_data_section(source).unwrap();
    let names: Vec<&str> = data.iter().map(|d| d.get_name().as_str()).collect();
    assert_eq!(names, vec!["x", "y", "msg1", "lf"]);
    let (memory, addresses) = Memory::load(&data).unwrap();
    assert_eq!(addresses, vec![0, 4, 8, 11]);
    assert_eq!(*memory.bytes(), vec![5, 0, 0, 0, 0, 0, 0, 0, b'y', b'=', 0, b'\n', 0]);

    assert!(parse_data_section(".text\nli $t0, 1\n").unwrap().is_empty());
    assert!(parse_data_section("").unwrap().is_empty());
    assert!(parse_data_section(".data").unwrap().is_empty());
    assert!(parse_data_section(".data\n  # only a comment").unwrap().is_empty());

    let error = parse_data_section(".text\nli $t0, 1\n.data\nx: .word 5\n  y: .word\nz: .word 1").unwrap_err();
    assert_eq!((error.line, error.column), (5, 3));
    assert_eq!(error.msg, "expected 1 arguments, got 0");
    assert_eq!(error.input, "y: .word\nz: .word 1");
}

#[test]
fn data_are_parsed_one_by_one() {
    let input = "  a: .byte 1\n\n# c\nb: .byte 2 # two\n  ";
    let (rest, first) = parse_directive(Span::new(input)).unwrap();
    assert_eq!(first.get_name(), "a");
    assert_eq!(rest.fragment(), "b: .byte 2 # two\n  ");
    assert_eq!((rest.location_line(), rest.get_column()), (4, 1));
    let (rest, second) = parse_directive(rest).unwrap();
    assert_eq!(second.get_name(), "b");
    assert!(rest.is_empty());
    let (rest, all) = parse_data(Span::new(input)).unwrap();
    assert!(rest.is_empty());
    assert_eq!(all.len(), 2);
    assert!(matches!(all[1].get_data(), DataDirective::Byte(2)));
    let (_, none) = parse_data(Span::new(" \n# nothing\n")).unwrap();
    assert!(none.is_empty());
}
