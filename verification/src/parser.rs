//! The assembler's front end: from source text to assembly instructions, and on to
//! the bytecode program with its debug info.
//!
//! A source has a `.text` section of instructions, one to a line, followed by an
//! optional `.data` section.  A `#` begins a comment that runs to the end of its
//! line.  The first malformed line stops the assembler: no partial program is
//! ever produced.

use vstd::prelude::*;

use crate::bytecode::{
    lowerable, lowered, AsmInstruction, AsmInstructionView, Bytecode, WhereTo, WhereToView,
};
use crate::debug_table::{
    all_lowerable, lemma_one_owner, lemma_range_holds_lowered, lemma_range_step, owner_of,
    program_of, range_start, CompileDebugInfo,
};
use crate::err_util::map_parse_error;
use crate::grammar::{
    lemma_scan, lemma_skip_blank, operands_of, scan, scan_span, skip_blank, skip_blank_span,
    split_operands, Until,
};
use crate::numbers::{decimal_text, immediate_of, parse_i16, parse_u32, target_of};
use crate::parser_utils::{check_argument_counts, ensure_register};
use crate::registers::{register_index, same_text};
use crate::span::{column_of, line_of, to_chars, Span, SpanView};

verus! {

/// The two kinds of failure of the assembler.
#[derive(Debug, Clone, Copy, PartialEq, Eq, Structural)]
pub enum ParseErrorKind {
    /// A malformed line.
    SyntaxError,
    /// An operand that should be a register and is not a canonical register name.
    InvalidRegister,
}

/// A failure of the assembler, with the place in the source where it arose.
#[derive(Debug)]
pub struct ParserVerboseError {
    pub kind: ParseErrorKind,
    /// Line of the place, counted from 1.
    pub line: u32,
    /// Column of the place, counted from 1 in bytes of UTF-8.
    pub column: usize,
    /// The source text from the place on.
    pub input: String,
    /// What is wrong.
    pub msg: String,
}

impl Clone for ParserVerboseError {
    fn clone(&self) -> (r: Self)
        ensures
            r == *self,
    {
        ParserVerboseError {
            kind: self.kind,
            line: self.line,
            column: self.column,
            input: self.input.clone(),
            msg: self.msg.clone(),
        }
    }
}

/// What can be wrong with a source.
pub enum Fault {
    /// The source has no `.text` section, or an empty one, or one behind `.data`.
    MissingText,
    /// There is no instruction where one was asked for.
    NoInstruction,
    /// The mnemonic is none of the assembler's.
    InvalidInstruction(Seq<char>),
    /// The instruction takes the first number of operands and has the second.
    ArgumentCount(nat, nat),
    /// The operand is no canonical register name.
    InvalidRegister(Seq<char>),
    /// The operand is no 16-bit decimal number.
    InvalidImmediate,
    /// The operand is no bytecode index.
    InvalidTarget,
    /// There is no data directive where one was asked for.
    NoDirective,
    /// The directive is none of the assembler's.
    InvalidDirective(Seq<char>),
    /// The operand is no decimal number that fits the directive.
    InvalidValue,
    /// The operand is no string between double quotes.
    InvalidString,
}

/// The kind under which a fault is reported.
pub open spec fn fault_kind(fault: Fault) -> ParseErrorKind {
    match fault {
        Fault::InvalidRegister(_) => ParseErrorKind::InvalidRegister,
        _ => ParseErrorKind::SyntaxError,
    }
}

/// The message with which a fault is reported.
pub open spec fn fault_message(fault: Fault) -> Seq<char> {
    match fault {
        Fault::MissingText => "missing .text section"@,
        Fault::NoInstruction => "expected an instruction"@,
        Fault::InvalidInstruction(mnemonic) => "invalid instruction: "@ + mnemonic,
        Fault::ArgumentCount(expected, actual) => "expected "@ + decimal_text(expected)
            + " arguments, got "@ + decimal_text(actual),
        Fault::InvalidRegister(operand) => operand + " is not a valid register"@,
        Fault::InvalidImmediate => "unable to parse immediate value"@,
        Fault::InvalidTarget => "unable to parse jump target"@,
        Fault::NoDirective => "expected a directive"@,
        Fault::InvalidDirective(word) => "invalid directive: "@ + word,
        Fault::InvalidValue => "unable to parse data value"@,
        Fault::InvalidString => "unable to parse string"@,
    }
}

/// Whether `error` reports `fault` at the beginning of `span`.
pub open spec fn reports(error: ParserVerboseError, span: SpanView, fault: Fault) -> bool {
    &&& error.kind == fault_kind(fault)
    &&& error.line == line_of(span.text, span.offset)
    &&& error.column == column_of(span.text, span.offset)
    &&& error.input@ == span.fragment()
    &&& error.msg@ == fault_message(fault)
}

/// The instruction that a mnemonic with its operand tokens denotes, or what is
/// wrong with them.  Operands are checked in order.
pub open spec fn assembled(mnemonic: Seq<char>, operands: Seq<Seq<char>>) -> Result<
    AsmInstructionView,
    Fault,
> {
    if mnemonic == "li"@ {
        if operands.len() != 2 {
            Err(Fault::ArgumentCount(2, operands.len()))
        } else if register_index(operands[0]) is None {
            Err(Fault::InvalidRegister(operands[0]))
        } else {
            match immediate_of(operands[1]) {
                Some(imm) => Ok(AsmInstructionView::LI(operands[0], imm)),
                None => Err(Fault::InvalidImmediate),
            }
        }
    } else if mnemonic == "add"@ {
        if operands.len() != 3 {
            Err(Fault::ArgumentCount(3, operands.len()))
        } else if register_index(operands[0]) is None {
            Err(Fault::InvalidRegister(operands[0]))
        } else if register_index(operands[1]) is None {
            Err(Fault::InvalidRegister(operands[1]))
        } else if register_index(operands[2]) is None {
            Err(Fault::InvalidRegister(operands[2]))
        } else {
            Ok(AsmInstructionView::ADD(operands[0], operands[1], operands[2]))
        }
    } else if mnemonic == "j"@ {
        if operands.len() != 1 {
            Err(Fault::ArgumentCount(1, operands.len()))
        } else {
            match target_of(operands[0]) {
                Some(line) => Ok(AsmInstructionView::JUMP(WhereToView::Line(line))),
                None => Err(Fault::InvalidTarget),
            }
        }
    } else {
        Err(Fault::InvalidInstruction(mnemonic))
    }
}

/// Where the instruction that begins at `start` ends: at the end of its line or
/// at the comment behind it.
pub open spec fn content_end(text: Seq<char>, start: int) -> int {
    scan(text, start, text.len() as int, Until::ContentEnd)
}

/// The mnemonic of the instruction that begins at `start`: its first word.
pub open spec fn mnemonic_at(text: Seq<char>, start: int) -> Seq<char> {
    text.subrange(start, scan(text, start, content_end(text, start), Until::Space))
}

/// The operand tokens of the instruction that begins at `start`: what follows the
/// mnemonic on its line, cut at the commas.
pub open spec fn operands_at(text: Seq<char>, start: int) -> Seq<Seq<char>> {
    operands_of(
        text,
        scan(text, start, content_end(text, start), Until::Space),
        content_end(text, start),
    )
}

/// Where the first instruction from `pos` on begins: behind blanks and comments.
pub open spec fn instruction_start(text: Seq<char>, pos: int) -> int {
    skip_blank(text, pos, false)
}

/// The first instruction of `text` from `pos` on, with the position at which to
/// look for the next one; or what is wrong, with the position of the instruction
/// that is wrong.
pub open spec fn parse_one(text: Seq<char>, pos: int) -> Result<
    (AsmInstructionView, int),
    (Fault, int),
> {
    let start = instruction_start(text, pos);
    if start >= text.len() {
        Err((Fault::NoInstruction, start))
    } else {
        match assembled(mnemonic_at(text, start), operands_at(text, start)) {
            Ok(instruction) => Ok(
                (instruction, skip_blank(text, content_end(text, start), false)),
            ),
            Err(fault) => Err((fault, start)),
        }
    }
}

/// The instructions of `text` from `pos` on, up to its end; or the first thing
/// that is wrong, with its position.
pub open spec fn parse_all(text: Seq<char>, pos: int) -> Result<
    Seq<AsmInstructionView>,
    (Fault, int),
>
    decreases text.len() - pos,
{
    match parse_one(text, pos) {
        Err(e) => Err(e),
        Ok((instruction, next)) => if next >= text.len() || next <= pos {
            Ok(seq![instruction])
        } else {
            match parse_all(text, next) {
                Ok(rest) => Ok(seq![instruction] + rest),
                Err(e) => Err(e),
            }
        },
    }
}

/// An instruction that was parsed can be lowered, and its text is at least as
/// long as its bytecode.
pub proof fn lemma_parse_one(text: Seq<char>, pos: int)
    requires
        0 <= pos <= text.len(),
        parse_one(text, pos) is Ok,
    ensures
        lowerable(parse_one(text, pos)->Ok_0.0),
        pos + lowered(parse_one(text, pos)->Ok_0.0).len() <= parse_one(text, pos)->Ok_0.1
            <= text.len(),
{
    let start = instruction_start(text, pos);
    let stop = content_end(text, start);
    let word = scan(text, start, stop, Until::Space);
    lemma_skip_blank(text, pos, false);
    lemma_scan(text, start, text.len() as int, Until::ContentEnd);
    lemma_scan(text, start, stop, Until::Space);
    lemma_scan(text, word, stop, Until::NonSpace);
    lemma_skip_blank(text, stop, false);
    reveal_strlit("li");
    reveal_strlit("add");
    reveal_strlit("j");
    assert(mnemonic_at(text, start).len() == word - start);
}

/// Instructions that were parsed can all be lowered, to a program no longer than
/// the text they were parsed from.
pub proof fn lemma_parse_all(text: Seq<char>, pos: int)
    requires
        0 <= pos <= text.len(),
        parse_all(text, pos) is Ok,
    ensures
        all_lowerable(parse_all(text, pos)->Ok_0),
        program_of(parse_all(text, pos)->Ok_0).len() <= text.len() - pos,
    decreases text.len() - pos,
{
    lemma_parse_one(text, pos);
    let (instruction, next) = parse_one(text, pos)->Ok_0;
    let all = parse_all(text, pos)->Ok_0;
    if next >= text.len() || next <= pos {
        assert(all =~= seq![instruction]);
        lemma_range_step(all, 0);
        assert(all.take(0) =~= Seq::<AsmInstructionView>::empty());
    } else {
        lemma_parse_all(text, next);
        let rest = parse_all(text, next)->Ok_0;
        assert(all =~= seq![instruction] + rest);
        lemma_program_of_concat(seq![instruction], rest);
        lemma_range_step(seq![instruction], 0);
        assert(seq![instruction].take(0) =~= Seq::<AsmInstructionView>::empty());
    }
}

/// The program of two instruction sequences, one after the other, is the first
/// one's program followed by the second one's.
pub proof fn lemma_program_of_concat(a: Seq<AsmInstructionView>, b: Seq<AsmInstructionView>)
    ensures
        program_of(a + b) == program_of(a) + program_of(b),
    decreases b.len(),
{
    if b.len() == 0 {
        assert(a + b =~= a);
        assert(program_of(a) + program_of(b) =~= program_of(a));
    } else {
        lemma_program_of_concat(a, b.drop_last());
        assert((a + b).drop_last() =~= a + b.drop_last());
        assert((a + b).last() == b.last());
        assert(program_of(a) + program_of(b.drop_last()) + lowered(b.last()) =~= program_of(a) + (
        program_of(b.drop_last()) + lowered(b.last())));
    }
}

/// Builds the instruction that a mnemonic with its operand tokens denotes.
/// Errors are reported at the beginning of `i`.
pub fn assemble_instruction(mnemonic: &str, arguments: &Vec<String>, i: &Span) -> (r: Result<
    AsmInstruction,
    ParserVerboseError,
>)
    requires
        i.wf(),
    ensures
        match r {
            Ok(instruction) => assembled(mnemonic@, arguments@.map_values(|s: String| s@)) == Ok::<
                AsmInstructionView,
                Fault,
            >(instruction@),
            Err(error) => assembled(mnemonic@, arguments@.map_values(|s: String| s@)) matches Err(
                fault,
            ) && reports(error, i@, fault),
        },
{
    let ghost operands = arguments@.map_values(|s: String| s@);
    if same_text(mnemonic, "li") {
        match check_argument_counts(arguments, 2, i) {
            Err(e) => {
                return Err(e);
            },
            Ok(_) => {},
        }
        let reg = &arguments[0];
        assert(reg@ == operands[0]);
        match ensure_register(reg.as_str(), i) {
            Err(e) => {
                return Err(e);
            },
            Ok(_) => {},
        }
        assert(arguments@[1]@ == operands[1]);
        let parsed: Result<i16, String> = match parse_i16(arguments[1].as_str()) {
            Some(imm) => Ok(imm),
            None => Err(String::new()),
        };
        match map_parse_error(i, parsed, Some("unable to parse immediate value")) {
            Ok(imm) => Ok(AsmInstruction::LI(reg.clone(), imm)),
            Err(e) => Err(e),
        }
    } else if same_text(mnemonic, "add") {
        match check_argument_counts(arguments, 3, i) {
            Err(e) => {
                return Err(e);
            },
            Ok(_) => {},
        }
        let rd = &arguments[0];
        assert(rd@ == operands[0]);
        match ensure_register(rd.as_str(), i) {
            Err(e) => {
                return Err(e);
            },
            Ok(_) => {},
        }
        let rs = &arguments[1];
        assert(rs@ == operands[1]);
        match ensure_register(rs.as_str(), i) {
            Err(e) => {
                return Err(e);
            },
            Ok(_) => {},
        }
        let rt = &arguments[2];
        assert(rt@ == operands[2]);
        match ensure_register(rt.as_str(), i) {
            Err(e) => {
                return Err(e);
            },
            Ok(_) => {},
        }
        Ok(AsmInstruction::ADD(rd.clone(), rs.clone(), rt.clone()))
    } else if same_text(mnemonic, "j") {
        match check_argument_counts(arguments, 1, i) {
            Err(e) => {
                return Err(e);
            },
            Ok(_) => {},
        }
        assert(arguments@[0]@ == operands[0]);
        let parsed: Result<u32, String> = match parse_u32(arguments[0].as_str()) {
            Some(line) => Ok(line),
            None => Err(String::new()),
        };
        match map_parse_error(i, parsed, Some("unable to parse jump target")) {
            Ok(line) => Ok(AsmInstruction::JUMP(WhereTo::Line(line))),
            Err(e) => Err(e),
        }
    } else {
        let msg = String::from_str("invalid instruction: ").concat(mnemonic);
        Err(parse_error(i, ParseErrorKind::SyntaxError, msg))
    }
}

/// The error of the given kind and message at the beginning of `i`.
pub fn parse_error(i: &Span, kind: ParseErrorKind, msg: String) -> (error: ParserVerboseError)
    requires
        i.wf(),
    ensures
        error.kind == kind,
        error.line == line_of(i@.text, i@.offset),
        error.column == column_of(i@.text, i@.offset),
        error.input@ == i@.fragment(),
        error.msg == msg,
{
    ParserVerboseError {
        kind,
        line: i.location_line(),
        column: i.get_column(),
        input: i.fragment().to_owned(),
        msg,
    }
}

/// The comment at the beginning of `i`: a `#` and at least one more character up
/// to the end of the line.  Returns the span behind the comment and the
/// comment's text without the `#`.
pub fn eol_comment<'a>(i: Span<'a>) -> (r: Result<(Span<'a>, String), ParserVerboseError>)
    requires
        i.wf(),
    ensures
        match r {
            Ok((rest, comment)) => {
                &&& is_comment(i@)
                &&& rest.wf()
                &&& rest@ == i@.starting_at(comment_end(i@))
                &&& comment@ == i@.text.subrange(i@.offset + 1, comment_end(i@))
            },
            Err(error) => {
                &&& !is_comment(i@)
                &&& error.kind == ParseErrorKind::SyntaxError
                &&& error.line == line_of(i@.text, i@.offset)
                &&& error.column == column_of(i@.text, i@.offset)
                &&& error.input@ == i@.fragment()
                &&& error.msg@ == "failed to parse comment"@
            },
        },
{
    proof {
        i.lemma_wf();
    }
    let start = i.position();
    let end = i.end_position();
    if start < end && i.char_at(start) == '#' {
        let stop = scan_comment(&i, start + 1);
        if stop > start + 1 {
            let comment = i.text_between(start + 1, stop).to_owned();
            return Ok((i.advanced_to(stop), comment));
        }
    }
    Err(parse_error(&i, ParseErrorKind::SyntaxError, "failed to parse comment".to_owned()))
}

/// Where the comment text that begins at `from` ends: at a carriage return, at a
/// line feed or at the end of the span.
pub open spec fn comment_text_end(text: Seq<char>, from: int, to: int) -> int
    decreases to - from,
{
    if from >= to || from < 0 || from >= text.len() {
        from
    } else if text[from] == '\r' || text[from] == '\n' {
        from
    } else {
        comment_text_end(text, from + 1, to)
    }
}

/// Where the comment at the beginning of `span` ends.
pub open spec fn comment_end(span: SpanView) -> int {
    comment_text_end(span.text, span.offset + 1, span.end)
}

/// Whether `span` begins with a comment: a `#` and at least one more character
/// of the same line.
pub open spec fn is_comment(span: SpanView) -> bool {
    &&& span.offset < span.end
    &&& span.text[span.offset] == '#'
    &&& comment_end(span) > span.offset + 1
}

/// Scans the text of a comment from `from` on.
fn scan_comment(span: &Span, from: usize) -> (r: usize)
    requires
        span.wf(),
        from <= span@.end,
    ensures
        r == comment_text_end(span@.text, from as int, span@.end),
        from <= r <= span@.end,
{
    proof {
        span.lemma_wf();
    }
    let end = span.end_position();
    let mut i: usize = from;
    while i < end
        invariant
            span.wf(),
            end == span@.end,
            from <= i <= end <= span@.text.len(),
            comment_text_end(span@.text, from as int, end as int) == comment_text_end(
                span@.text,
                i as int,
                end as int,
            ),
        decreases end - i,
    {
        let c = span.char_at(i);
        if c == '\r' || c == '\n' {
            return i;
        }
        i += 1;
    }
    i
}

/// Skips the blank characters at the beginning of `i`.
pub fn consume_whitespace<'a>(i: Span<'a>) -> (r: (Span<'a>, ()))
    requires
        i.wf(),
    ensures
        r.0.wf(),
        r.0@ == i@.starting_at(scan(i@.visible(), i@.offset, i@.end, Until::NonSpace)),
{
    proof {
        i.lemma_wf();
    }
    let start = i.position();
    let end = i.end_position();
    let pos = scan_span(&i, start, end, Until::NonSpace);
    (i.advanced_to(pos), ())
}

/// Parses the first instruction of `i`.  Returns the instruction and the span
/// that begins at the next instruction, behind blanks and comments.  An error is
/// reported at the instruction that is wrong, with the text from there on.
pub fn parse_instruction<'a>(i: Span<'a>) -> (r: Result<(Span<'a>, AsmInstruction), ParserVerboseError>)
    requires
        i.wf(),
    ensures
        match r {
            Ok((rest, instruction)) => {
                &&& parse_one(i@.visible(), i@.offset) == Ok::<
                    (AsmInstructionView, int),
                    (Fault, int),
                >((instruction@, rest@.offset))
                &&& rest.wf()
                &&& rest@ == i@.starting_at(rest@.offset)
                &&& i@.offset < rest@.offset
                &&& lowerable(instruction@)
            },
            Err(error) => {
                &&& parse_one(i@.visible(), i@.offset) matches Err((fault, at))
                &&& reports(error, i@.starting_at(at), fault)
            },
        },
{
    proof {
        i.lemma_wf();
        lemma_skip_blank(i@.visible(), i@.offset, false);
    }
    let ghost text = i@.visible();
    let ghost origin = i@;
    let end = i.end_position();
    let start = skip_blank_span(&i, i.position());
    let at = i.advanced_to(start);
    assert(at@.visible() == text);
    if start >= end {
        return Err(
            parse_error(&at, ParseErrorKind::SyntaxError, "expected an instruction".to_owned()),
        );
    }
    let stop = scan_span(&at, start, end, Until::ContentEnd);
    let word = scan_span(&at, start, stop, Until::Space);
    let mnemonic = at.text_between(start, word);
    assert(mnemonic@ =~= mnemonic_at(text, start as int));
    let arguments = split_operands(&at, word, stop);
    let next = skip_blank_span(&at, stop);
    match assemble_instruction(mnemonic, &arguments, &at) {
        Ok(instruction) => {
            proof {
                lemma_parse_one(text, origin.offset);
            }
            Ok((at.advanced_to(next), instruction))
        },
        Err(error) => Err(error),
    }
}

/// Parses the instructions of `i` up to its end.  Returns them with the empty
/// span that is left.  The first error stops the parse.
#[verifier::loop_isolation(false)]
pub fn parse_text<'a>(i: Span<'a>) -> (r: Result<(Span<'a>, Vec<AsmInstruction>), ParserVerboseError>)
    requires
        i.wf(),
    ensures
        match r {
            Ok((rest, instructions)) => {
                &&& parse_all(i@.visible(), i@.offset) == Ok::<
                    Seq<AsmInstructionView>,
                    (Fault, int),
                >(instructions@.map_values(|ins: AsmInstruction| ins@))
                &&& rest.wf()
                &&& rest@ == i@.starting_at(i@.end)
            },
            Err(error) => {
                &&& parse_all(i@.visible(), i@.offset) matches Err((fault, at))
                &&& reports(error, i@.starting_at(at), fault)
            },
        },
{
    proof {
        i.lemma_wf();
    }
    let ghost text = i@.visible();
    let ghost origin = i@;
    let mut bytecode_source: Vec<AsmInstruction> = Vec::new();
    let mut text_input_source = i;
    loop
        invariant
            text_input_source.wf(),
            text == origin.visible(),
            0 <= origin.offset <= origin.end <= origin.text.len(),
            text_input_source@ == origin.starting_at(text_input_source@.offset),
            origin.offset <= text_input_source@.offset <= origin.end,
            prepended(
                bytecode_source@.map_values(|ins: AsmInstruction| ins@),
                parse_all(text, text_input_source@.offset),
            ) == parse_all(text, origin.offset),
        decreases origin.end - text_input_source@.offset,
    {
        let ghost pos = text_input_source@.offset;
        let ghost before = bytecode_source@.map_values(|ins: AsmInstruction| ins@);
        assert(text_input_source@.visible() == text);
        match parse_instruction(text_input_source) {
            Ok((remaining, parsed_result)) => {
                proof {
                    lemma_parse_one(text, pos);
                }
                bytecode_source.push(parsed_result);
                let ghost after = bytecode_source@.map_values(|ins: AsmInstruction| ins@);
                assert(after =~= before + seq![parsed_result@]);
                if remaining.is_empty() {
                    assert(parse_all(text, pos) == Ok::<Seq<AsmInstructionView>, (Fault, int)>(
                        seq![parsed_result@],
                    ));
                    return Ok((remaining, bytecode_source));
                }
                proof {
                    match parse_all(text, remaining@.offset) {
                        Ok(rest) => {
                            assert(before + (seq![parsed_result@] + rest) =~= after + rest);
                        },
                        Err(e) => {},
                    }
                }
                text_input_source = remaining;
            },
            Err(err) => {
                return Err(err);
            },
        }
    }
}

/// The outcome of a parse of which `done` was parsed before and `rest` is the
/// outcome of what follows.
pub open spec fn prepended(
    done: Seq<AsmInstructionView>,
    rest: Result<Seq<AsmInstructionView>, (Fault, int)>,
) -> Result<Seq<AsmInstructionView>, (Fault, int)> {
    match rest {
        Ok(more) => Ok(done + more),
        Err(e) => Err(e),
    }
}

/// Whether `marker` stands in `text` at position `pos`.
pub open spec fn occurs_at(text: Seq<char>, marker: Seq<char>, pos: int) -> bool {
    &&& 0 <= pos
    &&& pos + marker.len() <= text.len()
    &&& text.subrange(pos, pos + marker.len()) == marker
}

/// The first position from `from` on at which `marker` stands in `text`.
pub open spec fn find_marker(text: Seq<char>, marker: Seq<char>, from: int) -> Option<int>
    decreases text.len() - from,
{
    if from < 0 || from >= text.len() || from + marker.len() > text.len() {
        None
    } else if occurs_at(text, marker, from) {
        Some(from)
    } else {
        find_marker(text, marker, from + 1)
    }
}

/// A marker that was found stands at the position at which it was found, which is
/// not before the position from which it was looked for.
pub proof fn lemma_find_marker(text: Seq<char>, marker: Seq<char>, from: int)
    requires
        find_marker(text, marker, from) is Some,
    ensures
        from <= find_marker(text, marker, from).unwrap(),
        occurs_at(text, marker, find_marker(text, marker, from).unwrap()),
    decreases text.len() - from,
{
    if !occurs_at(text, marker, from) {
        lemma_find_marker(text, marker, from + 1);
    }
}

/// The bounds of the `.text` section of a source: from behind the first `.text`
/// marker up to the first `.data` marker, or to the end where there is none.
/// `None` where the source has no `.text` marker, where its `.data` marker comes
/// first, or where the section holds nothing but blanks and comments.
pub open spec fn text_section(text: Seq<char>) -> Option<(int, int)> {
    match find_marker(text, ".text"@, 0) {
        None => None,
        Some(start) => {
            let to = match find_marker(text, ".data"@, 0) {
                None => text.len() as int,
                Some(data) => data,
            };
            if to < start + 5 || skip_blank(text.take(to), start + 5, false) >= to {
                None
            } else {
                Some((start + 5, to))
            }
        },
    }
}

/// The instructions of a source, or the first thing that is wrong with it, with
/// its position.
pub open spec fn parse_source(text: Seq<char>) -> Result<Seq<AsmInstructionView>, (Fault, int)> {
    match text_section(text) {
        None => Err((Fault::MissingText, 0)),
        Some((from, to)) => parse_all(text.take(to), from),
    }
}

/// Whether `error` reports that `fault` is wrong with the source `text` at
/// position `at`.  A missing `.text` section is reported for the source as a
/// whole, at line and column zero; every other fault at its own line and column,
/// with the text from there to the end of the `.text` section.
pub open spec fn source_error(
    error: ParserVerboseError,
    text: Seq<char>,
    fault: Fault,
    at: int,
) -> bool {
    match text_section(text) {
        None => {
            &&& fault == Fault::MissingText
            &&& error.kind == ParseErrorKind::SyntaxError
            &&& error.line == 0
            &&& error.column == 0
            &&& error.input@ == text
            &&& error.msg@ == fault_message(Fault::MissingText)
        },
        Some((from, to)) => reports(error, SpanView { text, offset: at, end: to }, fault),
    }
}

/// Finds where `marker` first stands in the span's text.
pub(crate) fn find_in_span(span: &Span, marker: &str) -> (r: Option<usize>)
    requires
        span.wf(),
        span@.offset == 0,
        span@.end == span@.text.len(),
        marker@.len() > 0,
    ensures
        match r {
            Some(pos) => find_marker(span@.text, marker@, 0) == Some(pos as int),
            None => find_marker(span@.text, marker@, 0) is None,
        },
        r matches Some(pos) ==> pos + marker@.len() <= span@.text.len(),
{
    let pattern = to_chars(marker);
    let len = span.end_position();
    let width = pattern.len();
    if width > len {
        return None;
    }
    let mut pos: usize = 0;
    while pos <= len - width
        invariant
            span.wf(),
            len == span@.text.len(),
            width == pattern@.len(),
            pattern@ == marker@,
            0 < width <= len,
            pos <= len - width + 1,
            find_marker(span@.text, marker@, 0) == find_marker(span@.text, marker@, pos as int),
        decreases len - width + 1 - pos,
    {
        let mut k: usize = 0;
        while k < width && span.char_at(pos + k) == pattern[k]
            invariant
                span.wf(),
                len == span@.text.len(),
                width == pattern@.len(),
                pos + width <= len,
                k <= width,
                forall|j: int| 0 <= j < k ==> span@.text[pos + j] == pattern@[j],
            decreases width - k,
        {
            k += 1;
        }
        if k == width {
            assert(span@.text.subrange(pos as int, pos + width) =~= pattern@);
            assert(occurs_at(span@.text, marker@, pos as int));
            return Some(pos);
        }
        assert(!occurs_at(span@.text, marker@, pos as int)) by {
            if occurs_at(span@.text, marker@, pos as int) {
                assert(span@.text.subrange(pos as int, pos + width)[k as int] == pattern@[k as int]);
            }
        }
        pos += 1;
    }
    None
}

/// Parses a source: finds its `.text` section and parses the instructions in it.
/// Returns the instructions with the empty span that is left of the section.
pub fn mock_parser(src_in: &str) -> (r: Result<(Span<'_>, Vec<AsmInstruction>), ParserVerboseError>)
    ensures
        match r {
            Ok((rest, instructions)) => {
                &&& parse_source(src_in@) == Ok::<Seq<AsmInstructionView>, (Fault, int)>(
                    instructions@.map_values(|ins: AsmInstruction| ins@),
                )
                &&& rest.wf()
                &&& rest@.text == src_in@
                &&& rest@.offset == rest@.end
                &&& text_section(src_in@) matches Some((from, to)) && rest@.end == to
            },
            Err(error) => {
                &&& parse_source(src_in@) matches Err((fault, at))
                &&& source_error(error, src_in@, fault, at)
            },
        },
{
    proof {
        reveal_strlit(".text");
        reveal_strlit(".data");
    }
    let whole = Span::new(src_in);
    let text_index = find_in_span(&whole, ".text");
    let data_index = find_in_span(&whole, ".data");
    let len = whole.end_position();
    let section: Option<(usize, usize)> = match text_index {
        None => None,
        Some(start) => {
            proof {
                reveal_strlit(".text");
            }
            let to = match data_index {
                None => len,
                Some(data) => data,
            };
            if to < start + 5 {
                None
            } else {
                Some((start + 5, to))
            }
        },
    };
    match section {
        Some((from, to)) => {
            let span = whole.narrowed_to(from, to);
            assert(span@.visible() == src_in@.take(to as int));
            if skip_blank_span(&span, from) < to {
                return parse_text(span);
            }
        },
        None => {},
    }
    Err(
        ParserVerboseError {
            kind: ParseErrorKind::SyntaxError,
            line: 0,
            column: 0,
            input: src_in.to_owned(),
            msg: "missing .text section".to_owned(),
        },
    )
}

/// A lowered program holds no terminator: the one that is appended to it is the
/// only one, and marks its end.
pub proof fn lemma_single_terminator(instructions: Seq<AsmInstructionView>, index: int)
    requires
        all_lowerable(instructions),
        0 <= index < program_of(instructions).len(),
    ensures
        program_of(instructions)[index] != Bytecode::TERMINATOR,
        program_of(instructions).push(Bytecode::TERMINATOR).last() == Bytecode::TERMINATOR,
{
    lemma_one_owner(instructions, index);
    let k = owner_of(instructions, index)->Some_0;
    lemma_range_holds_lowered(instructions, k);
    let from = range_start(instructions, k) as int;
    let to = range_start(instructions, k + 1) as int;
    assert(lowerable(instructions[k]));
    assert(program_of(instructions).subrange(from, to)[index - from] == program_of(
        instructions,
    )[index]);
}

/// Lowers the instructions of a program: their bytecode in source order with a
/// single terminator behind it, and the debug info that maps every bytecode index
/// back to its instruction.
pub fn assemble(instructions: Vec<AsmInstruction>) -> (r: (Vec<Bytecode>, CompileDebugInfo))
    requires
        all_lowerable(instructions@.map_values(|ins: AsmInstruction| ins@)),
        program_of(instructions@.map_values(|ins: AsmInstruction| ins@)).len() < usize::MAX,
    ensures
        r.0@ == program_of(instructions@.map_values(|ins: AsmInstruction| ins@)).push(
            Bytecode::TERMINATOR,
        ),
        r.1.wf(),
        r.1@ == instructions@.map_values(|ins: AsmInstruction| ins@),
{
    let ghost all = instructions@.map_values(|ins: AsmInstruction| ins@);
    let mut program: Vec<Bytecode> = Vec::new();
    let mut n: usize = 0;
    assert(all.take(0) =~= Seq::<AsmInstructionView>::empty());
    while n < instructions.len()
        invariant
            all == instructions@.map_values(|ins: AsmInstruction| ins@),
            all_lowerable(all),
            n <= instructions@.len(),
            program@ == program_of(all.take(n as int)),
        decreases instructions.len() - n,
    {
        assert(instructions@[n as int]@ == all[n as int]);
        assert(lowerable(all[n as int]));
        let mut lowered_instruction = instructions[n].to_bytecode();
        proof {
            lemma_range_step(all, n as int);
        }
        program.append(&mut lowered_instruction);
        n += 1;
    }
    assert(all.take(n as int) =~= all);
    program.push(Bytecode::TERMINATOR);
    (program, CompileDebugInfo::new(instructions))
}

/// Compiles a source into its program and debug info.  Fails on the first
/// malformed line, with its line and column.
pub fn compile(source_text: &str) -> (r: Result<(Vec<Bytecode>, CompileDebugInfo), ParserVerboseError>)
    ensures
        match r {
            Ok((program, info)) => {
                &&& parse_source(source_text@) matches Ok(instructions)
                &&& program@ == program_of(instructions).push(Bytecode::TERMINATOR)
                &&& info.wf()
                &&& info@ == instructions
            },
            Err(error) => {
                &&& parse_source(source_text@) matches Err((fault, at))
                &&& source_error(error, source_text@, fault, at)
            },
        },
{
    match mock_parser(source_text) {
        Ok((rest, instructions)) => {
            proof {
                let (from, to) = text_section(source_text@)->Some_0;
                rest.lemma_wf();
                lemma_find_marker(source_text@, ".text"@, 0);
                lemma_parse_all(source_text@.take(to), from);
            }
            Ok(assemble(instructions))
        },
        Err(error) => Err(error),
    }
}

} // verus!
