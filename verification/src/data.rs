//! The assembler's reader of the `.data` section: one datum to a line, each a
//! directive with its operand, under a name if the line begins with `name:`.
//!
//! Numbers are decimal and must fit the directive.  A string stands between
//! double quotes; in it, `\n`, `\t`, `\r`, `\0`, `\\` and `\"` stand for a line
//! feed, a tab, a carriage return, a zero character, a backslash and a quote.

use vstd::prelude::*;

use crate::grammar::{
    lemma_scan, lemma_skip_blank, operands_of, scan, scan_span, skip_blank, skip_blank_span,
    split_operands, Until,
};
use crate::memory::{DataDirective, DataDirectiveView, DataMap, DataMapView};
use crate::numbers::{parse_u32, target_of};
use crate::parser::{
    find_in_span, find_marker, parse_error, reports, Fault, ParseErrorKind, ParserVerboseError,
};
use crate::parser_utils::check_argument_counts;
use crate::registers::same_text;
use crate::span::{Span, SpanView};

verus! {

/// Where the string that begins behind an opening quote ends: at the first quote
/// from `from` on that no backslash stands before.  `to` where the string does
/// not end before `to`.
pub open spec fn string_end(text: Seq<char>, from: int, to: int) -> int
    decreases to - from,
{
    if from >= to || from < 0 || from >= text.len() {
        to
    } else if text[from] == '"' {
        from
    } else if text[from] == '\\' {
        if from + 1 >= to {
            to
        } else {
            string_end(text, from + 2, to)
        }
    } else {
        string_end(text, from + 1, to)
    }
}

/// The character that stands behind a backslash for `c`.
pub open spec fn escaped(c: char) -> Option<char> {
    if c == 'n' {
        Some('\n')
    } else if c == 't' {
        Some('\t')
    } else if c == 'r' {
        Some('\r')
    } else if c == '0' {
        Some('\0')
    } else if c == '\\' {
        Some('\\')
    } else if c == '"' {
        Some('"')
    } else {
        None
    }
}

/// The characters that the string text between `from` and `to` stands for.
/// `None` where a backslash stands before a character that it cannot stand
/// before.
pub open spec fn unescaped(text: Seq<char>, from: int, to: int) -> Option<Seq<char>>
    decreases to - from,
{
    if from >= to || from < 0 || from >= text.len() {
        Some(Seq::empty())
    } else if text[from] == '\\' {
        if from + 1 >= to || from + 1 >= text.len() {
            None
        } else {
            match (escaped(text[from + 1]), unescaped(text, from + 2, to)) {
                (Some(c), Some(rest)) => Some(seq![c] + rest),
                _ => None,
            }
        }
    } else {
        match unescaped(text, from + 1, to) {
            Some(rest) => Some(seq![text[from]] + rest),
            None => None,
        }
    }
}

/// The string that the operand text between `from` and the end of the line at
/// `to` denotes: the text between double quotes, with nothing but blanks before
/// it and nothing but blanks and a comment behind it.
pub open spec fn string_operand(text: Seq<char>, from: int, to: int) -> Option<Seq<char>> {
    let open = scan(text, from, to, Until::NonSpace);
    if open >= to || text[open] != '"' {
        None
    } else {
        let close = string_end(text, open + 1, to);
        let behind = scan(text, close + 1, to, Until::NonSpace);
        if close >= to || (behind < to && text[behind] != '#') {
            None
        } else {
            unescaped(text, open + 1, close)
        }
    }
}

/// The number that the operand tokens of a directive denote, where they are one
/// decimal number up to `limit`.
pub open spec fn number_operand(operands: Seq<Seq<char>>, limit: u32) -> Result<u32, Fault> {
    if operands.len() != 1 {
        Err(Fault::ArgumentCount(1, operands.len()))
    } else {
        match target_of(operands[0]) {
            Some(value) => if value <= limit {
                Ok(value)
            } else {
                Err(Fault::InvalidValue)
            },
            None => Err(Fault::InvalidValue),
        }
    }
}

/// The directive that the word `word` denotes with the operand text between
/// `from` and the end of the line at `to`.
pub open spec fn directive_of(word: Seq<char>, text: Seq<char>, from: int, to: int) -> Result<
    DataDirectiveView,
    Fault,
> {
    let numbers = operands_of(text, from, scan(text, from, to, Until::ContentEnd));
    if word == ".byte"@ {
        match number_operand(numbers, 0xFF) {
            Ok(value) => Ok(DataDirectiveView::Byte(value as u8)),
            Err(fault) => Err(fault),
        }
    } else if word == ".half"@ {
        match number_operand(numbers, 0xFFFF) {
            Ok(value) => Ok(DataDirectiveView::HalfWord(value as u16)),
            Err(fault) => Err(fault),
        }
    } else if word == ".word"@ {
        match number_operand(numbers, 0xFFFF_FFFF) {
            Ok(value) => Ok(DataDirectiveView::Word(value)),
            Err(fault) => Err(fault),
        }
    } else if word == ".space"@ {
        match number_operand(numbers, 0xFFFF_FFFF) {
            Ok(value) => Ok(DataDirectiveView::Space(value)),
            Err(fault) => Err(fault),
        }
    } else if word == ".align"@ {
        match number_operand(numbers, 0xFFFF_FFFF) {
            Ok(value) => Ok(DataDirectiveView::Align(value)),
            Err(fault) => Err(fault),
        }
    } else if word == ".ascii"@ {
        match string_operand(text, from, to) {
            Some(content) => Ok(DataDirectiveView::Ascii(content)),
            None => Err(Fault::InvalidString),
        }
    } else if word == ".asciiz"@ {
        match string_operand(text, from, to) {
            Some(content) => Ok(DataDirectiveView::AsciiZero(content)),
            None => Err(Fault::InvalidString),
        }
    } else {
        Err(Fault::InvalidDirective(word))
    }
}

/// Reveals the characters of the directive words.
proof fn lemma_directive_words()
    ensures
        ".byte"@ =~= seq!['.', 'b', 'y', 't', 'e'],
        ".half"@ =~= seq!['.', 'h', 'a', 'l', 'f'],
        ".word"@ =~= seq!['.', 'w', 'o', 'r', 'd'],
        ".space"@ =~= seq!['.', 's', 'p', 'a', 'c', 'e'],
        ".align"@ =~= seq!['.', 'a', 'l', 'i', 'g', 'n'],
        ".ascii"@ =~= seq!['.', 'a', 's', 'c', 'i', 'i'],
        ".asciiz"@ =~= seq!['.', 'a', 's', 'c', 'i', 'i', 'z'],
{
    reveal_strlit(".byte");
    reveal_strlit(".half");
    reveal_strlit(".word");
    reveal_strlit(".space");
    reveal_strlit(".align");
    reveal_strlit(".ascii");
    reveal_strlit(".asciiz");
}

/// Where the first word of the line that begins at `start` ends.
pub open spec fn first_word_end(text: Seq<char>, start: int) -> int {
    scan(text, start, scan(text, start, text.len() as int, Until::ContentEnd), Until::Space)
}

/// Whether the line that begins at `start` begins with a name: a first word of
/// two or more characters of which the last is a colon.
pub open spec fn has_name(text: Seq<char>, start: int) -> bool {
    first_word_end(text, start) >= start + 2 && text[first_word_end(text, start) - 1] == ':'
}

/// The datum of the line that begins at `start`.
pub open spec fn datum_at(text: Seq<char>, start: int) -> Result<DataMapView, Fault> {
    let stop = scan(text, start, text.len() as int, Until::ContentEnd);
    let line_end = scan(text, start, text.len() as int, Until::LineEnd);
    let first = first_word_end(text, start);
    let name = if has_name(text, start) {
        text.subrange(start, first - 1)
    } else {
        Seq::empty()
    };
    let word_start = if has_name(text, start) {
        scan(text, first, stop, Until::NonSpace)
    } else {
        start
    };
    let word_end = scan(text, word_start, stop, Until::Space);
    if word_start >= stop {
        Err(Fault::NoDirective)
    } else {
        match directive_of(text.subrange(word_start, word_end), text, word_end, line_end) {
            Ok(data) => Ok(DataMapView { name, data }),
            Err(fault) => Err(fault),
        }
    }
}

/// The first datum of `text` from `pos` on, with the position at which to look
/// for the next one; or what is wrong, with the position of the line that is
/// wrong.
pub open spec fn parse_datum(text: Seq<char>, pos: int) -> Result<(DataMapView, int), (Fault, int)> {
    let start = skip_blank(text, pos, false);
    if start >= text.len() {
        Err((Fault::NoDirective, start))
    } else {
        match datum_at(text, start) {
            Ok(datum) => Ok(
                (
                    datum,
                    skip_blank(
                        text,
                        scan(text, start, text.len() as int, Until::LineEnd),
                        false,
                    ),
                ),
            ),
            Err(fault) => Err((fault, start)),
        }
    }
}

/// The data of `text` from `pos` on, up to its end; none where only blanks and
/// comments follow `pos`.  Or the first thing that is wrong, with its position.
pub open spec fn parse_data_all(text: Seq<char>, pos: int) -> Result<
    Seq<DataMapView>,
    (Fault, int),
>
    decreases text.len() - pos,
{
    if skip_blank(text, pos, false) >= text.len() {
        Ok(Seq::empty())
    } else {
        match parse_datum(text, pos) {
            Err(e) => Err(e),
            Ok((datum, next)) => if next <= pos || next > text.len() {
                Ok(seq![datum])
            } else {
                match parse_data_all(text, next) {
                    Ok(rest) => Ok(seq![datum] + rest),
                    Err(e) => Err(e),
                }
            },
        }
    }
}

/// The bounds of the `.data` section of a source: from behind the first `.data`
/// marker to the end.  `None` where the source has no `.data` marker.
pub open spec fn data_section(text: Seq<char>) -> Option<(int, int)> {
    match find_marker(text, ".data"@, 0) {
        None => None,
        Some(data) => Some((data + 5, text.len() as int)),
    }
}

/// The data of a source: those of its `.data` section, none where it has no such
/// section.
pub open spec fn parse_data_source(text: Seq<char>) -> Result<Seq<DataMapView>, (Fault, int)> {
    match data_section(text) {
        None => Ok(Seq::empty()),
        Some((from, to)) => parse_data_all(text, from),
    }
}

/// Scans a string from behind its opening quote for its closing quote.
fn string_end_span(span: &Span, from: usize, to: usize) -> (r: usize)
    requires
        span.wf(),
        from <= to <= span@.end,
    ensures
        r == string_end(span@.visible(), from as int, to as int),
        from <= r <= to,
{
    proof {
        span.lemma_wf();
    }
    let ghost text = span@.visible();
    let mut i: usize = from;
    while i < to
        invariant
            span.wf(),
            text == span@.visible(),
            from <= i <= to <= span@.end <= span@.text.len(),
            string_end(text, from as int, to as int) == string_end(text, i as int, to as int),
        decreases to - i,
    {
        let c = span.char_at(i);
        if c == '"' {
            return i;
        } else if c == '\\' {
            if i + 1 >= to {
                return to;
            }
            i += 2;
        } else {
            i += 1;
        }
    }
    to
}

/// The text of the character that stands behind a backslash for `c`.
fn escape_text(c: char) -> (r: Option<&'static str>)
    ensures
        match r {
            Some(s) => escaped(c) matches Some(e) && s@ == seq![e],
            None => escaped(c) is None,
        },
{
    proof {
        reveal_strlit("\n");
        reveal_strlit("\t");
        reveal_strlit("\r");
        reveal_strlit("\0");
        reveal_strlit("\\");
        reveal_strlit("\"");
    }
    let r = if c == 'n' {
        Some("\n")
    } else if c == 't' {
        Some("\t")
    } else if c == 'r' {
        Some("\r")
    } else if c == '0' {
        Some("\0")
    } else if c == '\\' {
        Some("\\")
    } else if c == '"' {
        Some("\"")
    } else {
        None
    };
    assert(r matches Some(s) ==> s@ =~= seq![escaped(c).unwrap()]);
    r
}

/// Reads the string text between `from` and `to`.
fn unescape_span(span: &Span, from: usize, to: usize) -> (r: Option<String>)
    requires
        span.wf(),
        from <= to <= span@.end,
    ensures
        match r {
            Some(s) => unescaped(span@.visible(), from as int, to as int) == Some(s@),
            None => unescaped(span@.visible(), from as int, to as int) is None,
        },
{
    proof {
        span.lemma_wf();
    }
    let ghost text = span@.visible();
    let mut out = String::new();
    let mut i: usize = from;
    while i < to
        invariant
            span.wf(),
            text == span@.visible(),
            from <= i <= to <= span@.end <= span@.text.len(),
            unescaped(text, from as int, to as int) == match unescaped(text, i as int, to as int) {
                Some(rest) => Some(out@ + rest),
                None => None,
            },
        decreases to - i,
    {
        let c = span.char_at(i);
        let ghost before = out@;
        if c == '\\' {
            if i + 1 >= to {
                return None;
            }
            match escape_text(span.char_at(i + 1)) {
                Some(piece) => {
                    out.append(piece);
                    proof {
                        match unescaped(text, i + 2, to as int) {
                            Some(rest) => {
                                assert(before + (seq![escaped(text[i + 1]).unwrap()] + rest)
                                    =~= out@ + rest);
                            },
                            None => {},
                        }
                    }
                    i += 2;
                },
                None => {
                    return None;
                },
            }
        } else {
            out.append(span.text_between(i, i + 1));
            proof {
                assert(span@.text.subrange(i as int, i + 1) =~= seq![c]);
                match unescaped(text, i + 1, to as int) {
                    Some(rest) => {
                        assert(before + (seq![c] + rest) =~= out@ + rest);
                    },
                    None => {},
                }
            }
            i += 1;
        }
    }
    assert(out@ + Seq::<char>::empty() =~= out@);
    Some(out)
}

/// Reads the string operand between `from` and the end of the line at `to`.
fn read_string(span: &Span, from: usize, to: usize) -> (r: Option<String>)
    requires
        span.wf(),
        from <= to <= span@.end,
    ensures
        match r {
            Some(s) => string_operand(span@.visible(), from as int, to as int) == Some(s@),
            None => string_operand(span@.visible(), from as int, to as int) is None,
        },
{
    proof {
        span.lemma_wf();
    }
    let open = scan_span(span, from, to, Until::NonSpace);
    if open >= to || span.char_at(open) != '"' {
        return None;
    }
    let close = string_end_span(span, open + 1, to);
    if close >= to {
        return None;
    }
    let behind = scan_span(span, close + 1, to, Until::NonSpace);
    if behind < to && span.char_at(behind) != '#' {
        return None;
    }
    unescape_span(span, open + 1, close)
}

/// Reads the one number, up to `limit`, that the operand tokens of a directive
/// denote.  An error is reported at the beginning of `i`.
fn read_number(arguments: &Vec<String>, limit: u32, i: &Span) -> (r: Result<u32, ParserVerboseError>)
    requires
        i.wf(),
    ensures
        match r {
            Ok(value) => number_operand(arguments@.map_values(|s: String| s@), limit) == Ok::<
                u32,
                Fault,
            >(value),
            Err(error) => number_operand(arguments@.map_values(|s: String| s@), limit) matches Err(
                fault,
            ) && reports(error, i@, fault),
        },
{
    match check_argument_counts(arguments, 1, i) {
        Err(e) => {
            return Err(e);
        },
        Ok(_) => {},
    }
    assert(arguments@[0]@ == arguments@.map_values(|s: String| s@)[0]);
    match parse_u32(arguments[0].as_str()) {
        Some(value) => {
            if value <= limit {
                return Ok(value);
            }
        },
        None => {},
    }
    Err(parse_error(i, ParseErrorKind::SyntaxError, "unable to parse data value".to_owned()))
}

/// Builds the directive that the word `word` denotes with the operand text
/// between `from` and the end of the line at `to`.  An error is reported at the
/// beginning of `i`.
fn read_directive(word: &str, i: &Span, from: usize, to: usize) -> (r: Result<
    DataDirective,
    ParserVerboseError,
>)
    requires
        i.wf(),
        i@.offset <= from <= to <= i@.end,
    ensures
        match r {
            Ok(directive) => directive_of(word@, i@.visible(), from as int, to as int) == Ok::<
                DataDirectiveView,
                Fault,
            >(directive@),
            Err(error) => directive_of(word@, i@.visible(), from as int, to as int) matches Err(
                fault,
            ) && reports(error, i@, fault),
        },
{
    proof {
        lemma_directive_words();
    }
    let is_string = same_text(word, ".ascii") || same_text(word, ".asciiz");
    if is_string {
        return match read_string(i, from, to) {
            Some(content) => if same_text(word, ".ascii") {
                Ok(DataDirective::Ascii(content))
            } else {
                Ok(DataDirective::AsciiZero(content))
            },
            None => Err(
                parse_error(i, ParseErrorKind::SyntaxError, "unable to parse string".to_owned()),
            ),
        };
    }
    let stop = scan_span(i, from, to, Until::ContentEnd);
    let arguments = split_operands(i, from, stop);
    if same_text(word, ".byte") {
        match read_number(&arguments, 0xFF, i) {
            Ok(value) => Ok(DataDirective::Byte(value as u8)),
            Err(e) => Err(e),
        }
    } else if same_text(word, ".half") {
        match read_number(&arguments, 0xFFFF, i) {
            Ok(value) => Ok(DataDirective::HalfWord(value as u16)),
            Err(e) => Err(e),
        }
    } else if same_text(word, ".word") {
        match read_number(&arguments, 0xFFFF_FFFF, i) {
            Ok(value) => Ok(DataDirective::Word(value)),
            Err(e) => Err(e),
        }
    } else if same_text(word, ".space") {
        match read_number(&arguments, 0xFFFF_FFFF, i) {
            Ok(value) => Ok(DataDirective::Space(value)),
            Err(e) => Err(e),
        }
    } else if same_text(word, ".align") {
        match read_number(&arguments, 0xFFFF_FFFF, i) {
            Ok(value) => Ok(DataDirective::Align(value)),
            Err(e) => Err(e),
        }
    } else {
        let msg = String::from_str("invalid directive: ").concat(word);
        Err(parse_error(i, ParseErrorKind::SyntaxError, msg))
    }
}

/// Parses the first datum of `i`.  Returns the datum and the span that begins at
/// the next one, behind blanks and comments.  An error is reported at the line
/// that is wrong, with the text from there on.
pub fn parse_directive<'a>(i: Span<'a>) -> (r: Result<(Span<'a>, DataMap), ParserVerboseError>)
    requires
        i.wf(),
    ensures
        match r {
            Ok((rest, datum)) => {
                &&& parse_datum(i@.visible(), i@.offset) == Ok::<
                    (DataMapView, int),
                    (Fault, int),
                >((datum@, rest@.offset))
                &&& rest.wf()
                &&& rest@ == i@.starting_at(rest@.offset)
                &&& i@.offset < rest@.offset
            },
            Err(error) => {
                &&& parse_datum(i@.visible(), i@.offset) matches Err((fault, at))
                &&& reports(error, i@.starting_at(at), fault)
            },
        },
{
    proof {
        i.lemma_wf();
        lemma_skip_blank(i@.visible(), i@.offset, false);
    }
    let ghost text = i@.visible();
    let end = i.end_position();
    let start = skip_blank_span(&i, i.position());
    let at = i.advanced_to(start);
    assert(at@.visible() == text);
    if start >= end {
        return Err(parse_error(&at, ParseErrorKind::SyntaxError, "expected a directive".to_owned()));
    }
    let stop = scan_span(&at, start, end, Until::ContentEnd);
    let line_end = scan_span(&at, start, end, Until::LineEnd);
    let first = scan_span(&at, start, stop, Until::Space);
    proof {
        lemma_scan(text, start as int, end as int, Until::ContentEnd);
        lemma_scan(text, start as int, end as int, Until::LineEnd);
        lemma_scan(text, start as int, stop as int, Until::Space);
        lemma_skip_blank(text, line_end as int, false);
    }
    let named = first - start >= 2 && at.char_at(first - 1) == ':';
    let name = if named {
        at.text_between(start, first - 1).to_owned()
    } else {
        String::new()
    };
    let word_start = if named {
        scan_span(&at, first, stop, Until::NonSpace)
    } else {
        start
    };
    if word_start >= stop {
        return Err(parse_error(&at, ParseErrorKind::SyntaxError, "expected a directive".to_owned()));
    }
    let word_end = scan_span(&at, word_start, stop, Until::Space);
    assert(stop <= line_end) by {
        lemma_scan_within(text, start as int, end as int);
    }
    let word = at.text_between(word_start, word_end);
    assert(word@ =~= text.subrange(word_start as int, word_end as int));
    assert(name@ =~= if has_name(text, start as int) {
        text.subrange(start as int, first - 1)
    } else {
        Seq::empty()
    });
    let next = skip_blank_span(&at, line_end);
    match read_directive(word, &at, word_end, line_end) {
        Ok(data) => Ok((at.advanced_to(next), DataMap::new(name, data))),
        Err(error) => Err(error),
    }
}

/// A line's content ends no later than the line.
proof fn lemma_scan_within(text: Seq<char>, from: int, to: int)
    requires
        0 <= from <= to <= text.len(),
    ensures
        scan(text, from, to, Until::ContentEnd) <= scan(text, from, to, Until::LineEnd),
    decreases to - from,
{
    if from < to && text[from] != '\n' && text[from] != '#' {
        lemma_scan_within(text, from + 1, to);
    } else {
        lemma_scan(text, from, to, Until::LineEnd);
    }
}

/// Parses the data of `i` up to its end.  Returns them with the empty span that
/// is left.  The first error stops the parse.
#[verifier::loop_isolation(false)]
pub fn parse_data<'a>(i: Span<'a>) -> (r: Result<(Span<'a>, Vec<DataMap>), ParserVerboseError>)
    requires
        i.wf(),
    ensures
        match r {
            Ok((rest, data)) => {
                &&& parse_data_all(i@.visible(), i@.offset) == Ok::<
                    Seq<DataMapView>,
                    (Fault, int),
                >(data@.map_values(|d: DataMap| d@))
                &&& rest.wf()
                &&& rest@ == i@.starting_at(i@.end)
            },
            Err(error) => {
                &&& parse_data_all(i@.visible(), i@.offset) matches Err((fault, at))
                &&& reports(error, i@.starting_at(at), fault)
            },
        },
{
    proof {
        i.lemma_wf();
    }
    let ghost text = i@.visible();
    let ghost origin = i@;
    let end = i.end_position();
    let mut data: Vec<DataMap> = Vec::new();
    let mut rest = i;
    loop
        invariant
            rest.wf(),
            text == origin.visible(),
            end == origin.end,
            0 <= origin.offset <= origin.end <= origin.text.len(),
            rest@ == origin.starting_at(rest@.offset),
            origin.offset <= rest@.offset <= origin.end,
            prepended_data(
                data@.map_values(|d: DataMap| d@),
                parse_data_all(text, rest@.offset),
            ) == parse_data_all(text, origin.offset),
        decreases origin.end - rest@.offset,
    {
        let ghost pos = rest@.offset;
        let ghost before = data@.map_values(|d: DataMap| d@);
        assert(rest@.visible() == text);
        let start = skip_blank_span(&rest, rest.position());
        if start >= end {
            assert(before + Seq::<DataMapView>::empty() =~= before);
            return Ok((rest.advanced_to(end), data));
        }
        match parse_directive(rest) {
            Ok((remaining, datum)) => {
                proof {
                    remaining.lemma_wf();
                }
                data.push(datum);
                let ghost after = data@.map_values(|d: DataMap| d@);
                assert(after =~= before + seq![datum@]);
                proof {
                    match parse_data_all(text, remaining@.offset) {
                        Ok(more) => {
                            assert(before + (seq![datum@] + more) =~= after + more);
                        },
                        Err(e) => {},
                    }
                }
                rest = remaining;
            },
            Err(err) => {
                return Err(err);
            },
        }
    }
}

/// The outcome of a parse of which `done` was parsed before and `rest` is the
/// outcome of what follows.
pub open spec fn prepended_data(
    done: Seq<DataMapView>,
    rest: Result<Seq<DataMapView>, (Fault, int)>,
) -> Result<Seq<DataMapView>, (Fault, int)> {
    match rest {
        Ok(more) => Ok(done + more),
        Err(e) => Err(e),
    }
}

/// Parses the data of a source: those of its `.data` section, which runs from
/// behind the `.data` marker to the end of the source.  A source without a
/// `.data` marker has no data.
pub fn parse_data_section(src_in: &str) -> (r: Result<Vec<DataMap>, ParserVerboseError>)
    ensures
        match r {
            Ok(data) => parse_data_source(src_in@) == Ok::<Seq<DataMapView>, (Fault, int)>(
                data@.map_values(|d: DataMap| d@),
            ),
            Err(error) => {
                &&& parse_data_source(src_in@) matches Err((fault, at))
                &&& reports(
                    error,
                    SpanView { text: src_in@, offset: at, end: src_in@.len() as int },
                    fault,
                )
            },
        },
{
    proof {
        reveal_strlit(".data");
    }
    let whole = Span::new(src_in);
    let len = whole.end_position();
    match find_in_span(&whole, ".data") {
        None => {
            let data: Vec<DataMap> = Vec::new();
            assert(data@.map_values(|d: DataMap| d@) =~= Seq::<DataMapView>::empty());
            Ok(data)
        },
        Some(data_index) => {
            let span = whole.narrowed_to(data_index + 5, len);
            assert(span@.visible() =~= src_in@);
            match parse_data(span) {
                Ok((_, data)) => Ok(data),
                Err(error) => Err(error),
            }
        },
    }
}

} // verus!
