//! A helper that turns a failed result into an assembler error.

use vstd::prelude::*;

use crate::parser::{parse_error, ParseErrorKind, ParserVerboseError};
use crate::span::{column_of, line_of, Span};

verus! {

/// Passes a success through, and turns a failure into a syntax error at the
/// beginning of `i`, with `err_msg` for its message, or the failure's own text
/// where `err_msg` is `None`.
pub fn map_parse_error<T>(i: &Span, result: Result<T, String>, err_msg: Option<&str>) -> (r:
    Result<T, ParserVerboseError>)
    requires
        i.wf(),
    ensures
        match result {
            Ok(value) => r == Ok::<T, ParserVerboseError>(value),
            Err(text) => {
                &&& r matches Err(error)
                &&& error.kind == ParseErrorKind::SyntaxError
                &&& error.line == line_of(i@.text, i@.offset)
                &&& error.column == column_of(i@.text, i@.offset)
                &&& error.input@ == i@.fragment()
                &&& error.msg@ == match err_msg {
                    Some(msg) => msg@,
                    None => text@,
                }
            },
        },
{
    match result {
        Ok(value) => Ok(value),
        Err(text) => {
            let msg = match err_msg {
                Some(msg) => msg.to_owned(),
                None => text,
            };
            Err(parse_error(i, ParseErrorKind::SyntaxError, msg))
        },
    }
}

} // verus!
