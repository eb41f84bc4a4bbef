//! Checks on the operand tokens of one instruction.

use vstd::prelude::*;

use crate::numbers::decimal_string;
use crate::parser::{parse_error, reports, Fault, ParseErrorKind, ParserVerboseError};
use crate::registers::{register_index, register_to_addr};
use crate::span::Span;

verus! {

/// Checks that there are `expected` operand tokens.  An error is reported at the
/// beginning of `i`.
pub fn check_argument_counts(args: &Vec<String>, expected: usize, i: &Span) -> (r: Result<
    (),
    ParserVerboseError,
>)
    requires
        i.wf(),
    ensures
        args@.len() == expected ==> r is Ok,
        args@.len() != expected ==> (r matches Err(error) && reports(
            error,
            i@,
            Fault::ArgumentCount(expected as nat, args@.len()),
        )),
{
    let actual = args.len();
    if actual != expected {
        let msg = String::from_str("expected ").concat(decimal_string(expected).as_str()).concat(
            " arguments, got ",
        ).concat(decimal_string(actual).as_str());
        return Err(parse_error(i, ParseErrorKind::SyntaxError, msg));
    }
    Ok(())
}

/// Checks that `arg` is a canonical register name.  An error is reported at the
/// beginning of `i`.
pub fn ensure_register(arg: &str, i: &Span) -> (r: Result<(), ParserVerboseError>)
    requires
        i.wf(),
    ensures
        register_index(arg@) is Some ==> r is Ok,
        register_index(arg@) is None ==> (r matches Err(error) && reports(
            error,
            i@,
            Fault::InvalidRegister(arg@),
        )),
{
    if register_to_addr(arg.to_owned()).is_none() {
        let msg = arg.to_owned().concat(" is not a valid register");
        return Err(parse_error(i, ParseErrorKind::InvalidRegister, msg));
    }
    Ok(())
}

} // verus!
