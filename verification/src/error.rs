//! Evaluation errors and source positions.

use crate::dynamic::Dynamic;
use vstd::prelude::*;

verus! {

/// A location in a script: line and column, both counted from 1; `0` means none.
#[derive(Debug, Clone, Copy, PartialEq, Eq, Structural)]
pub struct Position {
    pub line: u16,
    pub pos: u16,
}

impl Position {
    /// No position.
    pub fn none() -> (r: Position)
        ensures
            r == (Position { line: 0, pos: 0 }),
    {
        Position { line: 0, pos: 0 }
    }

    /// A position at the given line and column.
    pub fn new(line: u16, pos: u16) -> (r: Position)
        ensures
            r == (Position { line, pos }),
    {
        Position { line, pos }
    }
}

/// An error (or a non-local control transfer) raised while evaluating a script.
#[derive(Debug, PartialEq)]
pub enum EvalAltResult {
    /// A system error from the host.
    ErrorSystem(String),
    /// A script that failed to parse.
    ErrorParsing(String, Position),
    /// A custom syntax that failed.
    ErrorCustomSyntax(String, Position),
    /// Too many operations were performed.
    ErrorTooManyOperations(Position),
    /// Too many modules were imported.
    ErrorTooManyModules(Position),
    /// Function calls nested too deeply.
    ErrorStackOverflow(Position),
    /// A value grew beyond a size limit (the name of the limit).
    ErrorDataTooLarge(String, Position),
    /// The script was terminated by the host, with a token value.
    ErrorTerminated(Dynamic, Position),
    /// Too many variables were defined.
    ErrorTooManyVariables(Position),
    /// A variable was not found (its name).
    ErrorVariableNotFound(String, Position),
    /// A value did not have the expected type (expected, actual).
    ErrorMismatchDataType(String, String, Position),
    /// A run-time error raised with a value.
    ErrorRuntime(Dynamic, Position),
    /// An error inside a called function: the function's name, the source it
    /// came from, and the error it raised.
    ErrorInFunctionCall(String, String, Box<EvalAltResult>, Position),
    /// A `return` statement carrying its value.
    Return(Dynamic, Position),
    /// An `exit` statement carrying its value.
    Exit(Dynamic, Position),
}

/// Is this error one that is passed straight through function calls?
pub open spec fn is_system_exception_spec(e: EvalAltResult) -> bool {
    match e {
        EvalAltResult::ErrorSystem(..) => true,
        EvalAltResult::ErrorParsing(..) => true,
        EvalAltResult::ErrorCustomSyntax(..) => true,
        EvalAltResult::ErrorTooManyOperations(..) => true,
        EvalAltResult::ErrorTooManyModules(..) => true,
        EvalAltResult::ErrorStackOverflow(..) => true,
        EvalAltResult::ErrorDataTooLarge(..) => true,
        EvalAltResult::ErrorTerminated(..) => true,
        _ => false,
    }
}

/// The errors passed straight through function calls are exactly the host's
/// system errors, parse and custom-syntax failures, the limits on operations,
/// modules, call depth and data size, and termination by the host; variable
/// limits, missing variables, type mismatches, run-time errors, errors in
/// nested calls, `return` and `exit` are not.
pub proof fn lemma_system_exceptions(e: EvalAltResult)
    ensures
        is_system_exception_spec(e) <==> (e is ErrorSystem || e is ErrorParsing || e is ErrorCustomSyntax
            || e is ErrorTooManyOperations || e is ErrorTooManyModules || e is ErrorStackOverflow
            || e is ErrorDataTooLarge || e is ErrorTerminated),
        e is ErrorTooManyVariables || e is ErrorVariableNotFound || e is ErrorMismatchDataType
            || e is ErrorRuntime || e is ErrorInFunctionCall || e is Return || e is Exit
            ==> !is_system_exception_spec(e),
{
}

/// The error with its position replaced by `pos` (errors without a position are unchanged).
pub open spec fn with_position(e: EvalAltResult, pos: Position) -> EvalAltResult {
    match e {
        EvalAltResult::ErrorSystem(m) => EvalAltResult::ErrorSystem(m),
        EvalAltResult::ErrorParsing(m, _) => EvalAltResult::ErrorParsing(m, pos),
        EvalAltResult::ErrorCustomSyntax(m, _) => EvalAltResult::ErrorCustomSyntax(m, pos),
        EvalAltResult::ErrorTooManyOperations(_) => EvalAltResult::ErrorTooManyOperations(pos),
        EvalAltResult::ErrorTooManyModules(_) => EvalAltResult::ErrorTooManyModules(pos),
        EvalAltResult::ErrorStackOverflow(_) => EvalAltResult::ErrorStackOverflow(pos),
        EvalAltResult::ErrorDataTooLarge(m, _) => EvalAltResult::ErrorDataTooLarge(m, pos),
        EvalAltResult::ErrorTerminated(v, _) => EvalAltResult::ErrorTerminated(v, pos),
        EvalAltResult::ErrorTooManyVariables(_) => EvalAltResult::ErrorTooManyVariables(pos),
        EvalAltResult::ErrorVariableNotFound(n, _) => EvalAltResult::ErrorVariableNotFound(n, pos),
        EvalAltResult::ErrorMismatchDataType(a, b, _) => EvalAltResult::ErrorMismatchDataType(
            a,
            b,
            pos,
        ),
        EvalAltResult::ErrorRuntime(v, _) => EvalAltResult::ErrorRuntime(v, pos),
        EvalAltResult::ErrorInFunctionCall(f, s, e, _) => EvalAltResult::ErrorInFunctionCall(
            f,
            s,
            e,
            pos,
        ),
        EvalAltResult::Return(v, _) => EvalAltResult::Return(v, pos),
        EvalAltResult::Exit(v, _) => EvalAltResult::Exit(v, pos),
    }
}

impl EvalAltResult {
    /// Is this error passed straight through function calls (not wrapped)?
    pub fn is_system_exception(&self) -> (r: bool)
        ensures
            r == is_system_exception_spec(*self),
    {
        match self {
            EvalAltResult::ErrorSystem(..) => true,
            EvalAltResult::ErrorParsing(..) => true,
            EvalAltResult::ErrorCustomSyntax(..) => true,
            EvalAltResult::ErrorTooManyOperations(..) => true,
            EvalAltResult::ErrorTooManyModules(..) => true,
            EvalAltResult::ErrorStackOverflow(..) => true,
            EvalAltResult::ErrorDataTooLarge(..) => true,
            EvalAltResult::ErrorTerminated(..) => true,
            _ => false,
        }
    }

    /// Replace the error's position (errors without a position are unchanged).
    pub fn set_position(&mut self, pos: Position)
        ensures
            *final(self) == with_position(*old(self), pos),
    {
        match self {
            EvalAltResult::ErrorSystem(..) => {},
            EvalAltResult::ErrorParsing(_, p) => *p = pos,
            EvalAltResult::ErrorCustomSyntax(_, p) => *p = pos,
            EvalAltResult::ErrorTooManyOperations(p) => *p = pos,
            EvalAltResult::ErrorTooManyModules(p) => *p = pos,
            EvalAltResult::ErrorStackOverflow(p) => *p = pos,
            EvalAltResult::ErrorDataTooLarge(_, p) => *p = pos,
            EvalAltResult::ErrorTerminated(_, p) => *p = pos,
            EvalAltResult::ErrorTooManyVariables(p) => *p = pos,
            EvalAltResult::ErrorVariableNotFound(_, p) => *p = pos,
            EvalAltResult::ErrorMismatchDataType(_, _, p) => *p = pos,
            EvalAltResult::ErrorRuntime(_, p) => *p = pos,
            EvalAltResult::ErrorInFunctionCall(_, _, _, p) => *p = pos,
            EvalAltResult::Return(_, p) => *p = pos,
            EvalAltResult::Exit(_, p) => *p = pos,
        }
    }
}

} // verus!
