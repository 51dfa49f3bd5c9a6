//! A toolkit for assemblers: the statements that an assembler reads, the
//! errors that it reports, and the interface of an instruction encoder.

use vstd::prelude::*;

verus! {

/// The result of a step of an assembler.
pub type AsmResult<T> = Result<T, AsmError>;

/// An error of an assembler.
pub struct AsmError {
    pub kind: AsmErrorKind,
    pub desc: &'static str,
    pub detail: Option<String>,
}

/// The kinds of errors of an assembler.
#[derive(Copy, Clone, Debug, PartialEq, Eq, Structural)]
pub enum AsmErrorKind {
    UnknownMnemonic,
    UnknownDirective,
    UnknownOperand,
    InvalidOperand,
}

/// Encodes input of type `T` into output elements of type `U`.
pub trait Encoder<T, U> {
    /// Encodes the given input into the given output buffer and returns the
    /// number of output elements used.
    fn encode(input: &T, output: &mut [U]) -> AsmResult<usize>;
}

/// One statement of an assembly file.
pub struct AsmStatement<'a> {
    pub kind: AsmStatementKind,
    pub mnem: &'a str,
    pub args: &'a [&'a str],
}

/// The kinds of statements of an assembly file.
#[derive(Copy, Clone, Debug, PartialEq, Eq, Structural)]
pub enum AsmStatementKind {
    Directive,
    Instruction,
}

} // verus!
