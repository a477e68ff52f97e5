//! Errors reported by the assembler. Every error is fatal for the run
//! that raised it; the location is attached when one is known.

use crate::lexer::Location;
use vstd::prelude::*;

verus! {

/// What went wrong.
#[derive(Clone, Copy, Debug, PartialEq, Eq)]
pub enum ErrorKind {
    /// A character that starts no token.
    UnexpectedChar(char),
    /// A carriage return: only Unix line endings are accepted.
    CarriageReturn,
    /// A quoted literal that is still open at the end of the input.
    UnclosedLiteral,
    /// A backslash in a quoted literal followed by nothing that can be escaped.
    UnsupportedEscape,
    /// A token of another kind than the grammar asks for at this place.
    UnexpectedToken,
    /// The token sequence ended where a token was needed.
    MissingToken,
    /// A register name that neither register table holds.
    UnknownRegister,
    /// A mnemonic or directive that the encoder does not know.
    UnknownMnemonic,
    /// An operand of a shape that the instruction does not take.
    InvalidOperand,
    /// A number literal that is no decimal 64-bit integer.
    InvalidNumber,
    /// An expression whose value leaves the 64-bit range, or divides by zero.
    Arithmetic,
    /// More than one free symbol in one encoded expression.
    AmbiguousRelocation,
    /// A binding or visibility change for a name that was never defined.
    UndefinedSymbol,
    /// An attempt to give a section symbol global binding.
    SectionCannotBeGlobal,
    /// A section flag letter other than `a`, `w` and `x`.
    UnknownSectionFlag(char),
    /// A symbol or relocation that names a section or symbol-table row
    /// which does not exist.
    InconsistentSymbol,
    /// A table, offset or count that does not fit its field in the object file.
    TooLarge,
}

/// An error together with the source location it was detected at.
#[derive(Clone, Copy, Debug, PartialEq, Eq)]
pub struct AsmError {
    pub kind: ErrorKind,
    pub loc: Option<Location>,
}

impl AsmError {
    /// An error without a source location.
    pub fn new(kind: ErrorKind) -> (e: AsmError)
        ensures
            e == (AsmError { kind, loc: None }),
    {
        AsmError { kind, loc: None }
    }

    /// An error detected at `loc`.
    pub fn at(kind: ErrorKind, loc: Location) -> (e: AsmError)
        ensures
            e == (AsmError { kind, loc: Some(loc) }),
    {
        AsmError { kind, loc: Some(loc) }
    }

    /// The same error, now attributed to `loc`.
    pub fn with_location(self, loc: Location) -> (e: AsmError)
        ensures
            e == (AsmError { kind: self.kind, loc: Some(loc) }),
    {
        AsmError { kind: self.kind, loc: Some(loc) }
    }
}

} // verus!
