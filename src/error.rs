use vstd::prelude::*;

verus! {

/// The two lexical errors the scanner recovers from.
#[derive(Debug, Clone, Copy, PartialEq, Eq, Structural)]
pub enum ErrorKind {
    /// A byte that starts no token.
    UnexpectedCharacter,
    /// A string literal that reaches the end of input without its closing quote.
    UnterminatedString,
}

impl ErrorKind {
    /// The human-readable message for this error.
    pub fn message(&self) -> (r: &'static str)
        ensures
            *self == ErrorKind::UnexpectedCharacter ==> r@ == "Unexpected character"@,
            *self == ErrorKind::UnterminatedString ==> r@ == "Unterminated string."@,
    {
        match self {
            ErrorKind::UnexpectedCharacter => "Unexpected character",
            ErrorKind::UnterminatedString => "Unterminated string.",
        }
    }
}

/// A lexical error and the 1-based line on which it was found.
#[derive(Debug, Clone, Copy, PartialEq, Eq, Structural)]
pub struct ScanError {
    pub kind: ErrorKind,
    pub line: usize,
}

/// A lexical error as a mathematical value.
pub struct Fault {
    pub kind: ErrorKind,
    pub line: nat,
}

impl View for ScanError {
    type V = Fault;

    open spec fn view(&self) -> Fault {
        Fault { kind: self.kind, line: self.line as nat }
    }
}

} // verus!
