use vstd::prelude::*;

verus! {

/// What the parser expected where it stopped.
#[derive(Debug, Clone, Copy, PartialEq, Eq)]
pub enum Expected {
    /// An index, a quoted text, `(` or a prefix operator.
    Operand,
    /// An infix operator or the end of the input.
    OperatorOrEnd,
    /// A `)` closing an open parenthesis.
    CloseParen,
    /// A `"` closing a text literal.
    CloseQuote,
    /// A character that starts a token.
    TokenStart,
    /// An index that fits in a machine word.
    SmallerIndex,
}

/// Malformed input: where (a character offset) and what was expected there.
#[derive(Debug, Clone, Copy, PartialEq, Eq)]
pub struct SyntaxError {
    pub location: usize,
    pub expected: Expected,
}

/// A failure of the interpreter.
#[derive(Debug, Clone, Copy, PartialEq, Eq)]
pub enum InterpretError {
    /// An index with no argument at that position.
    IndexOutOfRange(usize),
}

/// Either failure of a whole `parse` call.
#[derive(Debug, Clone, Copy, PartialEq, Eq)]
pub enum Error {
    Syntax(SyntaxError),
    Interpret(InterpretError),
}

} // verus!
