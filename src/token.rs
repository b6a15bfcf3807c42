use vstd::prelude::*;
use crate::syntax::{BinaryOp, UnaryOp};

verus! {

/// What a token is.
#[derive(Debug, PartialEq, Eq)]
pub enum TokenKind {
    /// A decimal index, naming an argument position.
    Index(usize),
    /// A quoted text, with its escapes resolved.
    Text(String),
    Open,
    Close,
    Prefix(UnaryOp),
    Infix(BinaryOp),
    /// The end of the input; the last token of every token list.
    End,
}

/// A token and the character offset where it starts.
#[derive(Debug, PartialEq, Eq)]
pub struct Token {
    pub kind: TokenKind,
    pub location: usize,
}

/// A token list as the tokenizer hands it to the parser: it ends with
/// `End`.
pub open spec fn ends_well(t: Seq<Token>) -> bool {
    t.len() > 0 && t.last().kind is End
}

} // verus!
