use vstd::prelude::*;
use crate::error::{Error, SyntaxError};
use crate::interp::{eval, interpret};
use crate::layout::Layout;
use crate::lexer::{lex, lexemes, tokenize};
use crate::parser::{parse_tokens, read_all};
use crate::syntax::Syntax;
use crate::token::{ends_well, Token};

verus! {

/// What a whole call gives for a token list: the parser's error, or the
/// interpretation of the tree against `args`.
pub open spec fn outcome(t: Seq<Token>, args: Seq<Layout>) -> Result<Layout, Error> {
    match read_all(t) {
        Err(x) => Err(Error::Syntax(x)),
        Ok(e) => match eval(e, args) {
            Ok(l) => Ok(l),
            Err(x) => Err(Error::Interpret(x)),
        },
    }
}

/// Parses a text into a syntax tree.
pub fn parse_syntax(input: &str) -> (r: Result<Syntax, SyntaxError>)
    ensures
        match lex(input@) {
            Err(x) => r == Err::<Syntax, SyntaxError>(x),
            Ok(v) => exists|t: Seq<Token>|
                #![trigger lexemes(t)]
                lexemes(t) == v && ends_well(t) && r == read_all(t),
        },
{
    match tokenize(input) {
        Err(x) => Err(x),
        Ok(toks) => {
            let r = parse_tokens(&toks);
            assert(lexemes(toks@) == lex(input@)->Ok_0 && ends_well(toks@) && r == read_all(
                toks@,
            ));
            r
        },
    }
}

/// Parses a text and interprets it against `args`, the layouts that its
/// indices name. A syntax error is reported before anything is
/// interpreted.
pub fn parse(input: &str, args: &Vec<Layout>) -> (r: Result<Layout, Error>)
    ensures
        match lex(input@) {
            Err(x) => r == Err::<Layout, Error>(Error::Syntax(x)),
            Ok(v) => exists|t: Seq<Token>|
                #![trigger lexemes(t)]
                lexemes(t) == v && ends_well(t) && r == outcome(t, args@),
        },
{
    match tokenize(input) {
        Err(x) => Err(Error::Syntax(x)),
        Ok(toks) => {
            let r = match parse_tokens(&toks) {
                Err(x) => Err(Error::Syntax(x)),
                Ok(e) => match interpret(&e, args) {
                    Ok(l) => Ok(l),
                    Err(x) => Err(Error::Interpret(x)),
                },
            };
            assert(lexemes(toks@) == lex(input@)->Ok_0 && ends_well(toks@) && r == outcome(
                toks@,
                args@,
            ));
            r
        },
    }
}

} // verus!
