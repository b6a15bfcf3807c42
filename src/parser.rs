use vstd::prelude::*;
use crate::error::{Expected, SyntaxError};
use crate::syntax::{binary_node, make_binary, make_unary, unary_node, BinaryOp, Syntax};
use crate::token::{ends_well, Token, TokenKind};

verus! {

/// The grammar, read from position `pos` of `t`:
///
///   expr    := operand (infix expr)?
///   operand := prefix operand | index | text | '(' expr ')'
///
/// so prefix operators bind tighter than infix ones, and all infix
/// operators share one level and group to the right. Each reading gives
/// the tree and the position after it, or the first error.
pub open spec fn read_expr(t: Seq<Token>, pos: int) -> Result<(Syntax, int), SyntaxError>
    decreases t.len() - pos, 1nat,
{
    match read_operand(t, pos) {
        Err(x) => Err(x),
        Ok((left, q)) => if pos < q < t.len() && t[q].kind is Infix {
            match read_expr(t, q + 1) {
                Err(x) => Err(x),
                Ok((right, q2)) => Ok((binary_node(t[q].kind->Infix_0, left, right), q2)),
            }
        } else {
            Ok((left, q))
        },
    }
}

/// An operand read from position `pos` of `t`.
pub open spec fn read_operand(t: Seq<Token>, pos: int) -> Result<(Syntax, int), SyntaxError>
    decreases t.len() - pos, 0nat,
{
    if 0 <= pos < t.len() {
        match t[pos].kind {
            TokenKind::Index(n) => Ok((Syntax::Index(n), pos + 1)),
            TokenKind::Text(s) => Ok((Syntax::Text(s), pos + 1)),
            TokenKind::Prefix(op) => match read_operand(t, pos + 1) {
                Err(x) => Err(x),
                Ok((child, q)) => Ok((unary_node(op, child), q)),
            },
            TokenKind::Open => match read_expr(t, pos + 1) {
                Err(x) => Err(x),
                Ok((inner, q)) => if 0 <= q < t.len() && t[q].kind is Close {
                    Ok((inner, q + 1))
                } else {
                    Err(
                        SyntaxError {
                            location: if 0 <= q < t.len() {
                                t[q].location
                            } else {
                                0
                            },
                            expected: Expected::CloseParen,
                        },
                    )
                },
            },
            _ => Err(SyntaxError { location: t[pos].location, expected: Expected::Operand }),
        }
    } else {
        Err(SyntaxError { location: 0, expected: Expected::Operand })
    }
}

/// The tree that a whole token list reads as: one expression, then `End`.
pub open spec fn read_all(t: Seq<Token>) -> Result<Syntax, SyntaxError> {
    match read_expr(t, 0) {
        Err(x) => Err(x),
        Ok((e, q)) => if 0 <= q < t.len() && t[q].kind is End {
            Ok(e)
        } else {
            Err(
                SyntaxError {
                    location: if 0 <= q < t.len() {
                        t[q].location
                    } else {
                        0
                    },
                    expected: Expected::OperatorOrEnd,
                },
            )
        },
    }
}

/// The binding power of every infix operator. Prefix operators bind
/// tighter than any of them: an operand is read before the climbing loop
/// looks for an operator.
pub const INFIX_POWER: u8 = 1;

/// The binding power and the associativity (`true`: to the right) of an
/// infix operator.
pub fn infix_precedence(op: BinaryOp) -> (r: (u8, bool))
    ensures
        r == (INFIX_POWER, true),
{
    match op {
        BinaryOp::SingleLine | BinaryOp::DoubleLine => (INFIX_POWER, true),
        BinaryOp::UnpadComposition | BinaryOp::PadComposition => (INFIX_POWER, true),
        BinaryOp::FixUnpadComposition | BinaryOp::FixPadComposition => (INFIX_POWER, true),
    }
}

/// Reads an operand at `pos`: a prefix operator and its operand, an index,
/// a text, or an expression in parentheses.
fn parse_operand(t: &Vec<Token>, pos: usize) -> (r: Result<(Syntax, usize), SyntaxError>)
    requires
        ends_well(t@),
        pos < t@.len(),
    ensures
        match r {
            Ok((e, q)) => pos < q < t@.len() && read_operand(t@, pos as int) == Ok::<
                (Syntax, int),
                SyntaxError,
            >((e, q as int)),
            Err(x) => read_operand(t@, pos as int) == Err::<(Syntax, int), SyntaxError>(x),
        },
    decreases t@.len() - pos, 0nat,
{
    let len = t.len();
    let tok = &t[pos];
    assert(pos + 1 < len || tok.kind is End);
    match &tok.kind {
        TokenKind::Index(n) => Ok((Syntax::Index(*n), pos + 1)),
        TokenKind::Text(s) => Ok((Syntax::Text(s.clone()), pos + 1)),
        TokenKind::Prefix(op) => match parse_operand(t, pos + 1) {
            Err(x) => Err(x),
            Ok((child, q)) => Ok((make_unary(*op, child), q)),
        },
        TokenKind::Open => match climb(t, pos + 1, 0) {
            Err(x) => Err(x),
            Ok((inner, q)) => match t[q].kind {
                TokenKind::Close => Ok((inner, q + 1)),
                _ => Err(SyntaxError { location: t[q].location, expected: Expected::CloseParen }),
            },
        },
        _ => Err(SyntaxError { location: tok.location, expected: Expected::Operand }),
    }
}

/// Precedence climbing from `pos`: reads an operand, then, while the next
/// token is an infix operator of at least `min_power`, reads its right
/// operand at the operator's own power (right associativity) and joins.
fn climb(t: &Vec<Token>, pos: usize, min_power: u8) -> (r: Result<(Syntax, usize), SyntaxError>)
    requires
        ends_well(t@),
        pos < t@.len(),
        min_power <= INFIX_POWER,
    ensures
        match r {
            Ok((e, q)) => pos < q < t@.len() && !(t@[q as int].kind is Infix) && read_expr(
                t@,
                pos as int,
            ) == Ok::<(Syntax, int), SyntaxError>((e, q as int)),
            Err(x) => read_expr(t@, pos as int) == Err::<(Syntax, int), SyntaxError>(x),
        },
    decreases t@.len() - pos, 1nat,
{
    let (mut left, mut p) = match parse_operand(t, pos) {
        Err(x) => return Err(x),
        Ok(v) => v,
    };
    let ghost first_end = p;
    let mut joined = false;
    loop
        invariant
            ends_well(t@),
            pos < first_end <= p < t@.len(),
            min_power <= INFIX_POWER,
            !joined ==> p == first_end && read_operand(t@, pos as int) == Ok::<
                (Syntax, int),
                SyntaxError,
            >((left, p as int)),
            joined ==> !(t@[p as int].kind is Infix) && read_expr(t@, pos as int) == Ok::<
                (Syntax, int),
                SyntaxError,
            >((left, p as int)),
        ensures
            pos < p < t@.len(),
            !(t@[p as int].kind is Infix),
            !joined ==> read_operand(t@, pos as int) == Ok::<(Syntax, int), SyntaxError>(
                (left, p as int),
            ),
            joined ==> read_expr(t@, pos as int) == Ok::<(Syntax, int), SyntaxError>(
                (left, p as int),
            ),
        decreases t@.len() - p,
    {
        let op = match t[p].kind {
            TokenKind::Infix(op) => op,
            _ => break,
        };
        let len = t.len();
        assert(p + 1 < len);
        let (power, right_assoc) = infix_precedence(op);
        if power < min_power {
            break;
        }
        let next_min = if right_assoc {
            power
        } else {
            power + 1
        };
        let (right, q) = match climb(t, p + 1, next_min) {
            Err(x) => return Err(x),
            Ok(v) => v,
        };
        left = make_binary(op, left, right);
        p = q;
        joined = true;
    }
    Ok((left, p))
}

/// Parses a token list into a syntax tree: one expression, then the end.
pub fn parse_tokens(t: &Vec<Token>) -> (r: Result<Syntax, SyntaxError>)
    requires
        ends_well(t@),
    ensures
        r == read_all(t@),
{
    match climb(t, 0, 0) {
        Err(x) => Err(x),
        Ok((e, q)) => match t[q].kind {
            TokenKind::End => Ok(e),
            _ => Err(SyntaxError { location: t[q].location, expected: Expected::OperatorOrEnd }),
        },
    }
}

} // verus!
