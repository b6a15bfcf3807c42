use vstd::prelude::*;
use crate::dsl::outcome;
use crate::error::{Error, InterpretError, SyntaxError};
use crate::interp::eval;
use crate::layout::Layout;
use crate::lexer::lexemes;
use crate::parser::{read_all, read_expr, read_operand};
use crate::syntax::{binary_node, unary_node, BinaryOp, Syntax, UnaryOp};
use crate::token::{Token, TokenKind};

verus! {

/// Reading within `x` does not depend on what stands around it: a reading
/// of `x` from `pos` is the same reading, shifted, inside `pre + x + post`.
/// An expression must stop before the end of `x`, since it looks at the
/// next token to decide whether it goes on.
pub proof fn lemma_frame(pre: Seq<Token>, x: Seq<Token>, post: Seq<Token>, pos: int)
    ensures
        read_operand(x, pos) is Ok ==> read_operand(pre + x + post, pre.len() + pos) == Ok::<
            (Syntax, int),
            SyntaxError,
        >((read_operand(x, pos)->Ok_0.0, pre.len() + read_operand(x, pos)->Ok_0.1)),
        read_expr(x, pos) is Ok && read_expr(x, pos)->Ok_0.1 < x.len() ==> read_expr(
            pre + x + post,
            pre.len() + pos,
        ) == Ok::<(Syntax, int), SyntaxError>(
            (read_expr(x, pos)->Ok_0.0, pre.len() + read_expr(x, pos)->Ok_0.1),
        ),
    decreases x.len() - pos,
{
    let t = pre + x + post;
    let n = pre.len();
    assert(forall|i: int| 0 <= i < x.len() ==> #[trigger] t[n + i] == x[i]);
    lemma_operand_advances(x, pos);
    if 0 <= pos < x.len() {
        match x[pos].kind {
            TokenKind::Prefix(_) => {
                lemma_frame(pre, x, post, pos + 1);
            },
            TokenKind::Open => {
                lemma_frame(pre, x, post, pos + 1);
            },
            _ => {},
        }
    }
    match read_operand(x, pos) {
        Ok((l, q)) => if pos < q < x.len() && x[q].kind is Infix {
            lemma_frame(pre, x, post, q + 1);
        },
        Err(_) => {},
    }
}

/// An operand that reads ends after where it starts, and an expression
/// too.
pub proof fn lemma_operand_advances(t: Seq<Token>, pos: int)
    ensures
        read_operand(t, pos) is Ok ==> pos < read_operand(t, pos)->Ok_0.1,
        read_expr(t, pos) is Ok ==> pos < read_expr(t, pos)->Ok_0.1,
    decreases t.len() - pos,
{
    if 0 <= pos < t.len() {
        match t[pos].kind {
            TokenKind::Prefix(_) => {
                lemma_operand_advances(t, pos + 1);
            },
            TokenKind::Open => {
                lemma_operand_advances(t, pos + 1);
            },
            _ => {},
        }
    }
    match read_operand(t, pos) {
        Ok((l, q)) => if pos < q < t.len() && t[q].kind is Infix {
            lemma_operand_advances(t, q + 1);
        },
        Err(_) => {},
    }
}

/// The number of nodes of a tree.
pub open spec fn size(e: Syntax) -> nat
    decreases e,
{
    match e {
        Syntax::Index(_) | Syntax::Text(_) => 1,
        Syntax::Fix(c) | Syntax::Group(c) | Syntax::Sequence(c) | Syntax::Nest(c) | Syntax::Pack(
            c,
        ) => 1 + size(*c),
        Syntax::SingleLine(a, b) | Syntax::DoubleLine(a, b) | Syntax::UnpadComposition(a, b)
        | Syntax::PadComposition(a, b) | Syntax::FixUnpadComposition(a, b)
        | Syntax::FixPadComposition(a, b) => 1 + size(*a) + size(*b),
    }
}

/// The left operand of an infix node.
pub open spec fn left_of(e: Syntax) -> Syntax {
    match e {
        Syntax::SingleLine(a, _) | Syntax::DoubleLine(a, _) | Syntax::UnpadComposition(a, _)
        | Syntax::PadComposition(a, _) | Syntax::FixUnpadComposition(a, _)
        | Syntax::FixPadComposition(a, _) => *a,
        _ => e,
    }
}

proof fn lemma_binary_node(op: BinaryOp, l: Syntax, r: Syntax)
    ensures
        left_of(binary_node(op, l, r)) == l,
        size(binary_node(op, l, r)) == 1 + size(l) + size(r),
        !(binary_node(op, l, r) is Fix || binary_node(op, l, r) is Group || binary_node(
            op,
            l,
            r,
        ) is Sequence || binary_node(op, l, r) is Nest || binary_node(op, l, r) is Pack),
{
}

/// `x` reads, from its start, as one operand `e` that spans all of it.
pub open spec fn is_operand(x: Seq<Token>, e: Syntax) -> bool {
    read_operand(x, 0) == Ok::<(Syntax, int), SyntaxError>((e, x.len() as int))
}

/// An operand that is framed: read inside `pre + x + post`.
proof fn lemma_operand_at(pre: Seq<Token>, x: Seq<Token>, post: Seq<Token>, e: Syntax)
    requires
        is_operand(x, e),
    ensures
        read_operand(pre + x + post, pre.len() as int) == Ok::<
            (Syntax, int),
            SyntaxError,
        >((e, (pre.len() + x.len()) as int)),
        x.len() > 0,
{
    lemma_frame(pre, x, post, 0);
    lemma_operand_advances(x, 0);
}

/// `a op b op c` reads as `a op (b op c)`.
#[verifier::spinoff_prover]
proof fn lemma_chain(
    a: Seq<Token>,
    b: Seq<Token>,
    c: Seq<Token>,
    ea: Syntax,
    eb: Syntax,
    ec: Syntax,
    o: Token,
    open: Token,
    close: Token,
    end: Token,
)
    requires
        is_operand(a, ea),
        is_operand(b, eb),
        is_operand(c, ec),
        o.kind is Infix,
        open.kind is Open,
        close.kind is Close,
        end.kind is End,
    ensures
        read_all(a + seq![o] + b + seq![o] + c + seq![end]) == Ok::<
            Syntax,
            SyntaxError,
        >(binary_node(o.kind->Infix_0, ea, binary_node(o.kind->Infix_0, eb, ec))),
{
    let op = o.kind->Infix_0;
    let na = a.len() as int;
    let nb = b.len() as int;
    let nc = c.len() as int;
    // a o b o c end
    let t1 = a + seq![o] + b + seq![o] + c + seq![end];
    lemma_operand_at(seq![], a, seq![o] + b + seq![o] + c + seq![end], ea);
    assert(t1 =~= seq![] + a + (seq![o] + b + seq![o] + c + seq![end]));
    lemma_operand_at(a + seq![o], b, seq![o] + c + seq![end], eb);
    assert(t1 =~= (a + seq![o]) + b + (seq![o] + c + seq![end]));
    lemma_operand_at(a + seq![o] + b + seq![o], c, seq![end], ec);
    assert(t1 =~= (a + seq![o] + b + seq![o]) + c + seq![end]);
    assert(t1[na] == o);
    assert(t1[na + 1 + nb] == o);
    assert(t1[na + nb + nc + 2] == end);
    assert(read_expr(t1, na + nb + 2) == Ok::<(Syntax, int), SyntaxError>(
        (ec, na + nb + nc + 2),
    ));
    assert(read_expr(t1, na + 1) == Ok::<(Syntax, int), SyntaxError>(
        (binary_node(op, eb, ec), na + nb + nc + 2),
    ));
    assert(read_expr(t1, 0) == Ok::<(Syntax, int), SyntaxError>(
        (binary_node(op, ea, binary_node(op, eb, ec)), na + nb + nc + 2),
    ));
}

/// `a op (b op c)` reads as `a op (b op c)`.
#[verifier::spinoff_prover]
proof fn lemma_chain_right(
    a: Seq<Token>,
    b: Seq<Token>,
    c: Seq<Token>,
    ea: Syntax,
    eb: Syntax,
    ec: Syntax,
    o: Token,
    open: Token,
    close: Token,
    end: Token,
)
    requires
        is_operand(a, ea),
        is_operand(b, eb),
        is_operand(c, ec),
        o.kind is Infix,
        open.kind is Open,
        close.kind is Close,
        end.kind is End,
    ensures
        read_all(a + seq![o, open] + b + seq![o] + c + seq![close, end]) == Ok::<
            Syntax,
            SyntaxError,
        >(binary_node(o.kind->Infix_0, ea, binary_node(o.kind->Infix_0, eb, ec))),
{
    let op = o.kind->Infix_0;
    let na = a.len() as int;
    let nb = b.len() as int;
    let nc = c.len() as int;
    // a o ( b o c ) end
    let t2 = a + seq![o, open] + b + seq![o] + c + seq![close, end];
    lemma_operand_at(seq![], a, seq![o, open] + b + seq![o] + c + seq![close, end], ea);
    assert(t2 =~= seq![] + a + (seq![o, open] + b + seq![o] + c + seq![close, end]));
    lemma_operand_at(a + seq![o, open], b, seq![o] + c + seq![close, end], eb);
    assert(t2 =~= (a + seq![o, open]) + b + (seq![o] + c + seq![close, end]));
    lemma_operand_at(a + seq![o, open] + b + seq![o], c, seq![close, end], ec);
    assert(t2 =~= (a + seq![o, open] + b + seq![o]) + c + seq![close, end]);
    assert(t2[na] == o);
    assert(t2[na + 1] == open);
    assert(t2[na + 2 + nb] == o);
    assert(t2[na + nb + nc + 3] == close);
    assert(t2[na + nb + nc + 4] == end);
    assert(read_expr(t2, na + nb + 3) == Ok::<(Syntax, int), SyntaxError>(
        (ec, na + nb + nc + 3),
    ));
    assert(read_expr(t2, na + 2) == Ok::<(Syntax, int), SyntaxError>(
        (binary_node(op, eb, ec), na + nb + nc + 3),
    ));
    assert(read_operand(t2, na + 1) == Ok::<(Syntax, int), SyntaxError>(
        (binary_node(op, eb, ec), na + nb + nc + 4),
    ));
    assert(read_expr(t2, na + 1) == Ok::<(Syntax, int), SyntaxError>(
        (binary_node(op, eb, ec), na + nb + nc + 4),
    ));
    assert(read_expr(t2, 0) == Ok::<(Syntax, int), SyntaxError>(
        (binary_node(op, ea, binary_node(op, eb, ec)), na + nb + nc + 4),
    ));
}

/// `(a op b) op c` reads as `(a op b) op c`.
#[verifier::spinoff_prover]
proof fn lemma_chain_left(
    a: Seq<Token>,
    b: Seq<Token>,
    c: Seq<Token>,
    ea: Syntax,
    eb: Syntax,
    ec: Syntax,
    o: Token,
    open: Token,
    close: Token,
    end: Token,
)
    requires
        is_operand(a, ea),
        is_operand(b, eb),
        is_operand(c, ec),
        o.kind is Infix,
        open.kind is Open,
        close.kind is Close,
        end.kind is End,
    ensures
        read_all(seq![open] + a + seq![o] + b + seq![close, o] + c + seq![end]) == Ok::<
            Syntax,
            SyntaxError,
        >(binary_node(o.kind->Infix_0, binary_node(o.kind->Infix_0, ea, eb), ec)),
{
    let op = o.kind->Infix_0;
    let na = a.len() as int;
    let nb = b.len() as int;
    let nc = c.len() as int;
    // ( a o b ) o c end
    let t3 = seq![open] + a + seq![o] + b + seq![close, o] + c + seq![end];
    lemma_operand_at(seq![open], a, seq![o] + b + seq![close, o] + c + seq![end], ea);
    assert(t3 =~= seq![open] + a + (seq![o] + b + seq![close, o] + c + seq![end]));
    lemma_operand_at(seq![open] + a + seq![o], b, seq![close, o] + c + seq![end], eb);
    assert(t3 =~= (seq![open] + a + seq![o]) + b + (seq![close, o] + c + seq![end]));
    lemma_operand_at(seq![open] + a + seq![o] + b + seq![close, o], c, seq![end], ec);
    assert(t3 =~= (seq![open] + a + seq![o] + b + seq![close, o]) + c + seq![end]);
    assert(t3[0] == open);
    assert(t3[na + 1] == o);
    assert(t3[na + nb + 2] == close);
    assert(t3[na + nb + 3] == o);
    assert(t3[na + nb + nc + 4] == end);
    assert(read_expr(t3, na + 2) == Ok::<(Syntax, int), SyntaxError>(
        (eb, na + nb + 2),
    ));
    assert(read_expr(t3, 1) == Ok::<(Syntax, int), SyntaxError>(
        (binary_node(op, ea, eb), na + nb + 2),
    ));
    assert(read_operand(t3, 0) == Ok::<(Syntax, int), SyntaxError>(
        (binary_node(op, ea, eb), na + nb + 3),
    ));
    assert(read_expr(t3, na + nb + 4) == Ok::<(Syntax, int), SyntaxError>(
        (ec, na + nb + nc + 4),
    ));
    assert(read_expr(t3, 0) == Ok::<(Syntax, int), SyntaxError>(
        (binary_node(op, binary_node(op, ea, eb), ec), na + nb + nc + 4),
    ));
}

/// Infix operators group to the right: `a op b op c` reads as
/// `a op (b op c)`, the same tree as with those parentheses written, and
/// not as `(a op b) op c`.
pub proof fn right_associativity(
    a: Seq<Token>,
    b: Seq<Token>,
    c: Seq<Token>,
    ea: Syntax,
    eb: Syntax,
    ec: Syntax,
    o: Token,
    open: Token,
    close: Token,
    end: Token,
)
    requires
        is_operand(a, ea),
        is_operand(b, eb),
        is_operand(c, ec),
        o.kind is Infix,
        open.kind is Open,
        close.kind is Close,
        end.kind is End,
    ensures
        read_all(a + seq![o] + b + seq![o] + c + seq![end]) == Ok::<
            Syntax,
            SyntaxError,
        >(binary_node(o.kind->Infix_0, ea, binary_node(o.kind->Infix_0, eb, ec))),
        read_all(a + seq![o, open] + b + seq![o] + c + seq![close, end]) == read_all(
            a + seq![o] + b + seq![o] + c + seq![end],
        ),
        read_all(seq![open] + a + seq![o] + b + seq![close, o] + c + seq![end]) == Ok::<
            Syntax,
            SyntaxError,
        >(binary_node(o.kind->Infix_0, binary_node(o.kind->Infix_0, ea, eb), ec)),
        binary_node(o.kind->Infix_0, ea, binary_node(o.kind->Infix_0, eb, ec)) != binary_node(
            o.kind->Infix_0,
            binary_node(o.kind->Infix_0, ea, eb),
            ec,
        ),
{
    let op = o.kind->Infix_0;
    lemma_chain(a, b, c, ea, eb, ec, o, open, close, end);
    lemma_chain_right(a, b, c, ea, eb, ec, o, open, close, end);
    lemma_chain_left(a, b, c, ea, eb, ec, o, open, close, end);
    lemma_binary_node(op, ea, binary_node(op, eb, ec));
    lemma_binary_node(op, binary_node(op, ea, eb), ec);
    lemma_binary_node(op, ea, eb);
}

/// Prefix operators bind tighter than infix ones: `p a op b` reads as
/// `(p a) op b`, never as `p (a op b)`.
pub proof fn prefix_binds_tighter(
    a: Seq<Token>,
    b: Seq<Token>,
    ea: Syntax,
    eb: Syntax,
    p: Token,
    o: Token,
    end: Token,
)
    requires
        is_operand(a, ea),
        is_operand(b, eb),
        p.kind is Prefix,
        o.kind is Infix,
        end.kind is End,
    ensures
        read_all(seq![p] + a + seq![o] + b + seq![end]) == Ok::<Syntax, SyntaxError>(
            binary_node(o.kind->Infix_0, unary_node(p.kind->Prefix_0, ea), eb),
        ),
        read_all(seq![p] + a + seq![o] + b + seq![end]) != Ok::<Syntax, SyntaxError>(
            unary_node(p.kind->Prefix_0, binary_node(o.kind->Infix_0, ea, eb)),
        ),
{
    let op = o.kind->Infix_0;
    let uop = p.kind->Prefix_0;
    let t = seq![p] + a + seq![o] + b + seq![end];
    let na = a.len() as int;
    let nb = b.len() as int;
    lemma_operand_at(seq![p], a, seq![o] + b + seq![end], ea);
    assert(t =~= seq![p] + a + (seq![o] + b + seq![end]));
    lemma_operand_at(seq![p] + a + seq![o], b, seq![end], eb);
    assert(t =~= (seq![p] + a + seq![o]) + b + seq![end]);
    assert(t[0] == p);
    assert(t[na + 1] == o);
    assert(t[na + nb + 2] == end);
    assert(read_operand(t, 0) == Ok::<(Syntax, int), SyntaxError>(
        (unary_node(uop, ea), na + 1),
    ));
    assert(read_expr(t, na + 2) == Ok::<(Syntax, int), SyntaxError>(
        (eb, na + nb + 2),
    ));
    assert(read_expr(t, 0) == Ok::<(Syntax, int), SyntaxError>(
        (binary_node(op, unary_node(uop, ea), eb), na + nb + 2),
    ));
    lemma_binary_node(op, unary_node(uop, ea), eb);
}

/// An index reads as the argument at that position, or fails naming the
/// index where there is none.
pub proof fn index_resolution(tok: Token, end: Token, args: Seq<Layout>)
    requires
        tok.kind is Index,
        end.kind is End,
    ensures
        tok.kind->Index_0 < args.len() ==> outcome(seq![tok, end], args) == Ok::<Layout, Error>(
            args[tok.kind->Index_0 as int],
        ),
        tok.kind->Index_0 >= args.len() ==> outcome(seq![tok, end], args) == Err::<Layout, Error>(
            Error::Interpret(InterpretError::IndexOutOfRange(tok.kind->Index_0)),
        ),
{
    let t = seq![tok, end];
    assert(t[0] == tok && t[1] == end);
    assert(read_operand(t, 0) == Ok::<(Syntax, int), SyntaxError>(
        (Syntax::Index(tok.kind->Index_0), 1),
    ));
    assert(read_expr(t, 0) == Ok::<(Syntax, int), SyntaxError>(
        (Syntax::Index(tok.kind->Index_0), 1),
    ));
    assert(read_all(t) == Ok::<Syntax, SyntaxError>(
        Syntax::Index(tok.kind->Index_0),
    ));
}

/// A double line is a single line with an empty layout placed on its own
/// line before the right operand; its failures are those of the single
/// line.
pub proof fn double_line_desugaring(a: Syntax, b: Syntax, args: Seq<Layout>)
    ensures
        eval(Syntax::DoubleLine(Box::new(a), Box::new(b)), args) == match eval(
            Syntax::SingleLine(Box::new(a), Box::new(b)),
            args,
        ) {
            Ok(Layout::Line(l, r)) => Ok(
                Layout::Line(l, Box::new(Layout::Line(Box::new(Layout::Null), r))),
            ),
            other => other,
        },
{
}

/// The result of composing two operands with the given flags.
pub open spec fn composed(a: Syntax, b: Syntax, args: Seq<Layout>, pad: bool, fix: bool) -> Result<
    Layout,
    InterpretError,
> {
    match (eval(a, args), eval(b, args)) {
        (Ok(l), Ok(r)) => Ok(Layout::Comp(Box::new(l), Box::new(r), pad, fix)),
        (Err(x), _) => Err(x),
        (_, Err(x)) => Err(x),
    }
}

/// Each composition operator composes with its own `(padded, fixed)` flags
/// and with no other: `&` with neither, `+` padded, `!&` fixed, `!+` both.
pub proof fn composition_flag_matrix(a: Syntax, b: Syntax, args: Seq<Layout>)
    ensures
        eval(Syntax::UnpadComposition(Box::new(a), Box::new(b)), args) == composed(
            a,
            b,
            args,
            false,
            false,
        ),
        eval(Syntax::PadComposition(Box::new(a), Box::new(b)), args) == composed(
            a,
            b,
            args,
            true,
            false,
        ),
        eval(Syntax::FixUnpadComposition(Box::new(a), Box::new(b)), args) == composed(
            a,
            b,
            args,
            false,
            true,
        ),
        eval(Syntax::FixPadComposition(Box::new(a), Box::new(b)), args) == composed(
            a,
            b,
            args,
            true,
            true,
        ),
{
}

/// A syntax error ends the call before anything is interpreted: whatever
/// the arguments, the outcome is that error.
pub proof fn syntax_error_first(t: Seq<Token>, args: Seq<Layout>)
    requires
        read_all(t) is Err,
    ensures
        outcome(t, args) == Err::<Layout, Error>(Error::Syntax(read_all(t)->Err_0)),
{
}

/// Two trees are alike: the same shape, the same indices and the same
/// text characters.
pub open spec fn alike(a: Syntax, b: Syntax) -> bool
    decreases a,
{
    match (a, b) {
        (Syntax::Index(m), Syntax::Index(n)) => m == n,
        (Syntax::Text(x), Syntax::Text(y)) => x@ == y@,
        (Syntax::Fix(x), Syntax::Fix(y)) => alike(*x, *y),
        (Syntax::Group(x), Syntax::Group(y)) => alike(*x, *y),
        (Syntax::Sequence(x), Syntax::Sequence(y)) => alike(*x, *y),
        (Syntax::Nest(x), Syntax::Nest(y)) => alike(*x, *y),
        (Syntax::Pack(x), Syntax::Pack(y)) => alike(*x, *y),
        (Syntax::SingleLine(x1, x2), Syntax::SingleLine(y1, y2)) => alike(*x1, *y1) && alike(
            *x2,
            *y2,
        ),
        (Syntax::DoubleLine(x1, x2), Syntax::DoubleLine(y1, y2)) => alike(*x1, *y1) && alike(
            *x2,
            *y2,
        ),
        (Syntax::UnpadComposition(x1, x2), Syntax::UnpadComposition(y1, y2)) => alike(*x1, *y1)
            && alike(*x2, *y2),
        (Syntax::PadComposition(x1, x2), Syntax::PadComposition(y1, y2)) => alike(*x1, *y1)
            && alike(*x2, *y2),
        (Syntax::FixUnpadComposition(x1, x2), Syntax::FixUnpadComposition(y1, y2)) => alike(
            *x1,
            *y1,
        ) && alike(*x2, *y2),
        (Syntax::FixPadComposition(x1, x2), Syntax::FixPadComposition(y1, y2)) => alike(*x1, *y1)
            && alike(*x2, *y2),
        _ => false,
    }
}

/// Two readings agree: the same error, or alike trees ending at the same
/// position.
pub open spec fn alike_reading(
    r1: Result<(Syntax, int), SyntaxError>,
    r2: Result<(Syntax, int), SyntaxError>,
) -> bool {
    match (r1, r2) {
        (Ok((e1, q1)), Ok((e2, q2))) => alike(e1, e2) && q1 == q2,
        (Err(x), Err(y)) => x == y,
        _ => false,
    }
}

/// Token lists with the same lexemes read alike from every position.
pub proof fn lemma_alike_reads(t1: Seq<Token>, t2: Seq<Token>, pos: int)
    requires
        lexemes(t1) == lexemes(t2),
    ensures
        alike_reading(read_operand(t1, pos), read_operand(t2, pos)),
        alike_reading(read_expr(t1, pos), read_expr(t2, pos)),
    decreases t1.len() - pos,
{
    assert(t1.len() == lexemes(t1).len() && t2.len() == lexemes(t2).len());
    assert(forall|i: int| 0 <= i < t1.len() ==> #[trigger] t1[i]@ == lexemes(t1)[i]);
    assert(forall|i: int| 0 <= i < t2.len() ==> #[trigger] t2[i]@ == lexemes(t2)[i]);
    if 0 <= pos < t1.len() {
        assert(t1[pos]@ == t2[pos]@);
        match (t1[pos].kind, t2[pos].kind) {
            (TokenKind::Prefix(o1), TokenKind::Prefix(o2)) => {
                lemma_alike_reads(t1, t2, pos + 1);
                match (read_operand(t1, pos + 1), read_operand(t2, pos + 1)) {
                    (Ok((c1, _)), Ok((c2, _))) => lemma_alike_unary(o1, c1, c2),
                    _ => {},
                }
            },
            (TokenKind::Open, TokenKind::Open) => {
                lemma_alike_reads(t1, t2, pos + 1);
                match read_expr(t1, pos + 1) {
                    Ok((_, q)) => if 0 <= q < t1.len() {
                        assert(t1[q]@ == t2[q]@);
                    },
                    Err(_) => {},
                }
            },
            _ => {},
        }
    }
    match (read_operand(t1, pos), read_operand(t2, pos)) {
        (Ok((l1, q)), Ok((l2, _))) => if pos < q < t1.len() && t1[q].kind is Infix {
            assert(t1[q]@ == t2[q]@);
            lemma_alike_reads(t1, t2, q + 1);
            match (read_expr(t1, q + 1), read_expr(t2, q + 1)) {
                (Ok((r1, _)), Ok((r2, _))) => lemma_alike_binary(
                    t1[q].kind->Infix_0,
                    l1,
                    l2,
                    r1,
                    r2,
                ),
                _ => {},
            }
        } else if pos < q < t1.len() {
            assert(t1[q]@ == t2[q]@);
        },
        _ => {},
    }
}

proof fn lemma_alike_unary(op: UnaryOp, a: Syntax, b: Syntax)
    requires
        alike(a, b),
    ensures
        alike(unary_node(op, a), unary_node(op, b)),
{
}

proof fn lemma_alike_binary(op: BinaryOp, a1: Syntax, b1: Syntax, a2: Syntax, b2: Syntax)
    requires
        alike(a1, b1),
        alike(a2, b2),
    ensures
        alike(binary_node(op, a1, a2), binary_node(op, b1, b2)),
{
}

/// Parsing is deterministic: token lists with the same lexemes (as two
/// tokenizations of one input are) give the same error, or trees of the
/// same shape with the same indices and text.
pub proof fn determinism(t1: Seq<Token>, t2: Seq<Token>)
    requires
        lexemes(t1) == lexemes(t2),
    ensures
        match (read_all(t1), read_all(t2)) {
            (Ok(e1), Ok(e2)) => alike(e1, e2),
            (Err(x), Err(y)) => x == y,
            _ => false,
        },
{
    lemma_alike_reads(t1, t2, 0);
    assert(t1.len() == lexemes(t1).len() && t2.len() == lexemes(t2).len());
    match read_expr(t1, 0) {
        Ok((_, q)) => if 0 <= q < t1.len() {
            assert(t1[q]@ == lexemes(t1)[q]);
            assert(t2[q]@ == lexemes(t2)[q]);
        },
        Err(_) => {},
    }
}

} // verus!
