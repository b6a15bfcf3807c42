use vstd::prelude::*;

verus! {

/// The prefix operators, written `fix`, `grp`, `seq`, `nest` and `pack`.
#[derive(Debug, Clone, Copy, PartialEq, Eq)]
pub enum UnaryOp {
    Fix,
    Group,
    Sequence,
    Nest,
    Pack,
}

/// The infix operators, written `@`, `@@`, `&`, `+`, `!&` and `!+`.
#[derive(Debug, Clone, Copy, PartialEq, Eq)]
pub enum BinaryOp {
    SingleLine,
    DoubleLine,
    UnpadComposition,
    PadComposition,
    FixUnpadComposition,
    FixPadComposition,
}

/// The syntax tree of one expression. Each node owns its children.
#[derive(Debug, PartialEq, Eq)]
pub enum Syntax {
    Index(usize),
    Text(String),
    Fix(Box<Syntax>),
    Group(Box<Syntax>),
    Sequence(Box<Syntax>),
    Nest(Box<Syntax>),
    Pack(Box<Syntax>),
    SingleLine(Box<Syntax>, Box<Syntax>),
    DoubleLine(Box<Syntax>, Box<Syntax>),
    UnpadComposition(Box<Syntax>, Box<Syntax>),
    PadComposition(Box<Syntax>, Box<Syntax>),
    FixUnpadComposition(Box<Syntax>, Box<Syntax>),
    FixPadComposition(Box<Syntax>, Box<Syntax>),
}

/// The node that a prefix operator builds over its operand.
pub open spec fn unary_node(op: UnaryOp, child: Syntax) -> Syntax {
    match op {
        UnaryOp::Fix => Syntax::Fix(Box::new(child)),
        UnaryOp::Group => Syntax::Group(Box::new(child)),
        UnaryOp::Sequence => Syntax::Sequence(Box::new(child)),
        UnaryOp::Nest => Syntax::Nest(Box::new(child)),
        UnaryOp::Pack => Syntax::Pack(Box::new(child)),
    }
}

/// The node that an infix operator builds over its operands.
pub open spec fn binary_node(op: BinaryOp, left: Syntax, right: Syntax) -> Syntax {
    match op {
        BinaryOp::SingleLine => Syntax::SingleLine(Box::new(left), Box::new(right)),
        BinaryOp::DoubleLine => Syntax::DoubleLine(Box::new(left), Box::new(right)),
        BinaryOp::UnpadComposition => Syntax::UnpadComposition(Box::new(left), Box::new(right)),
        BinaryOp::PadComposition => Syntax::PadComposition(Box::new(left), Box::new(right)),
        BinaryOp::FixUnpadComposition => Syntax::FixUnpadComposition(
            Box::new(left),
            Box::new(right),
        ),
        BinaryOp::FixPadComposition => Syntax::FixPadComposition(Box::new(left), Box::new(right)),
    }
}

/// Builds the node of a prefix operator.
pub fn make_unary(op: UnaryOp, child: Syntax) -> (r: Syntax)
    ensures
        r == unary_node(op, child),
{
    let b = Box::new(child);
    match op {
        UnaryOp::Fix => Syntax::Fix(b),
        UnaryOp::Group => Syntax::Group(b),
        UnaryOp::Sequence => Syntax::Sequence(b),
        UnaryOp::Nest => Syntax::Nest(b),
        UnaryOp::Pack => Syntax::Pack(b),
    }
}

/// Builds the node of an infix operator.
pub fn make_binary(op: BinaryOp, left: Syntax, right: Syntax) -> (r: Syntax)
    ensures
        r == binary_node(op, left, right),
{
    let l = Box::new(left);
    let r = Box::new(right);
    match op {
        BinaryOp::SingleLine => Syntax::SingleLine(l, r),
        BinaryOp::DoubleLine => Syntax::DoubleLine(l, r),
        BinaryOp::UnpadComposition => Syntax::UnpadComposition(l, r),
        BinaryOp::PadComposition => Syntax::PadComposition(l, r),
        BinaryOp::FixUnpadComposition => Syntax::FixUnpadComposition(l, r),
        BinaryOp::FixPadComposition => Syntax::FixPadComposition(l, r),
    }
}

} // verus!
