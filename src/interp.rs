use vstd::prelude::*;
use crate::error::InterpretError;
use crate::layout::Layout;
use crate::syntax::Syntax;

verus! {

/// The flags `(padded, fixed)` that each composition node hands to the
/// engine's composition constructor.
pub open spec fn composition_flags(e: Syntax) -> (bool, bool) {
    match e {
        Syntax::UnpadComposition(_, _) => (false, false),
        Syntax::PadComposition(_, _) => (true, false),
        Syntax::FixUnpadComposition(_, _) => (false, true),
        _ => (true, true),
    }
}

/// What interpreting `e` against `args` gives: the layout, or the first
/// index (left before right) that has no argument.
pub open spec fn eval(e: Syntax, args: Seq<Layout>) -> Result<Layout, InterpretError>
    decreases e,
{
    match e {
        Syntax::Index(n) => if n < args.len() {
            Ok(args[n as int])
        } else {
            Err(InterpretError::IndexOutOfRange(n))
        },
        Syntax::Text(s) => Ok(Layout::Text(s)),
        Syntax::Fix(c) => match eval(*c, args) {
            Ok(l) => Ok(Layout::Fix(Box::new(l))),
            Err(x) => Err(x),
        },
        Syntax::Group(c) => match eval(*c, args) {
            Ok(l) => Ok(Layout::Group(Box::new(l))),
            Err(x) => Err(x),
        },
        Syntax::Sequence(c) => match eval(*c, args) {
            Ok(l) => Ok(Layout::Sequence(Box::new(l))),
            Err(x) => Err(x),
        },
        Syntax::Nest(c) => match eval(*c, args) {
            Ok(l) => Ok(Layout::Nest(Box::new(l))),
            Err(x) => Err(x),
        },
        Syntax::Pack(c) => match eval(*c, args) {
            Ok(l) => Ok(Layout::Pack(Box::new(l))),
            Err(x) => Err(x),
        },
        Syntax::SingleLine(a, b) => match (eval(*a, args), eval(*b, args)) {
            (Ok(l), Ok(r)) => Ok(Layout::Line(Box::new(l), Box::new(r))),
            (Err(x), _) => Err(x),
            (_, Err(x)) => Err(x),
        },
        Syntax::DoubleLine(a, b) => match (eval(*a, args), eval(*b, args)) {
            (Ok(l), Ok(r)) => Ok(
                Layout::Line(
                    Box::new(l),
                    Box::new(Layout::Line(Box::new(Layout::Null), Box::new(r))),
                ),
            ),
            (Err(x), _) => Err(x),
            (_, Err(x)) => Err(x),
        },
        Syntax::UnpadComposition(a, b) | Syntax::PadComposition(a, b)
        | Syntax::FixUnpadComposition(a, b) | Syntax::FixPadComposition(a, b) => match (
            eval(*a, args),
            eval(*b, args),
        ) {
            (Ok(l), Ok(r)) => Ok(
                Layout::Comp(Box::new(l), Box::new(r), composition_flags(e).0, composition_flags(e).1),
            ),
            (Err(x), _) => Err(x),
            (_, Err(x)) => Err(x),
        },
    }
}

/// Interprets `e` against `args`, building the layout bottom-up. The first
/// index without an argument, left before right, is reported.
pub fn interpret(e: &Syntax, args: &Vec<Layout>) -> (r: Result<Layout, InterpretError>)
    ensures
        r == eval(*e, args@),
    decreases e,
{
    match e {
        Syntax::Index(n) => if *n < args.len() {
            Ok(args[*n].duplicate())
        } else {
            Err(InterpretError::IndexOutOfRange(*n))
        },
        Syntax::Text(s) => Ok(Layout::text(s.clone())),
        Syntax::Fix(c) => match interpret(c, args) {
            Ok(l) => Ok(Layout::fix(l)),
            Err(x) => Err(x),
        },
        Syntax::Group(c) => match interpret(c, args) {
            Ok(l) => Ok(Layout::grp(l)),
            Err(x) => Err(x),
        },
        Syntax::Sequence(c) => match interpret(c, args) {
            Ok(l) => Ok(Layout::seq(l)),
            Err(x) => Err(x),
        },
        Syntax::Nest(c) => match interpret(c, args) {
            Ok(l) => Ok(Layout::nest(l)),
            Err(x) => Err(x),
        },
        Syntax::Pack(c) => match interpret(c, args) {
            Ok(l) => Ok(Layout::pack(l)),
            Err(x) => Err(x),
        },
        Syntax::SingleLine(a, b) => {
            let left = interpret(a, args);
            let right = interpret(b, args);
            match (left, right) {
                (Ok(l), Ok(r)) => Ok(Layout::line(l, r)),
                (Err(x), _) => Err(x),
                (_, Err(x)) => Err(x),
            }
        },
        Syntax::DoubleLine(a, b) => {
            let left = interpret(a, args);
            let right = interpret(b, args);
            match (left, right) {
                (Ok(l), Ok(r)) => Ok(Layout::line(l, Layout::line(Layout::null(), r))),
                (Err(x), _) => Err(x),
                (_, Err(x)) => Err(x),
            }
        },
        Syntax::UnpadComposition(a, b) => {
            let left = interpret(a, args);
            let right = interpret(b, args);
            compose(left, right, false, false)
        },
        Syntax::PadComposition(a, b) => {
            let left = interpret(a, args);
            let right = interpret(b, args);
            compose(left, right, true, false)
        },
        Syntax::FixUnpadComposition(a, b) => {
            let left = interpret(a, args);
            let right = interpret(b, args);
            compose(left, right, false, true)
        },
        Syntax::FixPadComposition(a, b) => {
            let left = interpret(a, args);
            let right = interpret(b, args);
            compose(left, right, true, true)
        },
    }
}

/// Composes two interpreted operands with the given flags, or passes on
/// the first failure.
fn compose(
    left: Result<Layout, InterpretError>,
    right: Result<Layout, InterpretError>,
    pad: bool,
    fix: bool,
) -> (r: Result<Layout, InterpretError>)
    ensures
        r == match (left, right) {
            (Ok(l), Ok(r)) => Ok(Layout::Comp(Box::new(l), Box::new(r), pad, fix)),
            (Err(x), _) => Err(x),
            (_, Err(x)) => Err(x),
        },
{
    match (left, right) {
        (Ok(l), Ok(r)) => Ok(Layout::comp(l, r, pad, fix)),
        (Err(x), _) => Err(x),
        (_, Err(x)) => Err(x),
    }
}

} // verus!
