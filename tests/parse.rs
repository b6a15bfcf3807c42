use typeset_parser::dsl::{parse, parse_syntax};
use typeset_parser::error::{Error, Expected, InterpretError, SyntaxError};
use typeset_parser::interp::interpret;
use typeset_parser::layout::Layout;
use typeset_parser::lexer::{tokenize, tokenize_chars};
use typeset_parser::parser::{infix_precedence, parse_tokens, INFIX_POWER};
use typeset_parser::syntax::{make_binary, make_unary, BinaryOp, Syntax, UnaryOp};
use typeset_parser::token::{Token, TokenKind};

fn txt(s: &str) -> Layout {
    Layout::text(s.to_string())
}

fn args2() -> Vec<Layout> {
    vec![txt("zero"), txt("one")]
}

fn idx(n: usize) -> Syntax {
    Syntax::Index(n)
}

fn bin(op: BinaryOp, l: Syntax, r: Syntax) -> Syntax {
    make_binary(op, l, r)
}

fn syntax_err(location: usize, expected: Expected) -> SyntaxError {
    SyntaxError { location, expected }
}

const OPS: [(&str, BinaryOp); 6] = [
    ("@", BinaryOp::SingleLine),
    ("@@", BinaryOp::DoubleLine),
    ("&", BinaryOp::UnpadComposition),
    ("+", BinaryOp::PadComposition),
    ("!&", BinaryOp::FixUnpadComposition),
    ("!+", BinaryOp::FixPadComposition),
];

#[test]
fn index_zero_resolves_to_first_argument() {
    assert_eq!(parse("0", &args2()), Ok(txt("zero")));
}

#[test]
fn index_one_resolves_to_second_argument() {
    assert_eq!(parse("1", &args2()), Ok(txt("one")));
}

#[test]
fn index_out_of_range_names_index() {
    let args = vec![txt("only")];
    assert_eq!(
        parse("1", &args),
        Err(Error::Interpret(InterpretError::IndexOutOfRange(1)))
    );
}

#[test]
fn index_out_of_range_with_no_arguments() {
    assert_eq!(
        parse("0 + 7", &args2()),
        Err(Error::Interpret(InterpretError::IndexOutOfRange(7)))
    );
}

#[test]
fn first_failing_index_is_the_leftmost() {
    assert_eq!(
        parse("9 @ 5", &args2()),
        Err(Error::Interpret(InterpretError::IndexOutOfRange(9)))
    );
}

#[test]
fn parse_is_deterministic() {
    let input = "fix (0 + \"a\") @@ grp 1 !& nest pack seq 0";
    assert_eq!(parse(input, &args2()), parse(input, &args2()));
    assert_eq!(parse_syntax(input), parse_syntax(input));
}

#[test]
fn infix_operators_group_to_the_right() {
    for (sym, op) in OPS {
        let flat = format!("0 {} 1 {} 2", sym, sym);
        let right = format!("0 {} (1 {} 2)", sym, sym);
        let left = format!("(0 {} 1) {} 2", sym, sym);
        let expected = bin(op, idx(0), bin(op, idx(1), idx(2)));
        assert_eq!(parse_syntax(&flat), Ok(expected));
        assert_eq!(parse_syntax(&flat), parse_syntax(&right));
        assert_ne!(parse_syntax(&flat), parse_syntax(&left));
        assert_eq!(parse_syntax(&left), Ok(bin(op, bin(op, idx(0), idx(1)), idx(2))));
    }
}

#[test]
fn mixed_infix_operators_group_to_the_right() {
    assert_eq!(
        parse_syntax("0 @ 1 + 2"),
        Ok(bin(
            BinaryOp::SingleLine,
            idx(0),
            bin(BinaryOp::PadComposition, idx(1), idx(2))
        ))
    );
}

#[test]
fn prefix_binds_tighter_than_infix() {
    for (sym, op) in OPS {
        let input = format!("fix 0 {} 1", sym);
        let tight = bin(op, make_unary(UnaryOp::Fix, idx(0)), idx(1));
        let loose = make_unary(UnaryOp::Fix, bin(op, idx(0), idx(1)));
        assert_eq!(parse_syntax(&input), Ok(tight));
        assert_ne!(parse_syntax(&input), Ok(loose));
    }
}

#[test]
fn every_prefix_keyword() {
    let cases = [
        ("fix", UnaryOp::Fix),
        ("grp", UnaryOp::Group),
        ("seq", UnaryOp::Sequence),
        ("nest", UnaryOp::Nest),
        ("pack", UnaryOp::Pack),
    ];
    for (kw, op) in cases {
        let input = format!("{} 0", kw);
        assert_eq!(parse_syntax(&input), Ok(make_unary(op, idx(0))));
    }
}

#[test]
fn stacked_prefixes() {
    assert_eq!(
        parse("fix grp 0", &args2()),
        Ok(Layout::fix(Layout::grp(txt("zero"))))
    );
}

#[test]
fn double_line_is_single_line_with_blank() {
    let got = parse("0 @@ 1", &args2());
    let expected = Layout::line(txt("zero"), Layout::line(Layout::null(), txt("one")));
    assert_eq!(got, Ok(expected));
}

#[test]
fn composition_flags_per_operator() {
    let cases = [
        ("&", false, false),
        ("+", true, false),
        ("!&", false, true),
        ("!+", true, true),
    ];
    for (sym, pad, fix) in cases {
        let input = format!("0 {} 1", sym);
        let expected = Layout::comp(txt("zero"), txt("one"), pad, fix);
        assert_eq!(parse(&input, &args2()), Ok(expected));
    }
}

#[test]
fn single_line_builds_line() {
    assert_eq!(
        parse("0 @ 1", &args2()),
        Ok(Layout::line(txt("zero"), txt("one")))
    );
}

#[test]
fn every_unary_layout() {
    let a = args2();
    assert_eq!(parse("fix 0", &a), Ok(Layout::fix(txt("zero"))));
    assert_eq!(parse("grp 0", &a), Ok(Layout::grp(txt("zero"))));
    assert_eq!(parse("seq 0", &a), Ok(Layout::seq(txt("zero"))));
    assert_eq!(parse("nest 0", &a), Ok(Layout::nest(txt("zero"))));
    assert_eq!(parse("pack 0", &a), Ok(Layout::pack(txt("zero"))));
}

#[test]
fn argument_used_twice() {
    assert_eq!(
        parse("0 + 0", &args2()),
        Ok(Layout::comp(txt("zero"), txt("zero"), true, false))
    );
}

#[test]
fn text_literal_becomes_text_layout() {
    assert_eq!(parse("\"hello\"", &Vec::new()), Ok(txt("hello")));
}

#[test]
fn text_literal_escapes() {
    assert_eq!(
        parse_syntax("\"a\\\"b\\\\c\\nd\\te\""),
        Ok(Syntax::Text("a\"b\\c\nd\te".to_string()))
    );
}

#[test]
fn text_literal_with_non_ascii() {
    assert_eq!(parse_syntax("\"déjà\""), Ok(Syntax::Text("déjà".to_string())));
}

#[test]
fn syntax_error_comes_before_index_error() {
    let none: Vec<Layout> = Vec::new();
    assert_eq!(
        parse("5 +", &none),
        Err(Error::Syntax(syntax_err(3, Expected::Operand)))
    );
    assert_eq!(
        parse("5 + )", &none),
        Err(Error::Syntax(syntax_err(4, Expected::Operand)))
    );
}

#[test]
fn empty_input_expects_operand() {
    assert_eq!(parse_syntax(""), Err(syntax_err(0, Expected::Operand)));
    assert_eq!(parse_syntax("   "), Err(syntax_err(3, Expected::Operand)));
}

#[test]
fn unclosed_paren() {
    assert_eq!(parse_syntax("(0"), Err(syntax_err(2, Expected::CloseParen)));
    assert_eq!(parse_syntax("(0 1"), Err(syntax_err(3, Expected::CloseParen)));
}

#[test]
fn trailing_input() {
    assert_eq!(parse_syntax("0 1"), Err(syntax_err(2, Expected::OperatorOrEnd)));
    assert_eq!(parse_syntax("0)"), Err(syntax_err(1, Expected::OperatorOrEnd)));
}

#[test]
fn unclosed_quote() {
    assert_eq!(parse_syntax("0 + \"abc"), Err(syntax_err(4, Expected::CloseQuote)));
    assert_eq!(parse_syntax("\"ab\\"), Err(syntax_err(0, Expected::CloseQuote)));
}

#[test]
fn unknown_characters_and_words() {
    assert_eq!(parse_syntax("0 $ 1"), Err(syntax_err(2, Expected::TokenStart)));
    assert_eq!(parse_syntax("0 !x 1"), Err(syntax_err(2, Expected::TokenStart)));
    assert_eq!(parse_syntax("foo 1"), Err(syntax_err(0, Expected::TokenStart)));
    assert_eq!(parse_syntax("fixx 1"), Err(syntax_err(0, Expected::TokenStart)));
}

#[test]
fn index_too_large() {
    assert_eq!(
        parse_syntax("0 + 99999999999999999999999"),
        Err(syntax_err(4, Expected::SmallerIndex))
    );
    let max = format!("{}", usize::MAX);
    assert_eq!(parse_syntax(&max), Ok(idx(usize::MAX)));
}

#[test]
fn multi_digit_index() {
    assert_eq!(parse_syntax("  42 "), Ok(idx(42)));
}

#[test]
fn tokens_carry_locations() {
    let toks = tokenize("0 @@ \"x\"").unwrap();
    assert_eq!(
        toks,
        vec![
            Token { kind: TokenKind::Index(0), location: 0 },
            Token { kind: TokenKind::Infix(BinaryOp::DoubleLine), location: 2 },
            Token { kind: TokenKind::Text("x".to_string()), location: 5 },
            Token { kind: TokenKind::End, location: 8 },
        ]
    );
}

#[test]
fn tokenize_chars_matches_tokenize() {
    let chars: Vec<char> = "(grp 1)&2".chars().collect();
    assert_eq!(tokenize_chars(&chars), tokenize("(grp 1)&2"));
    let toks = tokenize_chars(&chars).unwrap();
    assert_eq!(toks.len(), 7);
    assert_eq!(toks[0].kind, TokenKind::Open);
    assert_eq!(toks[1].kind, TokenKind::Prefix(UnaryOp::Group));
    assert_eq!(toks[4].kind, TokenKind::Infix(BinaryOp::UnpadComposition));
}

#[test]
fn parse_tokens_on_hand_built_list() {
    let toks = vec![
        Token { kind: TokenKind::Prefix(UnaryOp::Nest), location: 0 },
        Token { kind: TokenKind::Index(3), location: 1 },
        Token { kind: TokenKind::Infix(BinaryOp::SingleLine), location: 2 },
        Token { kind: TokenKind::Text("t".to_string()), location: 3 },
        Token { kind: TokenKind::End, location: 4 },
    ];
    assert_eq!(
        parse_tokens(&toks),
        Ok(bin(
            BinaryOp::SingleLine,
            make_unary(UnaryOp::Nest, idx(3)),
            Syntax::Text("t".to_string())
        ))
    );
}

#[test]
fn interpret_on_tree() {
    let tree = bin(BinaryOp::FixPadComposition, idx(1), Syntax::Text("x".to_string()));
    assert_eq!(
        interpret(&tree, &args2()),
        Ok(Layout::comp(txt("one"), txt("x"), true, true))
    );
    assert_eq!(
        interpret(&idx(2), &args2()),
        Err(InterpretError::IndexOutOfRange(2))
    );
}

#[test]
fn precedence_table() {
    for (_, op) in OPS {
        assert_eq!(infix_precedence(op), (INFIX_POWER, true));
    }
}

#[test]
fn duplicate_equals_original() {
    let l = Layout::comp(Layout::nest(txt("a")), Layout::line(Layout::null(), txt("b")), true, false);
    assert_eq!(l.duplicate(), l);
}
