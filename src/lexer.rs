use vstd::prelude::*;
use crate::error::{Expected, SyntaxError};
use crate::syntax::{BinaryOp, UnaryOp};
use crate::token::{ends_well, Token, TokenKind};

verus! {

/// A token as the character text determines it: the text payload as
/// characters.
pub enum Lexeme {
    Index(usize),
    Text(Seq<char>),
    Open,
    Close,
    Prefix(UnaryOp),
    Infix(BinaryOp),
    End,
}

impl View for Token {
    type V = (Lexeme, usize);

    open spec fn view(&self) -> (Lexeme, usize) {
        (lexeme_of(self.kind), self.location)
    }
}

/// The lexeme of a token kind.
pub open spec fn lexeme_of(k: TokenKind) -> Lexeme {
    match k {
        TokenKind::Index(n) => Lexeme::Index(n),
        TokenKind::Text(s) => Lexeme::Text(s@),
        TokenKind::Open => Lexeme::Open,
        TokenKind::Close => Lexeme::Close,
        TokenKind::Prefix(op) => Lexeme::Prefix(op),
        TokenKind::Infix(op) => Lexeme::Infix(op),
        TokenKind::End => Lexeme::End,
    }
}

/// The views of a token list.
pub open spec fn lexemes(t: Seq<Token>) -> Seq<(Lexeme, usize)> {
    t.map_values(|x: Token| x@)
}

pub open spec fn is_space(c: char) -> bool {
    c == ' ' || c == '\t' || c == '\n' || c == '\r'
}

pub open spec fn is_digit(c: char) -> bool {
    '0' <= c && c <= '9'
}

pub open spec fn is_letter(c: char) -> bool {
    ('a' <= c && c <= 'z') || ('A' <= c && c <= 'Z')
}

/// The end of the run of digits that starts at `i`.
pub open spec fn digits_end(s: Seq<char>, i: int) -> int
    decreases s.len() - i,
{
    if 0 <= i < s.len() && is_digit(s[i]) {
        digits_end(s, i + 1)
    } else {
        i
    }
}

/// The end of the run of letters that starts at `i`.
pub open spec fn letters_end(s: Seq<char>, i: int) -> int
    decreases s.len() - i,
{
    if 0 <= i < s.len() && is_letter(s[i]) {
        letters_end(s, i + 1)
    } else {
        i
    }
}

/// The number that the decimal digits `s[i..j]` spell.
pub open spec fn decimal_value(s: Seq<char>, i: int, j: int) -> int
    decreases j - i,
{
    if j <= i {
        0
    } else {
        decimal_value(s, i, j - 1) * 10 + (s[j - 1] as int - '0' as int)
    }
}

/// The prefix operator spelled by a word, if any.
pub open spec fn keyword(w: Seq<char>) -> Option<UnaryOp> {
    if w == seq!['f', 'i', 'x'] {
        Some(UnaryOp::Fix)
    } else if w == seq!['g', 'r', 'p'] {
        Some(UnaryOp::Group)
    } else if w == seq!['s', 'e', 'q'] {
        Some(UnaryOp::Sequence)
    } else if w == seq!['n', 'e', 's', 't'] {
        Some(UnaryOp::Nest)
    } else if w == seq!['p', 'a', 'c', 'k'] {
        Some(UnaryOp::Pack)
    } else {
        None
    }
}

/// The character that an escape `\c` inside a text stands for.
pub open spec fn unescape(c: char) -> char {
    if c == 'n' {
        '\n'
    } else if c == 't' {
        '\t'
    } else {
        c
    }
}

/// The body of a text literal read from `i` (just after the opening
/// quote): its characters and the position after the closing quote, or
/// `None` where the input ends first.
pub open spec fn text_body(s: Seq<char>, i: int) -> Option<(Seq<char>, int)>
    decreases s.len() - i,
{
    if i < 0 || i >= s.len() {
        None
    } else if s[i] == '"' {
        Some((Seq::empty(), i + 1))
    } else if s[i] == '\\' {
        if i + 1 >= s.len() {
            None
        } else {
            match text_body(s, i + 2) {
                Some((b, q)) => Some((seq![unescape(s[i + 1])] + b, q)),
                None => None,
            }
        }
    } else {
        match text_body(s, i + 1) {
            Some((b, q)) => Some((seq![s[i]] + b, q)),
            None => None,
        }
    }
}

/// The token that starts at `i` (a character that is not a space), and
/// the position after it.
pub open spec fn token_at(s: Seq<char>, i: int) -> Result<(Lexeme, int), SyntaxError> {
    let c = s[i];
    let loc = i as usize;
    if is_digit(c) {
        let j = digits_end(s, i);
        if decimal_value(s, i, j) <= usize::MAX {
            Ok((Lexeme::Index(decimal_value(s, i, j) as usize), j))
        } else {
            Err(SyntaxError { location: loc, expected: Expected::SmallerIndex })
        }
    } else if is_letter(c) {
        let j = letters_end(s, i);
        match keyword(s.subrange(i, j)) {
            Some(op) => Ok((Lexeme::Prefix(op), j)),
            None => Err(SyntaxError { location: loc, expected: Expected::TokenStart }),
        }
    } else if c == '"' {
        match text_body(s, i + 1) {
            Some((b, q)) => Ok((Lexeme::Text(b), q)),
            None => Err(SyntaxError { location: loc, expected: Expected::CloseQuote }),
        }
    } else if c == '(' {
        Ok((Lexeme::Open, i + 1))
    } else if c == ')' {
        Ok((Lexeme::Close, i + 1))
    } else if c == '@' {
        if i + 1 < s.len() && s[i + 1] == '@' {
            Ok((Lexeme::Infix(BinaryOp::DoubleLine), i + 2))
        } else {
            Ok((Lexeme::Infix(BinaryOp::SingleLine), i + 1))
        }
    } else if c == '&' {
        Ok((Lexeme::Infix(BinaryOp::UnpadComposition), i + 1))
    } else if c == '+' {
        Ok((Lexeme::Infix(BinaryOp::PadComposition), i + 1))
    } else if c == '!' && i + 1 < s.len() && s[i + 1] == '&' {
        Ok((Lexeme::Infix(BinaryOp::FixUnpadComposition), i + 2))
    } else if c == '!' && i + 1 < s.len() && s[i + 1] == '+' {
        Ok((Lexeme::Infix(BinaryOp::FixPadComposition), i + 2))
    } else {
        Err(SyntaxError { location: loc, expected: Expected::TokenStart })
    }
}

/// The tokens of `s` from position `i` on, ending with `End` at the end of
/// the input, or the first error.
pub open spec fn lex_from(s: Seq<char>, i: int) -> Result<Seq<(Lexeme, usize)>, SyntaxError>
    decreases s.len() - i,
{
    if i < 0 || i >= s.len() {
        Ok(seq![(Lexeme::End, s.len() as usize)])
    } else if is_space(s[i]) {
        lex_from(s, i + 1)
    } else {
        match token_at(s, i) {
            Err(x) => Err(x),
            Ok((lx, j)) => if i < j <= s.len() {
                match lex_from(s, j) {
                    Err(x) => Err(x),
                    Ok(rest) => Ok(seq![(lx, i as usize)] + rest),
                }
            } else {
                Err(SyntaxError { location: i as usize, expected: Expected::TokenStart })
            },
        }
    }
}

/// The tokens of a whole input.
pub open spec fn lex(s: Seq<char>) -> Result<Seq<(Lexeme, usize)>, SyntaxError> {
    lex_from(s, 0)
}

/// A successful tokenization ends with `End`.
proof fn lemma_lex_ends(s: Seq<char>, i: int)
    ensures
        lex_from(s, i) is Ok ==> lex_from(s, i)->Ok_0.len() > 0 && lex_from(s, i)->Ok_0.last().0
            is End,
    decreases s.len() - i,
{
    if 0 <= i < s.len() {
        if is_space(s[i]) {
            lemma_lex_ends(s, i + 1);
        } else {
            match token_at(s, i) {
                Err(_) => {},
                Ok((lx, j)) => if i < j <= s.len() {
                    lemma_lex_ends(s, j);
                    match lex_from(s, j) {
                        Err(_) => {},
                        Ok(rest) => {
                            assert((seq![(lx, i as usize)] + rest).last() == rest.last());
                        },
                    }
                },
            }
        }
    }
}

fn is_space_char(c: char) -> (r: bool)
    ensures
        r == is_space(c),
{
    c == ' ' || c == '\t' || c == '\n' || c == '\r'
}

fn is_digit_char(c: char) -> (r: bool)
    ensures
        r == is_digit(c),
{
    '0' <= c && c <= '9'
}

fn is_letter_char(c: char) -> (r: bool)
    ensures
        r == is_letter(c),
{
    ('a' <= c && c <= 'z') || ('A' <= c && c <= 'Z')
}

/// Reads the run of digits at `start`: its end, and its value where that
/// fits in a `usize`.
fn scan_digits(s: &Vec<char>, start: usize) -> (r: (usize, Option<usize>))
    requires
        start <= s@.len(),
    ensures
        r.0 == digits_end(s@, start as int),
        start <= r.0 <= s@.len(),
        start < s@.len() && is_digit(s@[start as int]) ==> start < r.0,
        r.1 == if decimal_value(s@, start as int, r.0 as int) <= usize::MAX {
            Some(decimal_value(s@, start as int, r.0 as int) as usize)
        } else {
            None::<usize>
        },
{
    let mut j: usize = start;
    let mut value: usize = 0;
    let mut fits = true;
    while j < s.len() && is_digit_char(s[j])
        invariant
            start <= j <= s@.len(),
            digits_end(s@, start as int) == digits_end(s@, j as int),
            decimal_value(s@, start as int, j as int) >= 0,
            fits ==> value == decimal_value(s@, start as int, j as int),
            !fits ==> decimal_value(s@, start as int, j as int) > usize::MAX,
        decreases s@.len() - j,
    {
        let d = (s[j] as u32 - '0' as u32) as usize;
        let ghost before = decimal_value(s@, start as int, j as int);
        assert(decimal_value(s@, start as int, j + 1) == before * 10 + d);
        if fits && value <= (usize::MAX - d) / 10 {
            assert(value * 10 + d <= usize::MAX) by (nonlinear_arith)
                requires
                    value <= (usize::MAX - d) / 10,
                    d <= 9,
            ;
            value = value * 10 + d;
        } else {
            if fits {
                assert(value * 10 + d > usize::MAX) by (nonlinear_arith)
                    requires
                        value > (usize::MAX - d) / 10,
                        d <= 9,
            ;
            } else {
                assert(before * 10 + d > usize::MAX) by (nonlinear_arith)
                    requires
                        before > usize::MAX,
                        d <= 9,
            ;
            }
            fits = false;
        }
        j = j + 1;
    }
    if fits {
        (j, Some(value))
    } else {
        (j, None)
    }
}

/// Reads the run of letters at `start`, returning its end.
fn scan_letters(s: &Vec<char>, start: usize) -> (r: usize)
    requires
        start <= s@.len(),
    ensures
        r == letters_end(s@, start as int),
        start <= r <= s@.len(),
        start < s@.len() && is_letter(s@[start as int]) ==> start < r,
{
    let mut j: usize = start;
    while j < s.len() && is_letter_char(s[j])
        invariant
            start <= j <= s@.len(),
            letters_end(s@, start as int) == letters_end(s@, j as int),
        decreases s@.len() - j,
    {
        j = j + 1;
    }
    j
}

/// The prefix operator that the word `s[i..j]` spells, if any.
fn match_keyword(s: &Vec<char>, i: usize, j: usize) -> (r: Option<UnaryOp>)
    requires
        i <= j <= s@.len(),
    ensures
        r == keyword(s@.subrange(i as int, j as int)),
{
    let ghost w = s@.subrange(i as int, j as int);
    let n = j - i;
    if n == 3 && s[i] == 'f' && s[i + 1] == 'i' && s[i + 2] == 'x' {
        assert(w =~= seq!['f', 'i', 'x']);
        Some(UnaryOp::Fix)
    } else if n == 3 && s[i] == 'g' && s[i + 1] == 'r' && s[i + 2] == 'p' {
        assert(w =~= seq!['g', 'r', 'p']);
        Some(UnaryOp::Group)
    } else if n == 3 && s[i] == 's' && s[i + 1] == 'e' && s[i + 2] == 'q' {
        assert(w =~= seq!['s', 'e', 'q']);
        Some(UnaryOp::Sequence)
    } else if n == 4 && s[i] == 'n' && s[i + 1] == 'e' && s[i + 2] == 's' && s[i + 3] == 't' {
        assert(w =~= seq!['n', 'e', 's', 't']);
        Some(UnaryOp::Nest)
    } else if n == 4 && s[i] == 'p' && s[i + 1] == 'a' && s[i + 2] == 'c' && s[i + 3] == 'k' {
        assert(w =~= seq!['p', 'a', 'c', 'k']);
        Some(UnaryOp::Pack)
    } else {
        assert(w.len() == n);
        assert(w != seq!['f', 'i', 'x'] && w != seq!['g', 'r', 'p'] && w != seq!['s', 'e', 'q']
            && w != seq!['n', 'e', 's', 't'] && w != seq!['p', 'a', 'c', 'k']) by {
            if n == 3 || n == 4 {
                assert(w[0] == s@[i as int] && w[1] == s@[i + 1] && w[2] == s@[i + 2]);
            }
            if n == 4 {
                assert(w[3] == s@[i + 3]);
            }
        };
        None
    }
}

fn unescape_char(c: char) -> (r: char)
    ensures
        r == unescape(c),
{
    if c == 'n' {
        '\n'
    } else if c == 't' {
        '\t'
    } else {
        c
    }
}

/// A text body read from `i` ends after `i` and within the input.
proof fn lemma_text_body_bounds(s: Seq<char>, i: int)
    ensures
        text_body(s, i) is Some ==> i < text_body(s, i)->Some_0.1 <= s.len(),
    decreases s.len() - i,
{
    if 0 <= i < s.len() && s[i] != '"' {
        if s[i] == '\\' {
            if i + 1 < s.len() {
                lemma_text_body_bounds(s, i + 2);
            }
        } else {
            lemma_text_body_bounds(s, i + 1);
        }
    }
}

/// Reads the body of a text literal from `start`, just after its opening
/// quote: its characters and the position after the closing quote.
fn scan_text(s: &Vec<char>, start: usize) -> (r: Option<(Vec<char>, usize)>)
    requires
        start <= s@.len(),
    ensures
        match text_body(s@, start as int) {
            Some((b, q)) => r is Some && r->Some_0.0@ == b && r->Some_0.1 == q && start < q
                <= s@.len(),
            None => r is None,
        },
{
    proof {
        lemma_text_body_bounds(s@, start as int);
    }
    let mut acc: Vec<char> = Vec::new();
    let mut k: usize = start;
    while k < s.len()
        invariant
            start <= k <= s@.len(),
            text_body(s@, start as int) == match text_body(s@, k as int) {
                Some((b, q)) => Some((acc@ + b, q)),
                None => None,
            },
        decreases s@.len() - k,
    {
        let c = s[k];
        if c == '"' {
            assert(acc@ + Seq::<char>::empty() =~= acc@);
            return Some((acc, k + 1));
        } else if c == '\\' {
            if k + 1 >= s.len() {
                return None;
            }
            let ghost old_acc = acc@;
            let u = unescape_char(s[k + 1]);
            acc.push(u);
            proof {
                match text_body(s@, k + 2) {
                    Some((b, q)) => {
                        assert(old_acc + (seq![u] + b) =~= acc@ + b);
                    },
                    None => {},
                }
            }
            k = k + 2;
        } else {
            let ghost old_acc = acc@;
            acc.push(c);
            proof {
                match text_body(s@, k + 1) {
                    Some((b, q)) => {
                        assert(old_acc + (seq![c] + b) =~= acc@ + b);
                    },
                    None => {},
                }
            }
            k = k + 1;
        }
    }
    None
}

/// Relies on `String`'s `FromIterator<char>`: the string holds the
/// characters in order.
#[verifier::external_body]
fn string_from_chars(v: &Vec<char>) -> (r: String)
    ensures
        r@ == v@,
{
    v.iter().collect()
}

/// Relies on `str::chars`: it yields the characters of the string in order.
#[verifier::external_body]
fn chars_of(s: &str) -> (r: Vec<char>)
    ensures
        r@ == s@,
{
    s.chars().collect()
}

/// Reads the token that starts at `i`, a character that is not a space.
fn next_token(s: &Vec<char>, i: usize) -> (r: Result<(TokenKind, usize), SyntaxError>)
    requires
        i < s@.len(),
    ensures
        match token_at(s@, i as int) {
            Ok((lx, j)) => r is Ok && lexeme_of(r->Ok_0.0) == lx && r->Ok_0.1 == j && i < j
                <= s@.len(),
            Err(x) => r == Err::<(TokenKind, usize), SyntaxError>(x),
        },
{
    let len = s.len();
    let c = s[i];
    if is_digit_char(c) {
        let (j, value) = scan_digits(s, i);
        match value {
            Some(n) => Ok((TokenKind::Index(n), j)),
            None => Err(SyntaxError { location: i, expected: Expected::SmallerIndex }),
        }
    } else if is_letter_char(c) {
        let j = scan_letters(s, i);
        match match_keyword(s, i, j) {
            Some(op) => Ok((TokenKind::Prefix(op), j)),
            None => Err(SyntaxError { location: i, expected: Expected::TokenStart }),
        }
    } else if c == '"' {
        match scan_text(s, i + 1) {
            Some((body, q)) => Ok((TokenKind::Text(string_from_chars(&body)), q)),
            None => Err(SyntaxError { location: i, expected: Expected::CloseQuote }),
        }
    } else if c == '(' {
        Ok((TokenKind::Open, i + 1))
    } else if c == ')' {
        Ok((TokenKind::Close, i + 1))
    } else if c == '@' {
        if i + 1 < s.len() && s[i + 1] == '@' {
            Ok((TokenKind::Infix(BinaryOp::DoubleLine), i + 2))
        } else {
            Ok((TokenKind::Infix(BinaryOp::SingleLine), i + 1))
        }
    } else if c == '&' {
        Ok((TokenKind::Infix(BinaryOp::UnpadComposition), i + 1))
    } else if c == '+' {
        Ok((TokenKind::Infix(BinaryOp::PadComposition), i + 1))
    } else if c == '!' && i + 1 < s.len() && s[i + 1] == '&' {
        Ok((TokenKind::Infix(BinaryOp::FixUnpadComposition), i + 2))
    } else if c == '!' && i + 1 < s.len() && s[i + 1] == '+' {
        Ok((TokenKind::Infix(BinaryOp::FixPadComposition), i + 2))
    } else {
        Err(SyntaxError { location: i, expected: Expected::TokenStart })
    }
}

/// Splits characters into tokens, ending with `End` at the end of the
/// input, or reports the first character where no token can start.
pub fn tokenize_chars(s: &Vec<char>) -> (r: Result<Vec<Token>, SyntaxError>)
    ensures
        match lex(s@) {
            Ok(v) => r is Ok && lexemes(r->Ok_0@) == v,
            Err(x) => r == Err::<Vec<Token>, SyntaxError>(x),
        },
        r is Ok ==> ends_well(r->Ok_0@),
{
    let mut toks: Vec<Token> = Vec::new();
    let mut i: usize = 0;
    while i < s.len()
        invariant
            i <= s@.len(),
            lex(s@) == match lex_from(s@, i as int) {
                Ok(rest) => Ok(lexemes(toks@) + rest),
                Err(x) => Err::<Seq<(Lexeme, usize)>, SyntaxError>(x),
            },
        decreases s@.len() - i,
    {
        if is_space_char(s[i]) {
            i = i + 1;
            continue;
        }
        match next_token(s, i) {
            Err(x) => return Err(x),
            Ok((kind, j)) => {
                let ghost before = lexemes(toks@);
                let tok = Token { kind, location: i };
                let ghost tv = tok@;
                toks.push(tok);
                proof {
                    assert(lexemes(toks@) =~= before.push(tv));
                    match lex_from(s@, j as int) {
                        Ok(rest) => {
                            assert(before + (seq![tv] + rest) =~= lexemes(toks@) + rest);
                        },
                        Err(_) => {},
                    }
                }
                i = j;
            },
        }
    }
    let ghost before = lexemes(toks@);
    let end = Token { kind: TokenKind::End, location: s.len() };
    let ghost tv = end@;
    toks.push(end);
    proof {
        assert(lexemes(toks@) =~= before + seq![tv]);
        assert(toks@.last() == end);
    }
    Ok(toks)
}

/// Splits a text into tokens; see `tokenize_chars`.
pub fn tokenize(input: &str) -> (r: Result<Vec<Token>, SyntaxError>)
    ensures
        match lex(input@) {
            Ok(v) => r is Ok && lexemes(r->Ok_0@) == v,
            Err(x) => r == Err::<Vec<Token>, SyntaxError>(x),
        },
        r is Ok ==> ends_well(r->Ok_0@),
{
    let chars = chars_of(input);
    tokenize_chars(&chars)
}

} // verus!
