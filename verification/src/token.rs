//! The lexical data model: token kinds, tokens, and the errors of the lexer
//! and the parser.

use vstd::prelude::*;

verus! {

/// The lexical category of a token.
///
/// `Nil` is the end-of-stream sentinel: the lexer never produces it, the
/// parser appends it once before traversal begins.
#[allow(non_camel_case_types)]
#[derive(Clone, Copy, Debug, PartialEq, Eq, Structural)]
pub enum LexemeKind {
    NUMBER,
    PLUS,
    MINUS,
    MUL,
    DIV,
    LPAREN,
    RPAREN,
    Nil,
}

/// One token. `integral_value` carries the payload: the accumulated decimal
/// value for `NUMBER`, the nesting depth at the moment the parenthesis was
/// seen for `LPAREN` and `RPAREN` (informational only, never used to match
/// brackets), and zero for every other kind.
#[derive(Clone, Copy, Debug, PartialEq, Eq, Structural)]
pub struct Lexeme {
    pub integral_value: u64,
    pub kind: LexemeKind,
}

/// A failure of the lexer, with the 0-based character position at fault.
#[derive(Clone, Copy, Debug, PartialEq, Eq, Structural)]
pub enum LexError {
    /// A character outside digits, whitespace, `+ - * /` and parentheses.
    UnexpectedChar { ch: char, position: usize },
    /// A `)` with no `(` open: the recorded depth would drop below zero.
    UnmatchedCloseParen { position: usize },
    /// A numeric literal grew past what the token payload can hold.
    NumberTooLarge { position: usize },
}

/// What the parser was looking for when it failed.
#[derive(Clone, Copy, Debug, PartialEq, Eq, Structural)]
pub enum Expectation {
    /// A token of one exact kind.
    Kind(LexemeKind),
    /// The two kinds that can open a factor.
    NumberOrLParen,
}

/// A failure of the parser: the token stream does not fit the grammar.
#[derive(Clone, Copy, Debug, PartialEq, Eq, Structural)]
pub enum ParseError {
    UnexpectedToken { found: LexemeKind, expected: Expectation },
}

impl Lexeme {
    /// The sentinel token the parser appends before traversal.
    pub open spec fn nil_spec() -> Lexeme {
        Lexeme { integral_value: 0, kind: LexemeKind::Nil }
    }

    /// Builds the end-of-stream sentinel.
    pub fn nil() -> (r: Lexeme)
        ensures
            r == Lexeme::nil_spec(),
    {
        Lexeme { integral_value: 0, kind: LexemeKind::Nil }
    }
}

} // verus!
