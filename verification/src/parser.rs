//! The parser: recursive descent over a token sequence, building one binary
//! tree, or failing with the token that broke the grammar.
//!
//! The grammar, by falling precedence:
//!
//! ```text
//! expr   := term ( (PLUS | MINUS) term )*      left-associative
//! term   := factor ( (MUL | DIV) factor )*     left-associative
//! factor := NUMBER | LPAREN expr RPAREN
//! ```
//!
//! The specification functions [`p_expr`], [`p_term`] and [`p_factor`] state
//! the grammar directly: each takes the token sequence and a cursor and
//! yields the subtree recognised from that position together with the cursor
//! just past it, or the error. The executable parser is proved to return
//! exactly what they say. Same-precedence operators fold left: `1-2-3`
//! parses as `(1-2)-3`.
//!
//! Before traversal the parser appends the `Nil` sentinel once; success
//! requires the cursor to sit on that sentinel when `expr` returns, so
//! trailing unconsumed tokens are rejected as the start of an unexpected
//! construct.

use vstd::prelude::*;
use vstd::pervasive::arbitrary;
use vstd::pervasive::unreached;

use crate::ast::{ASTNode, ASTNodeKind};
use crate::lexer::Lexer;
use crate::token::{Expectation, Lexeme, LexemeKind, ParseError};

verus! {

/// The token at `i`, with the end-of-stream sentinel standing in for any
/// position outside the sequence.
pub open spec fn tok_at(toks: Seq<Lexeme>, i: int) -> Lexeme {
    if 0 <= i < toks.len() {
        toks[i]
    } else {
        Lexeme::nil_spec()
    }
}

/// The tree-node kind a token kind stands for. Only `NUMBER` and the four
/// operator kinds are ever converted; the parser asks for no other.
pub open spec fn astnode_kind_of(kind: LexemeKind) -> ASTNodeKind {
    match kind {
        LexemeKind::PLUS => ASTNodeKind::ADD,
        LexemeKind::MINUS => ASTNodeKind::SUB,
        LexemeKind::MUL => ASTNodeKind::MUL,
        LexemeKind::DIV => ASTNodeKind::DIV,
        _ => ASTNodeKind::NUMBER,
    }
}

/// What `factor` recognises at cursor `i`: a literal leaf from a `NUMBER`
/// token, or a parenthesised subexpression, whose parentheses leave no node
/// of their own. Anything else is an error naming `NUMBER`/`LPAREN` as the
/// expectation.
pub open spec fn p_factor(toks: Seq<Lexeme>, i: int) -> Result<(ASTNode, int), ParseError>
    decreases toks.len() - i, 0int,
{
    let t = tok_at(toks, i);
    if t.kind == LexemeKind::NUMBER {
        Ok(
            (
                ASTNode {
                    integral_value: t.integral_value as i128,
                    kind: ASTNodeKind::NUMBER,
                    left: None,
                    right: None,
                },
                i + 1,
            ),
        )
    } else if t.kind == LexemeKind::LPAREN {
        match p_expr(toks, i + 1) {
            Ok((node, j)) => if tok_at(toks, j).kind == LexemeKind::RPAREN {
                Ok((node, j + 1))
            } else {
                Err(
                    ParseError::UnexpectedToken {
                        found: tok_at(toks, j).kind,
                        expected: Expectation::Kind(LexemeKind::RPAREN),
                    },
                )
            },
            Err(e) => Err(e),
        }
    } else {
        Err(ParseError::UnexpectedToken { found: t.kind, expected: Expectation::NumberOrLParen })
    }
}

/// The fold of `term`'s operator loop: with `acc` recognised so far, as long
/// as the cursor holds `MUL` or `DIV`, fold one more factor into a new node
/// with `acc` on the left. Every recognised factor strictly advances the
/// cursor, so the guard before the recursive call always holds; the
/// `arbitrary()` branch exists only to bound the recursion.
pub open spec fn p_term_rest(toks: Seq<Lexeme>, i: int, acc: ASTNode) -> Result<
    (ASTNode, int),
    ParseError,
>
    decreases toks.len() - i, 1int,
{
    let t = tok_at(toks, i);
    if t.kind == LexemeKind::MUL || t.kind == LexemeKind::DIV {
        match p_factor(toks, i + 1) {
            Ok((rhs, j)) => {
                let node = ASTNode {
                    integral_value: 0,
                    kind: astnode_kind_of(t.kind),
                    left: Some(Box::new(acc)),
                    right: Some(Box::new(rhs)),
                };
                if i + 1 < j && j <= toks.len() {
                    p_term_rest(toks, j, node)
                } else {
                    arbitrary()
                }
            },
            Err(e) => Err(e),
        }
    } else {
        Ok((acc, i))
    }
}

/// What `term` recognises at cursor `i`: one factor, then the left fold of
/// [`p_term_rest`].
pub open spec fn p_term(toks: Seq<Lexeme>, i: int) -> Result<(ASTNode, int), ParseError>
    decreases toks.len() - i, 2int,
{
    match p_factor(toks, i) {
        Ok((node, j)) => if i < j && j <= toks.len() {
            p_term_rest(toks, j, node)
        } else {
            arbitrary()
        },
        Err(e) => Err(e),
    }
}

/// The fold of `expr`'s operator loop, as [`p_term_rest`] but over `PLUS`
/// and `MINUS` with terms as operands.
pub open spec fn p_expr_rest(toks: Seq<Lexeme>, i: int, acc: ASTNode) -> Result<
    (ASTNode, int),
    ParseError,
>
    decreases toks.len() - i, 3int,
{
    let t = tok_at(toks, i);
    if t.kind == LexemeKind::PLUS || t.kind == LexemeKind::MINUS {
        match p_term(toks, i + 1) {
            Ok((rhs, j)) => {
                let node = ASTNode {
                    integral_value: 0,
                    kind: astnode_kind_of(t.kind),
                    left: Some(Box::new(acc)),
                    right: Some(Box::new(rhs)),
                };
                if i + 1 < j && j <= toks.len() {
                    p_expr_rest(toks, j, node)
                } else {
                    arbitrary()
                }
            },
            Err(e) => Err(e),
        }
    } else {
        Ok((acc, i))
    }
}

/// What `expr` recognises at cursor `i`: one term, then the left fold of
/// [`p_expr_rest`].
pub open spec fn p_expr(toks: Seq<Lexeme>, i: int) -> Result<(ASTNode, int), ParseError>
    decreases toks.len() - i, 4int,
{
    match p_term(toks, i) {
        Ok((node, j)) => if i < j && j <= toks.len() {
            p_expr_rest(toks, j, node)
        } else {
            arbitrary()
        },
        Err(e) => Err(e),
    }
}

/// What parsing a whole token sequence yields: the sentinel is appended,
/// `expr` must recognise everything up to it, and the recognised tree is
/// well formed. A cursor short of the sentinel is the trailing-token error.
pub open spec fn parse_spec(toks: Seq<Lexeme>) -> Result<ASTNode, ParseError> {
    let t = toks.push(Lexeme::nil_spec());
    match p_expr(t, 0) {
        Ok((node, i)) => if tok_at(t, i).kind == LexemeKind::Nil {
            Ok(node)
        } else {
            Err(
                ParseError::UnexpectedToken {
                    found: tok_at(t, i).kind,
                    expected: Expectation::Kind(LexemeKind::Nil),
                },
            )
        },
        Err(e) => Err(e),
    }
}

/// Converts an operand or operator token kind to its tree-node kind, as
/// [`astnode_kind_of`] says. Parenthesis and sentinel kinds have no tree
/// counterpart and are ruled out.
fn astnode_kind_from_lexeme_type(kind: LexemeKind) -> (r: ASTNodeKind)
    requires
        kind != LexemeKind::LPAREN,
        kind != LexemeKind::RPAREN,
        kind != LexemeKind::Nil,
    ensures
        r == astnode_kind_of(kind),
{
    match kind {
        LexemeKind::NUMBER => ASTNodeKind::NUMBER,
        LexemeKind::PLUS => ASTNodeKind::ADD,
        LexemeKind::MINUS => ASTNodeKind::SUB,
        LexemeKind::MUL => ASTNodeKind::MUL,
        LexemeKind::DIV => ASTNodeKind::DIV,
        _ => unreached(),
    }
}

/// The parser: the lexer whose token buffer is the input, the token under
/// the cursor, and the cursor itself. The cursor only ever moves forward,
/// one "consume expected token" step at a time.
pub struct Parser {
    pub lexer: Lexer,
    pub curr_lexeme: Lexeme,
    pub curr_index: usize,
}

impl Parser {
    /// The cursor is in bounds, mirrors the token under it, and a sentinel
    /// closes the buffer, so consuming any non-sentinel token stays in
    /// bounds.
    pub open spec fn wf(self) -> bool {
        &&& self.curr_index < self.lexer.lexemes@.len()
        &&& self.curr_lexeme == self.lexer.lexemes@[self.curr_index as int]
        &&& self.lexer.lexemes@.last().kind == LexemeKind::Nil
    }

    /// Consumes the current token if it has the expected kind, advancing the
    /// cursor; otherwise reports what was found against what was expected,
    /// without advancing. This is the parser's sole error-producing step
    /// apart from `factor`'s operand check.
    fn eat(&mut self, lexeme_kind: LexemeKind) -> (r: Option<ParseError>)
        requires
            old(self).wf(),
            lexeme_kind != LexemeKind::Nil,
        ensures
            final(self).wf(),
            final(self).lexer.lexemes@ == old(self).lexer.lexemes@,
            if old(self).curr_lexeme.kind == lexeme_kind {
                r is None && final(self).curr_index == old(self).curr_index + 1
            } else {
                r == Some(
                    ParseError::UnexpectedToken {
                        found: old(self).curr_lexeme.kind,
                        expected: Expectation::Kind(lexeme_kind),
                    },
                ) && *final(self) == *old(self)
            },
    {
        if self.curr_lexeme.kind == lexeme_kind {
            let n = self.lexer.lexemes.len();
            proof {
                // The current token is not the sentinel, so it is not the
                // last one: the cursor can advance and stay in bounds.
                assert(self.lexer.lexemes@[self.curr_index as int].kind != LexemeKind::Nil);
                assert(self.curr_index as int != n - 1);
            }
            self.curr_index = self.curr_index + 1;
            self.curr_lexeme = self.lexer.lexemes[self.curr_index];
            None
        } else {
            Some(
                ParseError::UnexpectedToken {
                    found: self.curr_lexeme.kind,
                    expected: Expectation::Kind(lexeme_kind),
                },
            )
        }
    }

    /// Recognises one factor, returning exactly what [`p_factor`] says for
    /// the cursor it started at.
    fn factor(&mut self) -> (r: Result<ASTNode, ParseError>)
        requires
            old(self).wf(),
        ensures
            final(self).wf(),
            final(self).lexer.lexemes@ == old(self).lexer.lexemes@,
            match r {
                Ok(node) => ({
                    &&& p_factor(old(self).lexer.lexemes@, old(self).curr_index as int)
                        == Ok::<(ASTNode, int), ParseError>((node, final(self).curr_index as int))
                    &&& node.well_formed()
                    &&& old(self).curr_index < final(self).curr_index
                }),
                Err(e) => p_factor(old(self).lexer.lexemes@, old(self).curr_index as int)
                    == Err::<(ASTNode, int), ParseError>(e),
            },
        decreases self.lexer.lexemes@.len() - self.curr_index, 0int,
    {
        let token = self.curr_lexeme;
        if token.kind == LexemeKind::NUMBER {
            match self.eat(LexemeKind::NUMBER) {
                Some(e) => return Err(e),
                None => (),
            }
            Ok(
                ASTNode {
                    integral_value: token.integral_value as i128,
                    kind: ASTNodeKind::NUMBER,
                    left: None,
                    right: None,
                },
            )
        } else if token.kind == LexemeKind::LPAREN {
            match self.eat(LexemeKind::LPAREN) {
                Some(e) => return Err(e),
                None => (),
            }
            let node = match self.expr() {
                Ok(val) => val,
                Err(e) => return Err(e),
            };
            match self.eat(LexemeKind::RPAREN) {
                Some(e) => return Err(e),
                None => (),
            }
            Ok(node)
        } else {
            Err(
                ParseError::UnexpectedToken {
                    found: self.curr_lexeme.kind,
                    expected: Expectation::NumberOrLParen,
                },
            )
        }
    }

    /// Recognises one term — a factor followed by any run of `MUL`/`DIV`
    /// factors, folded to the left — returning exactly what [`p_term`] says.
    fn term(&mut self) -> (r: Result<ASTNode, ParseError>)
        requires
            old(self).wf(),
        ensures
            final(self).wf(),
            final(self).lexer.lexemes@ == old(self).lexer.lexemes@,
            match r {
                Ok(node) => ({
                    &&& p_term(old(self).lexer.lexemes@, old(self).curr_index as int)
                        == Ok::<(ASTNode, int), ParseError>((node, final(self).curr_index as int))
                    &&& node.well_formed()
                    &&& old(self).curr_index < final(self).curr_index
                }),
                Err(e) => p_term(old(self).lexer.lexemes@, old(self).curr_index as int)
                    == Err::<(ASTNode, int), ParseError>(e),
            },
        decreases self.lexer.lexemes@.len() - self.curr_index, 1int,
    {
        let mut node = match self.factor() {
            Ok(val) => val,
            Err(s) => return Err(s),
        };
        while (self.curr_lexeme.kind == LexemeKind::MUL) || (self.curr_lexeme.kind
            == LexemeKind::DIV)
            invariant
                self.wf(),
                self.lexer.lexemes@ == old(self).lexer.lexemes@,
                node.well_formed(),
                old(self).curr_index < self.curr_index,
                p_term_rest(old(self).lexer.lexemes@, self.curr_index as int, node) == p_term(
                    old(self).lexer.lexemes@,
                    old(self).curr_index as int,
                ),
            decreases self.lexer.lexemes@.len() - self.curr_index,
        {
            let token = self.curr_lexeme;
            let ghost acc = node;
            if token.kind == LexemeKind::MUL {
                match self.eat(LexemeKind::MUL) {
                    Some(e) => return Err(e),
                    None => (),
                }
            }
            if token.kind == LexemeKind::DIV {
                match self.eat(LexemeKind::DIV) {
                    Some(e) => return Err(e),
                    None => (),
                }
            }
            let rhs = match self.factor() {
                Ok(val) => val,
                Err(s) => return Err(s),
            };
            node = ASTNode {
                integral_value: 0,
                kind: astnode_kind_from_lexeme_type(token.kind),
                left: Some(Box::new(node)),
                right: Some(Box::new(rhs)),
            };
        }
        Ok(node)
    }

    /// Recognises one expression — a term followed by any run of
    /// `PLUS`/`MINUS` terms, folded to the left — returning exactly what
    /// [`p_expr`] says.
    fn expr(&mut self) -> (r: Result<ASTNode, ParseError>)
        requires
            old(self).wf(),
        ensures
            final(self).wf(),
            final(self).lexer.lexemes@ == old(self).lexer.lexemes@,
            match r {
                Ok(node) => ({
                    &&& p_expr(old(self).lexer.lexemes@, old(self).curr_index as int)
                        == Ok::<(ASTNode, int), ParseError>((node, final(self).curr_index as int))
                    &&& node.well_formed()
                    &&& old(self).curr_index < final(self).curr_index
                }),
                Err(e) => p_expr(old(self).lexer.lexemes@, old(self).curr_index as int)
                    == Err::<(ASTNode, int), ParseError>(e),
            },
        decreases self.lexer.lexemes@.len() - self.curr_index, 2int,
    {
        let mut node = match self.term() {
            Ok(val) => val,
            Err(s) => return Err(s),
        };
        while (self.curr_lexeme.kind == LexemeKind::PLUS) || (self.curr_lexeme.kind
            == LexemeKind::MINUS)
            invariant
                self.wf(),
                self.lexer.lexemes@ == old(self).lexer.lexemes@,
                node.well_formed(),
                old(self).curr_index < self.curr_index,
                p_expr_rest(old(self).lexer.lexemes@, self.curr_index as int, node) == p_expr(
                    old(self).lexer.lexemes@,
                    old(self).curr_index as int,
                ),
            decreases self.lexer.lexemes@.len() - self.curr_index,
        {
            let token = self.curr_lexeme;
            if token.kind == LexemeKind::PLUS {
                match self.eat(LexemeKind::PLUS) {
                    Some(e) => return Err(e),
                    None => (),
                }
            }
            if token.kind == LexemeKind::MINUS {
                match self.eat(LexemeKind::MINUS) {
                    Some(e) => return Err(e),
                    None => (),
                }
            }
            let rhs = match self.term() {
                Ok(val) => val,
                Err(e) => return Err(e),
            };
            node = ASTNode {
                integral_value: 0,
                kind: astnode_kind_from_lexeme_type(token.kind),
                left: Some(Box::new(node)),
                right: Some(Box::new(rhs)),
            };
        }
        Ok(node)
    }

    /// Parses the whole token buffer: appends the sentinel once, rewinds the
    /// cursor, recognises one expression and requires the sentinel to be the
    /// next token. Returns exactly what [`parse_spec`] says for the buffer
    /// as it stood before the call; a successful tree is well formed.
    pub fn parse(&mut self) -> (r: Result<ASTNode, ParseError>)
        ensures
            final(self).lexer.lexemes@ == old(self).lexer.lexemes@.push(Lexeme::nil_spec()),
            r == parse_spec(old(self).lexer.lexemes@),
            r matches Ok(node) ==> node.well_formed(),
    {
        self.curr_index = 0;
        self.lexer.lexemes.push(Lexeme::nil());
        self.curr_lexeme = self.lexer.lexemes[self.curr_index];
        let node = match self.expr() {
            Ok(val) => val,
            Err(e) => return Err(e),
        };
        if self.curr_lexeme.kind == LexemeKind::Nil {
            Ok(node)
        } else {
            Err(
                ParseError::UnexpectedToken {
                    found: self.curr_lexeme.kind,
                    expected: Expectation::Kind(LexemeKind::Nil),
                },
            )
        }
    }
}

/// Parses a token sequence into one tree: the pure tokens-to-tree interface.
pub fn parse(lexemes: Vec<Lexeme>) -> (r: Result<ASTNode, ParseError>)
    ensures
        r == parse_spec(lexemes@),
        r matches Ok(node) ==> node.well_formed(),
{
    let mut parser = Parser {
        lexer: Lexer { lexemes },
        curr_lexeme: Lexeme::nil(),
        curr_index: 0,
    };
    parser.parse()
}

} // verus!
