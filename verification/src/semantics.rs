//! The meaning of a token sequence, stated without building a tree: a direct
//! infix evaluation that follows conventional precedence and left
//! associativity, and the proof that parsing followed by tree evaluation
//! reproduces exactly that value.
//!
//! [`sem_expr`], [`sem_term`] and [`sem_factor`] walk the tokens with the
//! same grammar as the parser but carry exact rational values instead of
//! subtrees, folding each same-precedence run to the left as it is read. A
//! value of `None` marks a division by zero somewhere inside. The law
//! [`lemma_parse_eval_round_trip`] says: on every token sequence, parsing
//! and direct evaluation agree — same error, or a well-formed tree whose
//! exact value is the directly computed one.

use vstd::prelude::*;
use vstd::pervasive::arbitrary;

use crate::ast::ASTNodeKind;
use crate::eval::{eval_rat, rat_apply, Ratio};
use crate::parser::{astnode_kind_of, parse_spec, p_expr, p_expr_rest, p_factor, p_term,
    p_term_rest, tok_at};
use crate::token::{Expectation, Lexeme, LexemeKind, ParseError};

verus! {

/// Applies one operator token to two operand values: `None` operands and
/// division by zero propagate as `None`.
pub open spec fn sem_apply(kind: LexemeKind, a: Option<Ratio>, b: Option<Ratio>) -> Option<Ratio> {
    match (a, b) {
        (Some(x), Some(y)) => if kind == LexemeKind::DIV && y.num == 0 {
            None
        } else {
            Some(rat_apply(astnode_kind_of(kind), x, y))
        },
        _ => None,
    }
}

/// The value of one factor at cursor `i`: a literal, or a parenthesised
/// expression. Errors are exactly those of the parser's `factor`.
pub open spec fn sem_factor(toks: Seq<Lexeme>, i: int) -> Result<(Option<Ratio>, int), ParseError>
    decreases toks.len() - i, 0int,
{
    let t = tok_at(toks, i);
    if t.kind == LexemeKind::NUMBER {
        Ok((Some(Ratio { num: t.integral_value as int, den: 1 }), i + 1))
    } else if t.kind == LexemeKind::LPAREN {
        match sem_expr(toks, i + 1) {
            Ok((v, j)) => if tok_at(toks, j).kind == LexemeKind::RPAREN {
                Ok((v, j + 1))
            } else {
                Err(
                    ParseError::UnexpectedToken {
                        found: tok_at(toks, j).kind,
                        expected: Expectation::Kind(LexemeKind::RPAREN),
                    },
                )
            },
            Err(e) => Err(e),
        }
    } else {
        Err(ParseError::UnexpectedToken { found: t.kind, expected: Expectation::NumberOrLParen })
    }
}

/// The left fold of a run of `MUL`/`DIV` factors onto the value read so far.
pub open spec fn sem_term_rest(toks: Seq<Lexeme>, i: int, acc: Option<Ratio>) -> Result<
    (Option<Ratio>, int),
    ParseError,
>
    decreases toks.len() - i, 1int,
{
    let t = tok_at(toks, i);
    if t.kind == LexemeKind::MUL || t.kind == LexemeKind::DIV {
        match sem_factor(toks, i + 1) {
            Ok((rhs, j)) => if i + 1 < j && j <= toks.len() {
                sem_term_rest(toks, j, sem_apply(t.kind, acc, rhs))
            } else {
                arbitrary()
            },
            Err(e) => Err(e),
        }
    } else {
        Ok((acc, i))
    }
}

/// The value of one term at cursor `i`.
pub open spec fn sem_term(toks: Seq<Lexeme>, i: int) -> Result<(Option<Ratio>, int), ParseError>
    decreases toks.len() - i, 2int,
{
    match sem_factor(toks, i) {
        Ok((v, j)) => if i < j && j <= toks.len() {
            sem_term_rest(toks, j, v)
        } else {
            arbitrary()
        },
        Err(e) => Err(e),
    }
}

/// The left fold of a run of `PLUS`/`MINUS` terms onto the value read so far.
pub open spec fn sem_expr_rest(toks: Seq<Lexeme>, i: int, acc: Option<Ratio>) -> Result<
    (Option<Ratio>, int),
    ParseError,
>
    decreases toks.len() - i, 3int,
{
    let t = tok_at(toks, i);
    if t.kind == LexemeKind::PLUS || t.kind == LexemeKind::MINUS {
        match sem_term(toks, i + 1) {
            Ok((rhs, j)) => if i + 1 < j && j <= toks.len() {
                sem_expr_rest(toks, j, sem_apply(t.kind, acc, rhs))
            } else {
                arbitrary()
            },
            Err(e) => Err(e),
        }
    } else {
        Ok((acc, i))
    }
}

/// The value of one expression at cursor `i`: the direct infix evaluation,
/// multiplication and division binding tighter than addition and
/// subtraction, equal precedence grouping left to right.
pub open spec fn sem_expr(toks: Seq<Lexeme>, i: int) -> Result<(Option<Ratio>, int), ParseError>
    decreases toks.len() - i, 4int,
{
    match sem_term(toks, i) {
        Ok((v, j)) => if i < j && j <= toks.len() {
            sem_expr_rest(toks, j, v)
        } else {
            arbitrary()
        },
        Err(e) => Err(e),
    }
}

/// The direct infix value of a whole token sequence, under the same
/// end-of-input discipline as the parser: the appended sentinel must be the
/// next token once one expression has been read.
pub open spec fn sem_parse(toks: Seq<Lexeme>) -> Result<Option<Ratio>, ParseError> {
    let t = toks.push(Lexeme::nil_spec());
    match sem_expr(t, 0) {
        Ok((v, i)) => if tok_at(t, i).kind == LexemeKind::Nil {
            Ok(v)
        } else {
            Err(
                ParseError::UnexpectedToken {
                    found: tok_at(t, i).kind,
                    expected: Expectation::Kind(LexemeKind::Nil),
                },
            )
        },
        Err(e) => Err(e),
    }
}

proof fn lemma_factor_corresponds(toks: Seq<Lexeme>, i: int)
    ensures
        match (p_factor(toks, i), sem_factor(toks, i)) {
            (Ok((node, j)), Ok((v, k))) => j == k && i < j <= toks.len() && node.well_formed()
                && eval_rat(node) == v,
            (Err(e1), Err(e2)) => e1 == e2,
            _ => false,
        },
    decreases toks.len() - i, 0int,
{
    let t = tok_at(toks, i);
    if t.kind == LexemeKind::LPAREN {
        lemma_expr_corresponds(toks, i + 1);
    }
}

proof fn lemma_term_rest_corresponds(toks: Seq<Lexeme>, i: int, acc: crate::ast::ASTNode, v: Option<
    Ratio,
>)
    requires
        i <= toks.len(),
        acc.well_formed(),
        eval_rat(acc) == v,
    ensures
        match (p_term_rest(toks, i, acc), sem_term_rest(toks, i, v)) {
            (Ok((node, j)), Ok((w, k))) => j == k && i <= j <= toks.len() && node.well_formed()
                && eval_rat(node) == w,
            (Err(e1), Err(e2)) => e1 == e2,
            _ => false,
        },
    decreases toks.len() - i, 1int,
{
    let t = tok_at(toks, i);
    if t.kind == LexemeKind::MUL || t.kind == LexemeKind::DIV {
        lemma_factor_corresponds(toks, i + 1);
        match p_factor(toks, i + 1) {
            Ok((rhs, j)) => {
                let node = crate::ast::ASTNode {
                    integral_value: 0,
                    kind: astnode_kind_of(t.kind),
                    left: Some(Box::new(acc)),
                    right: Some(Box::new(rhs)),
                };
                let sem_rhs = sem_factor(toks, i + 1)->Ok_0.0;
                assert(eval_rat(node) == sem_apply(t.kind, v, sem_rhs));
                lemma_term_rest_corresponds(toks, j, node, sem_apply(t.kind, v, sem_rhs));
            },
            Err(_) => {},
        }
    }
}

proof fn lemma_term_corresponds(toks: Seq<Lexeme>, i: int)
    ensures
        match (p_term(toks, i), sem_term(toks, i)) {
            (Ok((node, j)), Ok((v, k))) => j == k && i < j <= toks.len() && node.well_formed()
                && eval_rat(node) == v,
            (Err(e1), Err(e2)) => e1 == e2,
            _ => false,
        },
    decreases toks.len() - i, 2int,
{
    lemma_factor_corresponds(toks, i);
    match p_factor(toks, i) {
        Ok((node, j)) => {
            lemma_term_rest_corresponds(toks, j, node, sem_factor(toks, i)->Ok_0.0);
        },
        Err(_) => {},
    }
}

proof fn lemma_expr_rest_corresponds(toks: Seq<Lexeme>, i: int, acc: crate::ast::ASTNode, v: Option<
    Ratio,
>)
    requires
        i <= toks.len(),
        acc.well_formed(),
        eval_rat(acc) == v,
    ensures
        match (p_expr_rest(toks, i, acc), sem_expr_rest(toks, i, v)) {
            (Ok((node, j)), Ok((w, k))) => j == k && i <= j <= toks.len() && node.well_formed()
                && eval_rat(node) == w,
            (Err(e1), Err(e2)) => e1 == e2,
            _ => false,
        },
    decreases toks.len() - i, 3int,
{
    let t = tok_at(toks, i);
    if t.kind == LexemeKind::PLUS || t.kind == LexemeKind::MINUS {
        lemma_term_corresponds(toks, i + 1);
        match p_term(toks, i + 1) {
            Ok((rhs, j)) => {
                let node = crate::ast::ASTNode {
                    integral_value: 0,
                    kind: astnode_kind_of(t.kind),
                    left: Some(Box::new(acc)),
                    right: Some(Box::new(rhs)),
                };
                let sem_rhs = sem_term(toks, i + 1)->Ok_0.0;
                assert(eval_rat(node) == sem_apply(t.kind, v, sem_rhs));
                lemma_expr_rest_corresponds(toks, j, node, sem_apply(t.kind, v, sem_rhs));
            },
            Err(_) => {},
        }
    }
}

proof fn lemma_expr_corresponds(toks: Seq<Lexeme>, i: int)
    ensures
        match (p_expr(toks, i), sem_expr(toks, i)) {
            (Ok((node, j)), Ok((v, k))) => j == k && i < j <= toks.len() && node.well_formed()
                && eval_rat(node) == v,
            (Err(e1), Err(e2)) => e1 == e2,
            _ => false,
        },
    decreases toks.len() - i, 4int,
{
    lemma_term_corresponds(toks, i);
    match p_term(toks, i) {
        Ok((node, j)) => {
            lemma_expr_rest_corresponds(toks, j, node, sem_term(toks, i)->Ok_0.0);
        },
        Err(_) => {},
    }
}

/// Law: parsing a token sequence and evaluating the resulting tree
/// reproduces the value of direct infix evaluation with conventional
/// precedence and left associativity — and both fail identically when the
/// tokens fit no expression.
pub proof fn lemma_parse_eval_round_trip(toks: Seq<Lexeme>)
    ensures
        match (parse_spec(toks), sem_parse(toks)) {
            (Ok(node), Ok(v)) => node.well_formed() && eval_rat(node) == v,
            (Err(e1), Err(e2)) => e1 == e2,
            _ => false,
        },
{
    lemma_expr_corresponds(toks.push(Lexeme::nil_spec()), 0);
}

} // verus!
