//! The evaluator: a post-order reduction of a well-formed tree to an exact
//! rational number.
//!
//! Precedence plays no part here; the parser already encoded it in the tree
//! shape. Division is exact — the result is kept as a numerator/denominator
//! pair rather than rounded — and division by zero is reported as an explicit
//! error, uniformly. Arithmetic is checked: a value whose components no
//! longer fit 128 signed bits is reported as an overflow rather than silently
//! wrapped. Evaluation is pure: the same tree always reduces to the same
//! result.

use vstd::prelude::*;
use vstd::pervasive::unreached;

use crate::ast::{ASTNode, ASTNodeKind};

verus! {

/// An evaluation failure.
#[derive(Clone, Copy, Debug, PartialEq, Eq, Structural)]
pub enum EvalError {
    /// Some division in the tree has a divisor that evaluates to zero.
    DivisionByZero,
    /// An intermediate numerator or denominator left the 128-bit range.
    Overflow,
}

/// An exact rational value: `num / den`, not necessarily in lowest terms.
/// Every value the evaluator returns has a nonzero denominator.
#[derive(Clone, Copy, Debug, PartialEq, Eq, Structural)]
pub struct Rational {
    pub num: i128,
    pub den: i128,
}

/// The mathematical counterpart of [`Rational`]: a fraction over the
/// unbounded integers.
pub struct Ratio {
    pub num: int,
    pub den: int,
}

/// The fraction a concrete [`Rational`] stands for.
pub open spec fn ratio_of(q: Rational) -> Ratio {
    Ratio { num: q.num as int, den: q.den as int }
}

/// Fraction arithmetic, one operator at a time, with no reduction to lowest
/// terms: exactly the numerators and denominators the evaluator composes.
pub open spec fn rat_apply(kind: ASTNodeKind, a: Ratio, b: Ratio) -> Ratio {
    match kind {
        ASTNodeKind::ADD => Ratio { num: a.num * b.den + b.num * a.den, den: a.den * b.den },
        ASTNodeKind::SUB => Ratio { num: a.num * b.den - b.num * a.den, den: a.den * b.den },
        ASTNodeKind::MUL => Ratio { num: a.num * b.num, den: a.den * b.den },
        ASTNodeKind::DIV => Ratio { num: a.num * b.den, den: a.den * b.num },
        ASTNodeKind::NUMBER => a,
    }
}

/// The exact value of a tree: `None` exactly when some division within it
/// has a divisor evaluating to zero (or the tree is malformed).
pub open spec fn eval_rat(n: ASTNode) -> Option<Ratio>
    decreases n,
{
    match n.kind {
        ASTNodeKind::NUMBER => Some(Ratio { num: n.integral_value as int, den: 1 }),
        _ => match (n.left, n.right) {
            (Some(l), Some(r)) => match (eval_rat(*l), eval_rat(*r)) {
                (Some(a), Some(b)) => if n.kind == ASTNodeKind::DIV && b.num == 0 {
                    None
                } else {
                    Some(rat_apply(n.kind, a, b))
                },
                _ => None,
            },
            _ => None,
        },
    }
}

/// Whether `x` fits a 128-bit signed integer.
pub open spec fn in_i128(x: int) -> bool {
    i128::MIN <= x <= i128::MAX
}

/// Whether every product and sum formed when applying `kind` to `a` and `b`
/// fits 128 signed bits.
pub open spec fn apply_fits(kind: ASTNodeKind, a: Ratio, b: Ratio) -> bool {
    match kind {
        ASTNodeKind::ADD => in_i128(a.num * b.den) && in_i128(b.num * a.den) && in_i128(
            a.num * b.den + b.num * a.den,
        ) && in_i128(a.den * b.den),
        ASTNodeKind::SUB => in_i128(a.num * b.den) && in_i128(b.num * a.den) && in_i128(
            a.num * b.den - b.num * a.den,
        ) && in_i128(a.den * b.den),
        ASTNodeKind::MUL => in_i128(a.num * b.num) && in_i128(a.den * b.den),
        ASTNodeKind::DIV => in_i128(a.num * b.den) && in_i128(a.den * b.num),
        ASTNodeKind::NUMBER => true,
    }
}

/// Whether every intermediate value met while evaluating `n` fits 128 signed
/// bits; on such trees the evaluator never reports an overflow.
pub open spec fn eval_fits(n: ASTNode) -> bool
    decreases n,
{
    match n.kind {
        ASTNodeKind::NUMBER => true,
        _ => match (n.left, n.right) {
            (Some(l), Some(r)) => eval_fits(*l) && eval_fits(*r) && match (
                eval_rat(*l),
                eval_rat(*r),
            ) {
                (Some(a), Some(b)) => apply_fits(n.kind, a, b),
                _ => true,
            },
            _ => true,
        },
    }
}

/// The checked application of one operator: the exact fraction when every
/// component fits 128 signed bits, the overflow error otherwise.
pub open spec fn apply_total(kind: ASTNodeKind, a: Rational, b: Rational) -> Result<
    Rational,
    EvalError,
> {
    let q = rat_apply(kind, ratio_of(a), ratio_of(b));
    if apply_fits(kind, ratio_of(a), ratio_of(b)) {
        Ok(Rational { num: q.num as i128, den: q.den as i128 })
    } else {
        Err(EvalError::Overflow)
    }
}

/// Exactly what evaluating a well-formed tree returns, case by case: the
/// evaluator is a function of the tree alone, so evaluating the same tree
/// twice yields identical results. Children reduce before their parent, the
/// left one first, and the first failure is the tree's; a division checks
/// its divisor against zero before anything is multiplied.
pub open spec fn eval_total(n: ASTNode) -> Result<Rational, EvalError>
    decreases n,
{
    match n.kind {
        ASTNodeKind::NUMBER => Ok(Rational { num: n.integral_value, den: 1 }),
        _ => match (n.left, n.right) {
            (Some(l), Some(r)) => match eval_total(*l) {
                Ok(a) => match eval_total(*r) {
                    Ok(b) => if n.kind == ASTNodeKind::DIV && b.num == 0 {
                        Err(EvalError::DivisionByZero)
                    } else {
                        apply_total(n.kind, a, b)
                    },
                    Err(e) => Err(e),
                },
                Err(e) => Err(e),
            },
            _ => vstd::pervasive::arbitrary(),
        },
    }
}

/// Applies one addition to two exact values, checked.
fn rat_add_exec(a: Rational, b: Rational) -> (r: Option<Rational>)
    requires
        a.den != 0,
        b.den != 0,
    ensures
        r matches Some(q) ==> ratio_of(q) == rat_apply(ASTNodeKind::ADD, ratio_of(a), ratio_of(b))
            && q.den != 0,
        r is Some <==> apply_fits(ASTNodeKind::ADD, ratio_of(a), ratio_of(b)),
{
    match (a.num.checked_mul(b.den), b.num.checked_mul(a.den), a.den.checked_mul(b.den)) {
        (Some(x), Some(y), Some(d)) => match x.checked_add(y) {
            Some(s) => {
                proof {
                    assert(d != 0) by (nonlinear_arith)
                        requires
                            a.den != 0,
                            b.den != 0,
                            d == a.den as int * b.den as int,
                    ;
                }
                Some(Rational { num: s, den: d })
            },
            None => None,
        },
        _ => None,
    }
}

/// Applies one subtraction to two exact values, checked.
fn rat_sub_exec(a: Rational, b: Rational) -> (r: Option<Rational>)
    requires
        a.den != 0,
        b.den != 0,
    ensures
        r matches Some(q) ==> ratio_of(q) == rat_apply(ASTNodeKind::SUB, ratio_of(a), ratio_of(b))
            && q.den != 0,
        r is Some <==> apply_fits(ASTNodeKind::SUB, ratio_of(a), ratio_of(b)),
{
    match (a.num.checked_mul(b.den), b.num.checked_mul(a.den), a.den.checked_mul(b.den)) {
        (Some(x), Some(y), Some(d)) => match x.checked_sub(y) {
            Some(s) => {
                proof {
                    assert(d != 0) by (nonlinear_arith)
                        requires
                            a.den != 0,
                            b.den != 0,
                            d == a.den as int * b.den as int,
                    ;
                }
                Some(Rational { num: s, den: d })
            },
            None => None,
        },
        _ => None,
    }
}

/// Applies one multiplication to two exact values, checked.
fn rat_mul_exec(a: Rational, b: Rational) -> (r: Option<Rational>)
    requires
        a.den != 0,
        b.den != 0,
    ensures
        r matches Some(q) ==> ratio_of(q) == rat_apply(ASTNodeKind::MUL, ratio_of(a), ratio_of(b))
            && q.den != 0,
        r is Some <==> apply_fits(ASTNodeKind::MUL, ratio_of(a), ratio_of(b)),
{
    match (a.num.checked_mul(b.num), a.den.checked_mul(b.den)) {
        (Some(x), Some(d)) => {
            proof {
                assert(d != 0) by (nonlinear_arith)
                    requires
                        a.den != 0,
                        b.den != 0,
                        d == a.den as int * b.den as int,
                ;
            }
            Some(Rational { num: x, den: d })
        },
        _ => None,
    }
}

/// Applies one division to two exact values, checked. The divisor must not
/// be the zero fraction: the caller reports that case as its own error.
fn rat_div_exec(a: Rational, b: Rational) -> (r: Option<Rational>)
    requires
        a.den != 0,
        b.den != 0,
        b.num != 0,
    ensures
        r matches Some(q) ==> ratio_of(q) == rat_apply(ASTNodeKind::DIV, ratio_of(a), ratio_of(b))
            && q.den != 0,
        r is Some <==> apply_fits(ASTNodeKind::DIV, ratio_of(a), ratio_of(b)),
{
    match (a.num.checked_mul(b.den), a.den.checked_mul(b.num)) {
        (Some(x), Some(d)) => {
            proof {
                assert(d != 0) by (nonlinear_arith)
                    requires
                        a.den != 0,
                        b.num != 0,
                        d == a.den as int * b.num as int,
                ;
            }
            Some(Rational { num: x, den: d })
        },
        _ => None,
    }
}

/// Reduces a well-formed tree to its exact rational value, bottom-up.
///
/// On success the result is exactly the fraction [`eval_rat`] assigns to the
/// tree, with a nonzero denominator. A division whose divisor evaluates to
/// zero is `DivisionByZero`; an intermediate value outside the 128-bit range
/// is `Overflow`, and on trees where everything fits that error never
/// occurs. The result is exactly [`eval_total`] of the tree — a function of
/// the tree alone, so evaluating the same tree twice yields identical
/// results.
pub fn evaluate(n: &ASTNode) -> (r: Result<Rational, EvalError>)
    requires
        n.well_formed(),
    ensures
        r == eval_total(*n),
        r matches Ok(q) ==> eval_rat(*n) == Some(ratio_of(q)) && q.den != 0,
        r == Err::<Rational, EvalError>(EvalError::DivisionByZero) ==> eval_rat(*n) is None,
        r == Err::<Rational, EvalError>(EvalError::Overflow) ==> !eval_fits(*n),
        eval_fits(*n) ==> r != Err::<Rational, EvalError>(EvalError::Overflow),
    decreases *n,
{
    match n.kind {
        ASTNodeKind::NUMBER => Ok(Rational { num: n.integral_value, den: 1 }),
        _ => {
            let a = match &n.left {
                Some(l) => match evaluate(l) {
                    Ok(v) => v,
                    Err(e) => {
                        return Err(e);
                    },
                },
                None => unreached(),
            };
            let b = match &n.right {
                Some(r) => match evaluate(r) {
                    Ok(v) => v,
                    Err(e) => {
                        return Err(e);
                    },
                },
                None => unreached(),
            };
            let combined = match n.kind {
                ASTNodeKind::ADD => rat_add_exec(a, b),
                ASTNodeKind::SUB => rat_sub_exec(a, b),
                ASTNodeKind::MUL => rat_mul_exec(a, b),
                ASTNodeKind::DIV => {
                    if b.num == 0 {
                        return Err(EvalError::DivisionByZero);
                    }
                    rat_div_exec(a, b)
                },
                ASTNodeKind::NUMBER => unreached(),
            };
            match combined {
                Some(q) => Ok(q),
                None => Err(EvalError::Overflow),
            }
        },
    }
}

} // verus!
