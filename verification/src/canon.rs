//! The predicate canonicalizer: normalizes one predicate's syntactic shape.
//!
//! Only equality predicates are rewritten. Their operands are put into a
//! deterministic order, so that `a = b` and `b = a` converge to one shape and
//! exact-match deduplication can collapse them. A self-equality `x = x` is
//! not unconditionally true: under three-valued logic it is unknown when `x`
//! is null, so it is rewritten to `NOT (x IS NULL)`, never to a literal.

use vstd::prelude::*;

use crate::scalar::BinaryFunc;
use crate::scalar::Cmp;
use crate::scalar::MirScalarExpr;
use crate::scalar::UnaryFunc;
use crate::scalar::cmp_expr;
use crate::scalar::cmp_expr_spec;
use crate::scalar::lemma_cmp_equal_iff;
use crate::scalar::lemma_cmp_flip;

verus! {

/// The canonical form of one predicate: equality operands in order under the
/// expression total order, and a self-equality rewritten to a null test.
pub open spec fn canon_pred(p: MirScalarExpr) -> MirScalarExpr {
    match p {
        MirScalarExpr::CallBinary { func: BinaryFunc::Eq, expr1, expr2 } => {
            let a = if cmp_expr_spec(*expr2, *expr1) == Cmp::Less { *expr2 } else { *expr1 };
            let b = if cmp_expr_spec(*expr2, *expr1) == Cmp::Less { *expr1 } else { *expr2 };
            if a == b {
                MirScalarExpr::CallUnary {
                    func: UnaryFunc::Not,
                    expr: Box::new(MirScalarExpr::CallUnary {
                        func: UnaryFunc::IsNull,
                        expr: Box::new(a),
                    }),
                }
            } else {
                MirScalarExpr::CallBinary {
                    func: BinaryFunc::Eq,
                    expr1: Box::new(a),
                    expr2: Box::new(b),
                }
            }
        },
        _ => p,
    }
}

/// Canonicalizes one predicate: orders equality operands consistently and
/// collapses a self-equality into `NOT (operand IS NULL)`.
pub fn canonicalize_predicate(p: MirScalarExpr) -> (r: MirScalarExpr)
    ensures
        r == canon_pred(p),
{
    match p {
        MirScalarExpr::CallBinary { func: BinaryFunc::Eq, expr1, expr2 } => {
            let swap = cmp_expr(&expr2, &expr1) == Cmp::Less;
            let (a, b) = if swap { (expr2, expr1) } else { (expr1, expr2) };
            proof {
                lemma_cmp_equal_iff(*a, *b);
            }
            if cmp_expr(&a, &b) == Cmp::Equal {
                MirScalarExpr::CallUnary {
                    func: UnaryFunc::Not,
                    expr: Box::new(MirScalarExpr::CallUnary { func: UnaryFunc::IsNull, expr: a }),
                }
            } else {
                MirScalarExpr::CallBinary { func: BinaryFunc::Eq, expr1: a, expr2: b }
            }
        },
        other => other,
    }
}

/// Canonicalization chooses the operand order deterministically: `a = b`
/// and `b = a` have the same canonical form, so exact-match deduplication
/// collapses them.
pub proof fn lemma_canon_symmetric(a: MirScalarExpr, b: MirScalarExpr)
    ensures
        canon_pred(
            MirScalarExpr::CallBinary {
                func: BinaryFunc::Eq,
                expr1: Box::new(a),
                expr2: Box::new(b),
            },
        ) == canon_pred(
            MirScalarExpr::CallBinary {
                func: BinaryFunc::Eq,
                expr1: Box::new(b),
                expr2: Box::new(a),
            },
        ),
{
    lemma_cmp_flip(a, b);
    lemma_cmp_equal_iff(a, b);
    lemma_cmp_equal_iff(b, a);
}

/// Canonicalization is idempotent: a canonical predicate is its own
/// canonical form.
pub proof fn lemma_canon_idempotent(p: MirScalarExpr)
    ensures
        canon_pred(canon_pred(p)) == canon_pred(p),
{
    match p {
        MirScalarExpr::CallBinary { func: BinaryFunc::Eq, expr1, expr2 } => {
            lemma_cmp_flip(*expr1, *expr2);
            let a = if cmp_expr_spec(*expr2, *expr1) == Cmp::Less { *expr2 } else { *expr1 };
            let b = if cmp_expr_spec(*expr2, *expr1) == Cmp::Less { *expr1 } else { *expr2 };
            lemma_cmp_flip(a, b);
            lemma_cmp_equal_iff(a, b);
            lemma_cmp_equal_iff(b, a);
        },
        _ => {},
    }
}

} // verus!
