//! Scalar expressions and the deterministic total order over them.
//!
//! Predicate deduplication works by exact structural match, so it needs a
//! deterministic, equality-consistent total order over scalar expressions:
//! expressions are compared first by variant, then by function, then
//! recursively by operand structure. The order does not encode evaluation
//! semantics; it only has to be a strict total order that never separates
//! structurally equal expressions.

use vstd::prelude::*;

verus! {

/// A unary scalar function.
#[derive(Clone, Copy, Debug, PartialEq, Eq, Structural)]
pub enum UnaryFunc {
    Not,
    IsNull,
    Neg,
}

/// A binary scalar function.
#[derive(Clone, Copy, Debug, PartialEq, Eq, Structural)]
pub enum BinaryFunc {
    Eq,
    Lt,
    And,
}

/// A scalar expression over a row: a column reference, a literal, or a
/// function call over sub-expressions.
#[derive(Debug, PartialEq, Eq)]
pub enum MirScalarExpr {
    /// A reference to a column of the input row, by position.
    Column(u64),
    /// A literal value.
    Literal(i64),
    /// A call of a unary function on one operand.
    CallUnary { func: UnaryFunc, expr: Box<MirScalarExpr> },
    /// A call of a binary function on two operands.
    CallBinary { func: BinaryFunc, expr1: Box<MirScalarExpr>, expr2: Box<MirScalarExpr> },
}

/// The outcome of comparing two values under a total order.
#[derive(Clone, Copy, Debug, PartialEq, Eq, Structural)]
pub enum Cmp {
    Less,
    Equal,
    Greater,
}

/// Rank of an expression's variant: the first key of the total order.
pub open spec fn variant_rank(e: MirScalarExpr) -> int {
    match e {
        MirScalarExpr::Column(_) => 0,
        MirScalarExpr::Literal(_) => 1,
        MirScalarExpr::CallUnary { .. } => 2,
        MirScalarExpr::CallBinary { .. } => 3,
    }
}

/// Rank of a unary function, making the function set totally ordered.
pub open spec fn unary_rank(f: UnaryFunc) -> int {
    match f {
        UnaryFunc::Not => 0,
        UnaryFunc::IsNull => 1,
        UnaryFunc::Neg => 2,
    }
}

/// Rank of a binary function, making the function set totally ordered.
pub open spec fn binary_rank(f: BinaryFunc) -> int {
    match f {
        BinaryFunc::Eq => 0,
        BinaryFunc::Lt => 1,
        BinaryFunc::And => 2,
    }
}

/// Three-way comparison of two integers.
pub open spec fn cmp_int(a: int, b: int) -> Cmp {
    if a < b {
        Cmp::Less
    } else if b < a {
        Cmp::Greater
    } else {
        Cmp::Equal
    }
}

/// The expression total order: compare by variant rank, then by function
/// rank, then lexicographically by operand structure.
pub open spec fn cmp_expr_spec(a: MirScalarExpr, b: MirScalarExpr) -> Cmp
    decreases a,
{
    match (a, b) {
        (MirScalarExpr::Column(i), MirScalarExpr::Column(j)) => cmp_int(i as int, j as int),
        (MirScalarExpr::Literal(x), MirScalarExpr::Literal(y)) => cmp_int(x as int, y as int),
        (
            MirScalarExpr::CallUnary { func: f, expr: e },
            MirScalarExpr::CallUnary { func: g, expr: d },
        ) => {
            if unary_rank(f) != unary_rank(g) {
                cmp_int(unary_rank(f), unary_rank(g))
            } else {
                cmp_expr_spec(*e, *d)
            }
        },
        (
            MirScalarExpr::CallBinary { func: f, expr1: a1, expr2: a2 },
            MirScalarExpr::CallBinary { func: g, expr1: b1, expr2: b2 },
        ) => {
            if binary_rank(f) != binary_rank(g) {
                cmp_int(binary_rank(f), binary_rank(g))
            } else if cmp_expr_spec(*a1, *b1) != Cmp::Equal {
                cmp_expr_spec(*a1, *b1)
            } else {
                cmp_expr_spec(*a2, *b2)
            }
        },
        _ => cmp_int(variant_rank(a), variant_rank(b)),
    }
}

/// Rank of a unary function, as executable code.
fn unary_rank_exec(f: UnaryFunc) -> (r: u8)
    ensures
        r as int == unary_rank(f),
{
    match f {
        UnaryFunc::Not => 0,
        UnaryFunc::IsNull => 1,
        UnaryFunc::Neg => 2,
    }
}

/// Rank of a binary function, as executable code.
fn binary_rank_exec(f: BinaryFunc) -> (r: u8)
    ensures
        r as int == binary_rank(f),
{
    match f {
        BinaryFunc::Eq => 0,
        BinaryFunc::Lt => 1,
        BinaryFunc::And => 2,
    }
}

/// Three-way comparison of two expressions under the expression total order.
pub fn cmp_expr(a: &MirScalarExpr, b: &MirScalarExpr) -> (r: Cmp)
    ensures
        r == cmp_expr_spec(*a, *b),
    decreases *a,
{
    match (a, b) {
        (MirScalarExpr::Column(i), MirScalarExpr::Column(j)) => {
            if *i < *j {
                Cmp::Less
            } else if *j < *i {
                Cmp::Greater
            } else {
                Cmp::Equal
            }
        },
        (MirScalarExpr::Literal(x), MirScalarExpr::Literal(y)) => {
            if *x < *y {
                Cmp::Less
            } else if *y < *x {
                Cmp::Greater
            } else {
                Cmp::Equal
            }
        },
        (
            MirScalarExpr::CallUnary { func: f, expr: e },
            MirScalarExpr::CallUnary { func: g, expr: d },
        ) => {
            let fr = unary_rank_exec(*f);
            let gr = unary_rank_exec(*g);
            if fr < gr {
                Cmp::Less
            } else if gr < fr {
                Cmp::Greater
            } else {
                cmp_expr(e, d)
            }
        },
        (
            MirScalarExpr::CallBinary { func: f, expr1: a1, expr2: a2 },
            MirScalarExpr::CallBinary { func: g, expr1: b1, expr2: b2 },
        ) => {
            let fr = binary_rank_exec(*f);
            let gr = binary_rank_exec(*g);
            if fr < gr {
                Cmp::Less
            } else if gr < fr {
                Cmp::Greater
            } else {
                let c1 = cmp_expr(a1, b1);
                if c1 == Cmp::Equal {
                    cmp_expr(a2, b2)
                } else {
                    c1
                }
            }
        },
        _ => {
            let ar = variant_rank_exec(a);
            let br = variant_rank_exec(b);
            if ar < br {
                Cmp::Less
            } else if br < ar {
                Cmp::Greater
            } else {
                Cmp::Equal
            }
        },
    }
}

/// Flips a comparison outcome, as exchanging the two operands does.
pub open spec fn flip(c: Cmp) -> Cmp {
    match c {
        Cmp::Less => Cmp::Greater,
        Cmp::Equal => Cmp::Equal,
        Cmp::Greater => Cmp::Less,
    }
}

/// The order is equality-consistent: two expressions compare as `Equal`
/// exactly when they are structurally equal.
pub proof fn lemma_cmp_equal_iff(a: MirScalarExpr, b: MirScalarExpr)
    ensures
        (cmp_expr_spec(a, b) == Cmp::Equal) <==> (a == b),
    decreases a,
{
    match (a, b) {
        (
            MirScalarExpr::CallUnary { func: f, expr: e },
            MirScalarExpr::CallUnary { func: g, expr: d },
        ) => {
            lemma_cmp_equal_iff(*e, *d);
        },
        (
            MirScalarExpr::CallBinary { func: f, expr1: a1, expr2: a2 },
            MirScalarExpr::CallBinary { func: g, expr1: b1, expr2: b2 },
        ) => {
            lemma_cmp_equal_iff(*a1, *b1);
            lemma_cmp_equal_iff(*a2, *b2);
        },
        _ => {},
    }
}

/// Exchanging the operands flips the comparison outcome.
pub proof fn lemma_cmp_flip(a: MirScalarExpr, b: MirScalarExpr)
    ensures
        cmp_expr_spec(b, a) == flip(cmp_expr_spec(a, b)),
    decreases a,
{
    match (a, b) {
        (
            MirScalarExpr::CallUnary { func: f, expr: e },
            MirScalarExpr::CallUnary { func: g, expr: d },
        ) => {
            lemma_cmp_flip(*e, *d);
        },
        (
            MirScalarExpr::CallBinary { func: f, expr1: a1, expr2: a2 },
            MirScalarExpr::CallBinary { func: g, expr1: b1, expr2: b2 },
        ) => {
            lemma_cmp_flip(*a1, *b1);
            lemma_cmp_flip(*a2, *b2);
        },
        _ => {},
    }
}

/// The strict part of the order is transitive.
pub proof fn lemma_cmp_less_trans(a: MirScalarExpr, b: MirScalarExpr, c: MirScalarExpr)
    requires
        cmp_expr_spec(a, b) == Cmp::Less,
        cmp_expr_spec(b, c) == Cmp::Less,
    ensures
        cmp_expr_spec(a, c) == Cmp::Less,
    decreases a,
{
    match (a, b, c) {
        (
            MirScalarExpr::CallUnary { func: f, expr: e },
            MirScalarExpr::CallUnary { func: g, expr: d },
            MirScalarExpr::CallUnary { func: h, expr: x },
        ) => {
            if unary_rank(f) == unary_rank(g) && unary_rank(g) == unary_rank(h) {
                lemma_cmp_less_trans(*e, *d, *x);
            }
        },
        (
            MirScalarExpr::CallBinary { func: f, expr1: a1, expr2: a2 },
            MirScalarExpr::CallBinary { func: g, expr1: b1, expr2: b2 },
            MirScalarExpr::CallBinary { func: h, expr1: c1, expr2: c2 },
        ) => {
            if binary_rank(f) == binary_rank(g) && binary_rank(g) == binary_rank(h) {
                lemma_cmp_equal_iff(*a1, *b1);
                lemma_cmp_equal_iff(*b1, *c1);
                if cmp_expr_spec(*a1, *b1) == Cmp::Less && cmp_expr_spec(*b1, *c1) == Cmp::Less {
                    lemma_cmp_less_trans(*a1, *b1, *c1);
                } else if cmp_expr_spec(*a1, *b1) == Cmp::Equal
                    && cmp_expr_spec(*b1, *c1) == Cmp::Equal {
                    lemma_cmp_less_trans(*a2, *b2, *c2);
                }
            }
        },
        _ => {},
    }
}

/// The non-strict order used for sorting predicate lists.
pub open spec fn le_expr(a: MirScalarExpr, b: MirScalarExpr) -> bool {
    cmp_expr_spec(a, b) != Cmp::Greater
}

/// The non-strict order is reflexive.
pub proof fn lemma_le_refl(a: MirScalarExpr)
    ensures
        le_expr(a, a),
{
    lemma_cmp_equal_iff(a, a);
}

/// The non-strict order is total.
pub proof fn lemma_le_total(a: MirScalarExpr, b: MirScalarExpr)
    ensures
        le_expr(a, b) || le_expr(b, a),
{
    lemma_cmp_flip(a, b);
}

/// The non-strict order is antisymmetric: mutual ordering means equality.
pub proof fn lemma_le_antisym(a: MirScalarExpr, b: MirScalarExpr)
    requires
        le_expr(a, b),
        le_expr(b, a),
    ensures
        a == b,
{
    lemma_cmp_flip(a, b);
    lemma_cmp_equal_iff(a, b);
}

/// The non-strict order is transitive.
pub proof fn lemma_le_trans(a: MirScalarExpr, b: MirScalarExpr, c: MirScalarExpr)
    requires
        le_expr(a, b),
        le_expr(b, c),
    ensures
        le_expr(a, c),
{
    lemma_cmp_equal_iff(a, b);
    lemma_cmp_equal_iff(b, c);
    if cmp_expr_spec(a, b) == Cmp::Less && cmp_expr_spec(b, c) == Cmp::Less {
        lemma_cmp_less_trans(a, b, c);
        lemma_cmp_equal_iff(a, c);
    }
}

/// Rank of an expression's variant, as executable code.
fn variant_rank_exec(e: &MirScalarExpr) -> (r: u8)
    ensures
        r as int == variant_rank(*e),
{
    match e {
        MirScalarExpr::Column(_) => 0,
        MirScalarExpr::Literal(_) => 1,
        MirScalarExpr::CallUnary { .. } => 2,
        MirScalarExpr::CallBinary { .. } => 3,
    }
}

} // verus!
