//! End-to-end tests of the filter fusion pass on concrete trees.

use filter_fusion::fusion::Filter;
use filter_fusion::fusion::IdGen;
use filter_fusion::fusion::TransformArgs;
use filter_fusion::relation::MirRelationExpr;
use filter_fusion::scalar::BinaryFunc;
use filter_fusion::scalar::MirScalarExpr;
use filter_fusion::scalar::UnaryFunc;

fn col(i: u64) -> MirScalarExpr {
    MirScalarExpr::Column(i)
}

fn lit(x: i64) -> MirScalarExpr {
    MirScalarExpr::Literal(x)
}

fn eq(a: MirScalarExpr, b: MirScalarExpr) -> MirScalarExpr {
    MirScalarExpr::CallBinary {
        func: BinaryFunc::Eq,
        expr1: Box::new(a),
        expr2: Box::new(b),
    }
}

fn not_is_null(a: MirScalarExpr) -> MirScalarExpr {
    MirScalarExpr::CallUnary {
        func: UnaryFunc::Not,
        expr: Box::new(MirScalarExpr::CallUnary {
            func: UnaryFunc::IsNull,
            expr: Box::new(a),
        }),
    }
}

fn get(id: u64) -> MirRelationExpr {
    MirRelationExpr::Get { id }
}

fn filter(input: MirRelationExpr, predicates: Vec<MirScalarExpr>) -> MirRelationExpr {
    MirRelationExpr::Filter {
        input: Box::new(input),
        predicates,
    }
}

fn project(input: MirRelationExpr, outputs: Vec<u64>) -> MirRelationExpr {
    MirRelationExpr::Project {
        input: Box::new(input),
        outputs,
    }
}

fn union(left: MirRelationExpr, right: MirRelationExpr) -> MirRelationExpr {
    MirRelationExpr::Union {
        left: Box::new(left),
        right: Box::new(right),
    }
}

fn args() -> TransformArgs {
    TransformArgs {
        id_gen: IdGen { next_id: 0 },
        indexes: vec![],
    }
}

#[test]
fn dedup_symmetry() {
    // [a = b, b = a] collapses to one canonical predicate
    let mut expr = filter(get(0), vec![eq(col(0), col(1)), eq(col(1), col(0))]);
    Filter.action(&mut expr);
    assert_eq!(expr, filter(get(0), vec![eq(col(0), col(1))]));
}

#[test]
fn self_equality_rewrite() {
    // [x = x] becomes [NOT (x IS NULL)], never a literal true
    let mut expr = filter(get(0), vec![eq(col(0), col(0))]);
    Filter.action(&mut expr);
    assert_eq!(expr, filter(get(0), vec![not_is_null(col(0))]));
}

#[test]
fn vacuous_filter_removed() {
    // a filter whose predicate list normalizes to empty disappears
    let mut expr = filter(get(7), vec![]);
    Filter.action(&mut expr);
    assert_eq!(expr, get(7));
}

#[test]
fn vacuous_chain_removed() {
    // a chain of empty filters disappears entirely
    let mut expr = filter(filter(get(7), vec![]), vec![]);
    Filter.action(&mut expr);
    assert_eq!(expr, get(7));
}

#[test]
fn non_filter_nodes_untouched() {
    let mut g = get(3);
    Filter.action(&mut g);
    assert_eq!(g, get(3));

    let mut p = project(get(1), vec![0, 2]);
    Filter.action(&mut p);
    assert_eq!(p, project(get(1), vec![0, 2]));

    let mut u = union(get(1), get(2));
    Filter.action(&mut u);
    assert_eq!(u, union(get(1), get(2)));
}

#[test]
fn triple_self_equality_chain() {
    // Filter(Filter(Filter(Base, [Col0 = Col0]), [Col0 = Col0]), [Col0 = Col0])
    // collapses to Filter(Base, [NOT (Col0 IS NULL)])
    let mut expr = filter(
        filter(filter(get(0), vec![eq(col(0), col(0))]), vec![eq(col(0), col(0))]),
        vec![eq(col(0), col(0))],
    );
    let result = Filter.transform(&mut expr, args());
    assert_eq!(result, Ok(()));
    assert_eq!(expr, filter(get(0), vec![not_is_null(col(0))]));
}

#[test]
fn chain_collapses_to_one_filter() {
    // nested filters fuse into one filter holding the union of both lists
    let mut expr = filter(filter(get(1), vec![eq(col(2), col(3))]), vec![eq(col(0), col(1))]);
    let result = Filter.transform(&mut expr, args());
    assert_eq!(result, Ok(()));
    assert_eq!(
        expr,
        filter(get(1), vec![eq(col(0), col(1)), eq(col(2), col(3))])
    );
}

#[test]
fn duplicates_across_chain_deduplicated() {
    // the same predicate repeated in every link of the chain survives once
    let mut expr = filter(filter(filter(get(0), vec![col(0)]), vec![col(0)]), vec![col(0)]);
    let result = Filter.transform(&mut expr, args());
    assert_eq!(result, Ok(()));
    assert_eq!(expr, filter(get(0), vec![col(0)]));
}

#[test]
fn equality_operands_ordered() {
    // a column reference sorts before a literal, so the operands swap
    let mut expr = filter(get(0), vec![eq(lit(5), col(2))]);
    Filter.action(&mut expr);
    assert_eq!(expr, filter(get(0), vec![eq(col(2), lit(5))]));
}

#[test]
fn predicate_order_is_canonical() {
    // the same predicate set in either order yields the same tree
    let a = eq(col(0), col(1));
    let b = eq(col(2), col(3));
    let a2 = eq(col(0), col(1));
    let b2 = eq(col(2), col(3));
    let mut one = filter(get(0), vec![b, a]);
    let mut two = filter(get(0), vec![a2, b2]);
    Filter.action(&mut one);
    Filter.action(&mut two);
    assert_eq!(one, two);
}

#[test]
fn transform_reaches_nested_positions() {
    // chains below a projection and on both sides of a union all fuse
    let mut expr = union(
        project(
            filter(filter(get(1), vec![eq(col(0), col(0))]), vec![eq(col(0), col(0))]),
            vec![0],
        ),
        filter(filter(get(2), vec![]), vec![eq(col(1), col(1))]),
    );
    let result = Filter.transform(&mut expr, args());
    assert_eq!(result, Ok(()));
    assert_eq!(
        expr,
        union(
            project(filter(get(1), vec![not_is_null(col(0))]), vec![0]),
            filter(get(2), vec![not_is_null(col(1))]),
        )
    );
}

#[test]
fn pass_is_idempotent() {
    // running the pass on its own output changes nothing
    let build = || {
        union(
            filter(
                filter(get(1), vec![eq(col(1), col(0)), eq(col(0), col(0))]),
                vec![eq(col(0), col(1))],
            ),
            project(filter(get(2), vec![]), vec![1]),
        )
    };
    let mut once = build();
    let result = Filter.transform(&mut once, args());
    assert_eq!(result, Ok(()));
    let mut twice = build();
    let r1 = Filter.transform(&mut twice, args());
    let r2 = Filter.transform(&mut twice, args());
    assert_eq!(r1, Ok(()));
    assert_eq!(r2, Ok(()));
    assert_eq!(twice, once);
}

#[test]
fn exposed_filter_left_for_rescheduling() {
    // when removing a vacuous filter exposes another filter at the same
    // position, one pre-order sweep does not re-fuse the exposed node with
    // its parent: the scheduler's next run reaches the fixed point
    let mut expr = filter(filter(get(0), vec![eq(col(0), col(1))]), vec![eq(col(1), col(0))]);
    let result = Filter.transform(&mut expr, args());
    assert_eq!(result, Ok(()));
    assert_eq!(expr, filter(get(0), vec![eq(col(0), col(1))]));
}
