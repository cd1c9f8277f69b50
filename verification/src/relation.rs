//! Relational expression nodes and the mathematical model of the fusion
//! pass.
//!
//! `MirRelationExpr` is the executable tree; `RelView` is its spec-level
//! image, with predicate lists as sequences. `fuse` is the meaning of one
//! whole pre-order sweep of the pass: at a `Filter` node the entire directly
//! nested chain is collapsed into one canonical filter (or removed when the
//! canonical list is empty), and the sweep continues below whatever node now
//! occupies the position.

use vstd::prelude::*;

use crate::predlist::canon_all;
use crate::predlist::normalize_preds;
use crate::scalar::MirScalarExpr;

verus! {

/// A relational operator node. `Filter` keeps only rows satisfying the
/// conjunction of its predicate list; the other variants are opaque to this
/// pass and stand for the rest of the operator set.
#[derive(Debug, PartialEq, Eq)]
pub enum MirRelationExpr {
    /// A reference to a named collection.
    Get { id: u64 },
    /// A projection of the input onto the given columns.
    Project { input: Box<MirRelationExpr>, outputs: Vec<u64> },
    /// The union of two inputs.
    Union { left: Box<MirRelationExpr>, right: Box<MirRelationExpr> },
    /// Rows of the input satisfying every predicate of the list.
    Filter { input: Box<MirRelationExpr>, predicates: Vec<MirScalarExpr> },
}

/// The spec-level image of a relation tree, with predicate lists as
/// sequences.
#[verifier::ext_equal]
pub enum RelView {
    Get { id: u64 },
    Project { input: Box<RelView>, outputs: Seq<u64> },
    Union { left: Box<RelView>, right: Box<RelView> },
    Filter { input: Box<RelView>, predicates: Seq<MirScalarExpr> },
}

/// The spec-level image of a relation tree.
pub open spec fn view_rel(t: MirRelationExpr) -> RelView
    decreases t,
{
    match t {
        MirRelationExpr::Get { id } => RelView::Get { id },
        MirRelationExpr::Project { input, outputs } => RelView::Project {
            input: Box::new(view_rel(*input)),
            outputs: outputs@,
        },
        MirRelationExpr::Union { left, right } => RelView::Union {
            left: Box::new(view_rel(*left)),
            right: Box::new(view_rel(*right)),
        },
        MirRelationExpr::Filter { input, predicates } => RelView::Filter {
            input: Box::new(view_rel(*input)),
            predicates: predicates@,
        },
    }
}

impl View for MirRelationExpr {
    type V = RelView;

    open spec fn view(&self) -> RelView {
        view_rel(*self)
    }
}

/// Height of a tree: leaves at zero, each node one above its tallest child.
pub open spec fn height(t: RelView) -> nat
    decreases t,
{
    match t {
        RelView::Get { .. } => 0,
        RelView::Project { input, .. } => height(*input) + 1,
        RelView::Union { left, right } => 1 + if height(*left) >= height(*right) {
            height(*left)
        } else {
            height(*right)
        },
        RelView::Filter { input, .. } => height(*input) + 1,
    }
}

/// The flat union of the predicate lists of a directly nested filter chain,
/// outermost first, each list in its own order.
pub open spec fn chain_preds(t: RelView) -> Seq<MirScalarExpr>
    decreases t,
{
    match t {
        RelView::Filter { input, predicates } => predicates + chain_preds(*input),
        _ => Seq::empty(),
    }
}

/// The first non-filter node at or below a directly nested filter chain.
pub open spec fn chain_base(t: RelView) -> RelView
    decreases t,
{
    match t {
        RelView::Filter { input, .. } => chain_base(*input),
        _ => t,
    }
}

/// The rewrite the fusion action performs on one node, descendants left as
/// they are: a filter chain becomes one filter over the chain's base with
/// the normalized union of the chain's predicates, or the base alone when
/// that union normalizes to nothing; any other node is untouched.
pub open spec fn action_spec(t: RelView) -> RelView {
    match t {
        RelView::Filter { .. } => {
            let ps = normalize_preds(chain_preds(t));
            if ps.len() == 0 {
                chain_base(t)
            } else {
                RelView::Filter { input: Box::new(chain_base(t)), predicates: ps }
            }
        },
        _ => t,
    }
}

/// One whole pre-order sweep of the pass over a tree.
pub open spec fn fuse(t: RelView) -> RelView
    decreases t, 0int,
{
    match t {
        RelView::Get { id } => RelView::Get { id },
        RelView::Project { input, outputs } => RelView::Project {
            input: Box::new(fuse(*input)),
            outputs,
        },
        RelView::Union { left, right } => RelView::Union {
            left: Box::new(fuse(*left)),
            right: Box::new(fuse(*right)),
        },
        RelView::Filter { input, predicates } => fuse_filter(*input, predicates),
    }
}

/// The sweep at a filter node, with `acc` the predicates gathered from the
/// enclosing part of the chain so far: walk down to the chain's base,
/// normalize the gathered union, and continue the sweep below the base.
pub open spec fn fuse_filter(input: RelView, acc: Seq<MirScalarExpr>) -> RelView
    decreases input, 1int,
{
    match input {
        RelView::Filter { input: inner, predicates } => fuse_filter(*inner, acc + predicates),
        _ => {
            let ps = normalize_preds(acc);
            let b = fuse(input);
            if ps.len() == 0 {
                b
            } else {
                RelView::Filter { input: Box::new(b), predicates: ps }
            }
        },
    }
}

/// The base of a filter chain is never itself a filter.
pub proof fn lemma_chain_base_not_filter(t: RelView)
    ensures
        !(chain_base(t) is Filter),
    decreases t,
{
    match t {
        RelView::Filter { input, .. } => {
            lemma_chain_base_not_filter(*input);
        },
        _ => {},
    }
}

/// The base of a filter chain is no taller than the chain.
pub proof fn lemma_chain_base_height(t: RelView)
    ensures
        height(chain_base(t)) <= height(t),
    decreases t,
{
    match t {
        RelView::Filter { input, .. } => {
            lemma_chain_base_height(*input);
        },
        _ => {},
    }
}

/// The action never makes a tree taller.
pub proof fn lemma_action_height(t: RelView)
    ensures
        height(action_spec(t)) <= height(t),
{
    match t {
        RelView::Filter { input, .. } => {
            lemma_chain_base_height(*input);
        },
        _ => {},
    }
}

/// The sweep keeps every non-filter node's variant.
pub proof fn lemma_fuse_not_filter(t: RelView)
    requires
        !(t is Filter),
    ensures
        !(fuse(t) is Filter),
{
}

/// What the sweep does to a whole filter chain: the chain collapses to one
/// filter over the swept base holding the normalized union of the gathered
/// and chain predicates, or to the swept base alone when that union
/// normalizes to nothing.
pub proof fn lemma_fuse_filter_chain(input: RelView, acc: Seq<MirScalarExpr>)
    ensures
        fuse_filter(input, acc) == ({
            let ps = normalize_preds(acc + chain_preds(input));
            let b = fuse(chain_base(input));
            if ps.len() == 0 {
                b
            } else {
                RelView::Filter { input: Box::new(b), predicates: ps }
            }
        }),
    decreases input,
{
    match input {
        RelView::Filter { input: inner, predicates } => {
            lemma_fuse_filter_chain(*inner, acc + predicates);
            assert(acc + predicates + chain_preds(*inner) =~= acc + chain_preds(input));
        },
        _ => {
            assert(acc + chain_preds(input) =~= acc);
        },
    }
}

} // verus!
