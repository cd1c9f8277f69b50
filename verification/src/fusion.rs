//! The filter fusion pass: fuses chains of adjacent `Filter` operators into
//! one canonical `Filter`, deduplicates predicates, and removes filter nodes
//! whose predicate list normalizes to nothing.

use vstd::prelude::*;

use crate::predlist::canon_all;
use crate::predlist::normalize_predicates;
use crate::predlist::normalize_preds;
use crate::predlist::lemma_normalize_idempotent;
use crate::predlist::lemma_normalize_props;
use crate::predlist::pred_distinct;
use crate::predlist::pred_sorted;
use crate::relation::MirRelationExpr;
use crate::relation::RelView;
use crate::relation::action_spec;
use crate::relation::chain_base;
use crate::relation::chain_preds;
use crate::relation::fuse;
use crate::relation::fuse_filter;
use crate::relation::height;
use crate::relation::lemma_action_height;
use crate::relation::lemma_chain_base_height;
use crate::relation::lemma_chain_base_not_filter;
use crate::relation::lemma_fuse_filter_chain;
use crate::relation::lemma_fuse_not_filter;
use crate::relation::view_rel;
use crate::scalar::MirScalarExpr;

verus! {

/// A fresh-identifier generator, part of the uniform pass context.
#[derive(Debug)]
pub struct IdGen {
    pub next_id: u64,
}

/// The context handed to every pass of the optimizer: an identifier
/// generator and index metadata. This pass uses neither; the fields exist
/// for interface uniformity across the rule set.
#[derive(Debug)]
pub struct TransformArgs {
    pub id_gen: IdGen,
    pub indexes: Vec<u64>,
}

/// The typed failure channel of the uniform pass interface. This pass never
/// fails; the type exists for uniformity with genuinely fallible rules.
#[derive(Debug, PartialEq, Eq)]
pub enum TransformError {
    Internal,
}

/// Fuses multiple `Filter` operators into one and deduplicates predicates.
#[derive(Debug)]
pub struct Filter;

/// Tells whether a node is a `Filter` operator.
fn is_filter(t: &MirRelationExpr) -> (r: bool)
    ensures
        r == (view_rel(*t) is Filter),
{
    match t {
        MirRelationExpr::Filter { .. } => true,
        _ => false,
    }
}

/// The fusion action on one owned node, descendants left as they are.
fn apply_action(t: MirRelationExpr) -> (r: MirRelationExpr)
    ensures
        view_rel(r) == action_spec(view_rel(t)),
        !(view_rel(t) is Filter) ==> r == t,
{
    let ghost v0 = view_rel(t);
    match t {
        MirRelationExpr::Filter { input, predicates } => {
            let mut preds = predicates;
            let mut base: MirRelationExpr = *input;
            while is_filter(&base)
                invariant
                    preds@ + chain_preds(view_rel(base)) == chain_preds(v0),
                    chain_base(view_rel(base)) == chain_base(v0),
                decreases height(view_rel(base)),
            {
                let b = base;
                let ghost vb = view_rel(b);
                base = match b {
                    MirRelationExpr::Filter { input: inner, predicates: inner_preds } => {
                        let ghost preds_before = preds@;
                        let mut ip = inner_preds;
                        preds.append(&mut ip);
                        proof {
                            assert(preds_before + (inner_preds@ + chain_preds(view_rel(*inner)))
                                =~= (preds_before + inner_preds@) + chain_preds(view_rel(*inner)));
                        }
                        *inner
                    },
                    other => other,
                };
            }
            let normalized = normalize_predicates(preds);
            proof {
                assert(preds@ + chain_preds(view_rel(base)) =~= preds@);
            }
            if normalized.len() == 0 {
                base
            } else {
                MirRelationExpr::Filter { input: Box::new(base), predicates: normalized }
            }
        },
        other => other,
    }
}

/// One whole pre-order sweep: the fusion action at this node, then the
/// sweep below every child of whatever node now stands here.
fn fuse_rel(t: MirRelationExpr) -> (r: MirRelationExpr)
    ensures
        view_rel(r) == fuse(view_rel(t)),
    decreases height(view_rel(t)),
{
    let ghost v0 = view_rel(t);
    let t2 = apply_action(t);
    proof {
        lemma_action_height(v0);
        if v0 is Filter {
            match v0 {
                RelView::Filter { input, predicates } => {
                    lemma_fuse_filter_chain(*input, predicates);
                    lemma_chain_base_not_filter(*input);
                },
                _ => {},
            }
        }
    }
    match t2 {
        MirRelationExpr::Get { id } => MirRelationExpr::Get { id },
        MirRelationExpr::Project { input, outputs } => {
            let fi = fuse_rel(*input);
            MirRelationExpr::Project { input: Box::new(fi), outputs }
        },
        MirRelationExpr::Union { left, right } => {
            let fl = fuse_rel(*left);
            let fr = fuse_rel(*right);
            MirRelationExpr::Union { left: Box::new(fl), right: Box::new(fr) }
        },
        MirRelationExpr::Filter { input, predicates } => {
            let fi = fuse_rel(*input);
            MirRelationExpr::Filter { input: Box::new(fi), predicates }
        },
    }
}

impl Filter {
    /// Fuses the directly nested filter chain at this node into one filter
    /// with a canonical predicate list, or removes the node when that list
    /// normalizes to nothing; leaves any non-filter node unchanged.
    pub fn action(&self, relation: &mut MirRelationExpr)
        ensures
            view_rel(*final(relation)) == action_spec(view_rel(*old(relation))),
            !(view_rel(*old(relation)) is Filter) ==> *final(relation) == *old(relation),
    {
        let mut tmp = MirRelationExpr::Get { id: 0 };
        core::mem::swap(relation, &mut tmp);
        let out = apply_action(tmp);
        *relation = out;
    }

    /// Runs one pre-order sweep of the fusion action over the whole tree,
    /// in place. Always reports success: every step is a pure structural
    /// rewrite of well-formed input.
    pub fn transform(&self, relation: &mut MirRelationExpr, _args: TransformArgs) -> (r: Result<
        (),
        TransformError,
    >)
        ensures
            r == Ok::<(), TransformError>(()),
            view_rel(*final(relation)) == fuse(view_rel(*old(relation))),
    {
        let mut tmp = MirRelationExpr::Get { id: 0 };
        core::mem::swap(relation, &mut tmp);
        let out = fuse_rel(tmp);
        *relation = out;
        Ok(())
    }
}

/// Chain collapse: the sweep turns a chain of directly nested filters into
/// exactly one filter directly wrapping the swept base, holding the
/// sorted, duplicate-free canonicalized union of every predicate across the
/// chain — or into the swept base alone when that union normalizes to
/// nothing.
pub proof fn lemma_chain_collapse(t: RelView)
    requires
        t is Filter,
    ensures
        !(fuse(chain_base(t)) is Filter),
        normalize_preds(chain_preds(t)).len() == 0 ==> fuse(t) == fuse(chain_base(t)),
        normalize_preds(chain_preds(t)).len() != 0 ==> fuse(t) == (RelView::Filter {
            input: Box::new(fuse(chain_base(t))),
            predicates: normalize_preds(chain_preds(t)),
        }),
        pred_sorted(normalize_preds(chain_preds(t))),
        pred_distinct(normalize_preds(chain_preds(t))),
        forall|y: MirScalarExpr| #[trigger] normalize_preds(chain_preds(t)).contains(y)
            <==> canon_all(chain_preds(t)).contains(y),
{
    lemma_chain_base_not_filter(t);
    lemma_fuse_not_filter(chain_base(t));
    lemma_normalize_props(chain_preds(t));
    match t {
        RelView::Filter { input, predicates } => {
            lemma_fuse_filter_chain(*input, predicates);
        },
        _ => {},
    }
}

/// Vacuous removal: a filter over a non-filter input whose predicate list
/// normalizes to nothing is removed and replaced by its input.
pub proof fn lemma_vacuous_removal(input: RelView, predicates: Seq<MirScalarExpr>)
    requires
        !(input is Filter),
        normalize_preds(predicates).len() == 0,
    ensures
        action_spec(RelView::Filter { input: Box::new(input), predicates }) == input,
{
    match input {
        RelView::Get { .. } => {
            assert(chain_preds(input) =~= Seq::<MirScalarExpr>::empty());
            assert(chain_base(input) == input);
        },
        RelView::Project { .. } => {
            assert(chain_preds(input) =~= Seq::<MirScalarExpr>::empty());
            assert(chain_base(input) == input);
        },
        RelView::Union { .. } => {
            assert(chain_preds(input) =~= Seq::<MirScalarExpr>::empty());
            assert(chain_base(input) == input);
        },
        RelView::Filter { .. } => {
            assert(false);
        },
    }
    assert(predicates + chain_preds(input) =~= predicates);
}

/// Idempotence: one sweep reaches a fixed point, so a second sweep over its
/// output changes nothing.
pub proof fn lemma_fuse_idempotent(t: RelView)
    ensures
        fuse(fuse(t)) == fuse(t),
    decreases height(t),
{
    match t {
        RelView::Get { .. } => {},
        RelView::Project { input, .. } => {
            lemma_fuse_idempotent(*input);
        },
        RelView::Union { left, right } => {
            lemma_fuse_idempotent(*left);
            lemma_fuse_idempotent(*right);
        },
        RelView::Filter { input, predicates } => {
            lemma_fuse_filter_chain(*input, predicates);
            let cb = chain_base(*input);
            lemma_chain_base_not_filter(*input);
            lemma_chain_base_height(*input);
            lemma_fuse_idempotent(cb);
            lemma_fuse_not_filter(cb);
            let ps = normalize_preds(predicates + chain_preds(*input));
            let b = fuse(cb);
            if ps.len() == 0 {
            } else {
                lemma_normalize_idempotent(predicates + chain_preds(*input));
                assert(fuse(RelView::Filter { input: Box::new(b), predicates: ps })
                    == fuse_filter(b, ps));
            }
        },
    }
}

} // verus!
