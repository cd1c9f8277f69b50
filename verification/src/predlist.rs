//! Normalization of a flat predicate list: canonicalize every predicate,
//! sort the list under the expression total order, and collapse adjacent
//! structurally-equal entries, so that a predicate list holds each distinct
//! canonical predicate exactly once, in a deterministic order.

use vstd::prelude::*;

use crate::canon::canon_pred;
use crate::canon::canonicalize_predicate;
use crate::canon::lemma_canon_idempotent;
use crate::scalar::Cmp;
use crate::scalar::MirScalarExpr;
use crate::scalar::cmp_expr;
use crate::scalar::le_expr;
use crate::scalar::lemma_cmp_equal_iff;
use crate::scalar::lemma_cmp_flip;
use crate::scalar::lemma_le_antisym;
use crate::scalar::lemma_le_trans;

verus! {

broadcast use vstd::seq_lib::group_seq_properties;

/// The list is sorted under the expression total order.
pub open spec fn pred_sorted(s: Seq<MirScalarExpr>) -> bool {
    forall|i: int, j: int| 0 <= i < j < s.len() ==> le_expr(s[i], s[j])
}

/// No two entries of the list are structurally equal.
pub open spec fn pred_distinct(s: Seq<MirScalarExpr>) -> bool {
    forall|i: int, j: int| 0 <= i < j < s.len() ==> s[i] != s[j]
}

/// Every predicate of the list, canonicalized, in order.
pub open spec fn canon_all(s: Seq<MirScalarExpr>) -> Seq<MirScalarExpr> {
    s.map_values(|p: MirScalarExpr| canon_pred(p))
}

/// Insertion of one predicate into a sorted list, before the first entry it
/// does not come strictly after.
pub open spec fn insert_sorted(x: MirScalarExpr, s: Seq<MirScalarExpr>) -> Seq<MirScalarExpr>
    decreases s.len(),
{
    if s.len() == 0 {
        seq![x]
    } else if le_expr(x, s[0]) {
        seq![x] + s
    } else {
        seq![s[0]] + insert_sorted(x, s.drop_first())
    }
}

/// Insertion sort of a predicate list under the expression total order.
pub open spec fn sort_preds(s: Seq<MirScalarExpr>) -> Seq<MirScalarExpr>
    decreases s.len(),
{
    if s.len() == 0 {
        Seq::empty()
    } else {
        insert_sorted(s[0], sort_preds(s.drop_first()))
    }
}

/// Collapse of adjacent structurally-equal entries.
pub open spec fn dedup_preds(s: Seq<MirScalarExpr>) -> Seq<MirScalarExpr>
    decreases s.len(),
{
    if s.len() <= 1 {
        s
    } else if s[0] == s[1] {
        dedup_preds(s.drop_first())
    } else {
        seq![s[0]] + dedup_preds(s.drop_first())
    }
}

/// The canonical form of a whole predicate list: every predicate
/// canonicalized, the list sorted, and exact duplicates collapsed.
pub open spec fn normalize_preds(s: Seq<MirScalarExpr>) -> Seq<MirScalarExpr> {
    dedup_preds(sort_preds(canon_all(s)))
}

/// Inserting into a sorted list keeps it sorted, grows it by one, and adds
/// exactly the inserted predicate to its contents.
pub proof fn lemma_insert_sorted_props(x: MirScalarExpr, s: Seq<MirScalarExpr>)
    requires
        pred_sorted(s),
    ensures
        pred_sorted(insert_sorted(x, s)),
        insert_sorted(x, s).len() == s.len() + 1,
        insert_sorted(x, s).contains(x),
        forall|y: MirScalarExpr| #[trigger] insert_sorted(x, s).contains(y) ==> (y == x
            || s.contains(y)),
        forall|y: MirScalarExpr| #[trigger] s.contains(y) ==> insert_sorted(x, s).contains(y),
    decreases s.len(),
{
    let r = insert_sorted(x, s);
    if s.len() == 0 {
        assert(r =~= seq![x]);
        assert(r[0] == x);
        assert forall|y: MirScalarExpr| #[trigger] r.contains(y) implies (y == x || s.contains(
            y,
        )) by {
            let k = choose|k: int| 0 <= k < r.len() && r[k] == y;
            assert(k == 0);
        }
        assert forall|y: MirScalarExpr| #[trigger] s.contains(y) implies r.contains(y) by {
            let k = choose|k: int| 0 <= k < s.len() && s[k] == y;
        }
    } else if le_expr(x, s[0]) {
        assert(r =~= seq![x] + s);
        assert forall|i: int, j: int| 0 <= i < j < r.len() implies le_expr(r[i], r[j]) by {
            assert(r[j] == s[j - 1]);
            if i == 0 {
                assert(r[0] == x);
                if j > 1 {
                    lemma_le_trans(x, s[0], s[j - 1]);
                }
            } else {
                assert(r[i] == s[i - 1]);
            }
        }
        assert forall|y: MirScalarExpr| #[trigger] r.contains(y) implies (y == x || s.contains(
            y,
        )) by {
            let k = choose|k: int| 0 <= k < r.len() && r[k] == y;
            if k > 0 {
                assert(s[k - 1] == y);
                assert(s.contains(y));
            } else {
                assert(r[0] == x);
            }
        }
        assert forall|y: MirScalarExpr| #[trigger] s.contains(y) implies r.contains(y) by {
            let k = choose|k: int| 0 <= k < s.len() && s[k] == y;
            assert(r[k + 1] == y);
        }
        assert(r[0] == x);
    } else {
        let tail = s.drop_first();
        let rest = insert_sorted(x, tail);
        lemma_insert_sorted_props(x, tail);
        assert(r =~= seq![s[0]] + rest);
        lemma_cmp_flip(x, s[0]);
        assert(le_expr(s[0], x));
        assert(forall|k: int| 0 <= k < tail.len() ==> tail[k] == s[k + 1]);
        // every entry of the recursive insertion comes at or after the head
        assert forall|y: MirScalarExpr| #[trigger] rest.contains(y) implies le_expr(s[0], y) by {
            if y == x {
                assert(le_expr(s[0], x));
            } else {
                assert(tail.contains(y));
                let k = choose|k: int| 0 <= k < tail.len() && tail[k] == y;
                assert(s[k + 1] == y);
                if k + 1 == 0 {
                } else {
                    assert(le_expr(s[0], s[k + 1]));
                }
            }
        }
        assert forall|i: int, j: int| 0 <= i < j < r.len() implies le_expr(r[i], r[j]) by {
            assert(r[j] == rest[j - 1]);
            assert(rest.contains(rest[j - 1]));
            if i == 0 {
                assert(r[0] == s[0]);
                assert(le_expr(s[0], rest[j - 1]));
            } else {
                assert(r[i] == rest[i - 1]);
            }
        }
        assert forall|y: MirScalarExpr| #[trigger] r.contains(y) implies (y == x || s.contains(
            y,
        )) by {
            let k = choose|k: int| 0 <= k < r.len() && r[k] == y;
            if k == 0 {
                assert(s[0] == y);
                assert(s.contains(y));
            } else {
                assert(rest[k - 1] == y);
                assert(rest.contains(y));
                if y != x {
                    assert(tail.contains(y));
                    let m = choose|m: int| 0 <= m < tail.len() && tail[m] == y;
                    assert(s[m + 1] == y);
                    assert(s.contains(y));
                }
            }
        }
        assert forall|y: MirScalarExpr| #[trigger] s.contains(y) implies r.contains(y) by {
            let k = choose|k: int| 0 <= k < s.len() && s[k] == y;
            if k == 0 {
                assert(r[0] == y);
            } else {
                assert(tail[k - 1] == y);
                assert(tail.contains(y));
                assert(rest.contains(y));
                let m = choose|m: int| 0 <= m < rest.len() && rest[m] == y;
                assert(r[m + 1] == y);
            }
        }
        assert(rest.contains(x));
        let m = choose|m: int| 0 <= m < rest.len() && rest[m] == x;
        assert(r[m + 1] == x);
        assert(r.contains(x));
    }
}

/// Sorting yields a sorted list of the same length with the same contents.
pub proof fn lemma_sort_props(s: Seq<MirScalarExpr>)
    ensures
        pred_sorted(sort_preds(s)),
        sort_preds(s).len() == s.len(),
        forall|y: MirScalarExpr| #[trigger] sort_preds(s).contains(y) ==> s.contains(y),
        forall|y: MirScalarExpr| #[trigger] s.contains(y) ==> sort_preds(s).contains(y),
    decreases s.len(),
{
    if s.len() == 0 {
        assert forall|y: MirScalarExpr| #[trigger] s.contains(y) implies sort_preds(s).contains(
            y,
        ) by {
            let k = choose|k: int| 0 <= k < s.len() && s[k] == y;
        }
    } else {
        let tail = s.drop_first();
        let st = sort_preds(tail);
        lemma_sort_props(tail);
        lemma_insert_sorted_props(s[0], st);
        assert(forall|k: int| 0 <= k < tail.len() ==> tail[k] == s[k + 1]);
        assert forall|y: MirScalarExpr| #[trigger] sort_preds(s).contains(y) implies s.contains(
            y,
        ) by {
            if y == s[0] {
                assert(s.contains(y));
            } else {
                assert(st.contains(y));
                assert(tail.contains(y));
                let k = choose|k: int| 0 <= k < tail.len() && tail[k] == y;
                assert(s[k + 1] == y);
                assert(s.contains(y));
            }
        }
        assert forall|y: MirScalarExpr| #[trigger] s.contains(y) implies sort_preds(s).contains(
            y,
        ) by {
            let k = choose|k: int| 0 <= k < s.len() && s[k] == y;
            if k == 0 {
                assert(sort_preds(s).contains(s[0]));
            } else {
                assert(tail[k - 1] == y);
                assert(tail.contains(y));
                assert(st.contains(y));
            }
        }
    }
}

/// Sorting an already sorted list leaves it unchanged.
pub proof fn lemma_sort_fixed(s: Seq<MirScalarExpr>)
    requires
        pred_sorted(s),
    ensures
        sort_preds(s) == s,
    decreases s.len(),
{
    if s.len() == 0 {
        assert(sort_preds(s) =~= s);
    } else {
        let tail = s.drop_first();
        lemma_sort_fixed(tail);
        if tail.len() == 0 {
            assert(insert_sorted(s[0], tail) =~= s);
        } else {
            assert(tail[0] == s[1]);
            assert(le_expr(s[0], tail[0]));
            assert(insert_sorted(s[0], tail) =~= seq![s[0]] + tail);
            assert(seq![s[0]] + tail =~= s);
        }
    }
}

/// Collapsing adjacent duplicates of a sorted list yields a sorted list with
/// no duplicates at all and with the same contents.
pub proof fn lemma_dedup_props(s: Seq<MirScalarExpr>)
    requires
        pred_sorted(s),
    ensures
        pred_sorted(dedup_preds(s)),
        pred_distinct(dedup_preds(s)),
        forall|y: MirScalarExpr| #[trigger] dedup_preds(s).contains(y) ==> s.contains(y),
        forall|y: MirScalarExpr| #[trigger] s.contains(y) ==> dedup_preds(s).contains(y),
    decreases s.len(),
{
    let d = dedup_preds(s);
    if s.len() <= 1 {
        assert(pred_distinct(d));
    } else {
        let tail = s.drop_first();
        let dt = dedup_preds(tail);
        assert(forall|k: int| 0 <= k < tail.len() ==> tail[k] == s[k + 1]);
        lemma_dedup_props(tail);
        if s[0] == s[1] {
            assert forall|y: MirScalarExpr| #[trigger] d.contains(y) implies s.contains(y) by {
                assert(tail.contains(y));
                let k = choose|k: int| 0 <= k < tail.len() && tail[k] == y;
                assert(s[k + 1] == y);
                assert(s.contains(y));
            }
            assert forall|y: MirScalarExpr| #[trigger] s.contains(y) implies d.contains(y) by {
                let k = choose|k: int| 0 <= k < s.len() && s[k] == y;
                if k == 0 {
                    assert(tail[0] == s[1]);
                    assert(tail.contains(y));
                } else {
                    assert(tail[k - 1] == y);
                    assert(tail.contains(y));
                }
            }
        } else {
            assert(d =~= seq![s[0]] + dt);
            // the head does not recur in the tail: with sortedness and
            // antisymmetry a recurrence would force s[1] == s[0], which this
            // branch excludes
            assert forall|k: int| 1 <= k < s.len() implies #[trigger] s[k] != s[0] by {
                if s[k] == s[0] {
                    if k > 1 {
                        assert(le_expr(s[1], s[k]));
                        assert(le_expr(s[0], s[1]));
                        lemma_le_antisym(s[1], s[0]);
                    }
                }
            }
            assert forall|y: MirScalarExpr| #[trigger] dt.contains(y) implies (s.contains(y) && y
                != s[0] && le_expr(s[0], y)) by {
                assert(tail.contains(y));
                let k = choose|k: int| 0 <= k < tail.len() && tail[k] == y;
                assert(s[k + 1] == y);
                assert(s.contains(y));
                assert(s[k + 1] != s[0]);
                assert(le_expr(s[0], s[k + 1]));
            }
            assert forall|i: int, j: int| 0 <= i < j < d.len() implies le_expr(d[i], d[j]) by {
                assert(d[j] == dt[j - 1]);
                assert(dt.contains(dt[j - 1]));
                if i == 0 {
                    assert(d[0] == s[0]);
                } else {
                    assert(d[i] == dt[i - 1]);
                }
            }
            assert forall|i: int, j: int| 0 <= i < j < d.len() implies d[i] != d[j] by {
                assert(d[j] == dt[j - 1]);
                assert(dt.contains(dt[j - 1]));
                if i == 0 {
                    assert(d[0] == s[0]);
                } else {
                    assert(d[i] == dt[i - 1]);
                }
            }
            assert forall|y: MirScalarExpr| #[trigger] d.contains(y) implies s.contains(y) by {
                let k = choose|k: int| 0 <= k < d.len() && d[k] == y;
                if k == 0 {
                    assert(s[0] == y);
                    assert(s.contains(y));
                } else {
                    assert(dt[k - 1] == y);
                    assert(dt.contains(y));
                }
            }
            assert forall|y: MirScalarExpr| #[trigger] s.contains(y) implies d.contains(y) by {
                let k = choose|k: int| 0 <= k < s.len() && s[k] == y;
                if k == 0 {
                    assert(d[0] == y);
                    assert(d.contains(y));
                } else {
                    assert(tail[k - 1] == y);
                    assert(tail.contains(y));
                    assert(dt.contains(y));
                    let m = choose|m: int| 0 <= m < dt.len() && dt[m] == y;
                    assert(d[m + 1] == y);
                    assert(d.contains(y));
                }
            }
        }
    }
}

/// Collapsing adjacent duplicates of a list without duplicates leaves it
/// unchanged.
pub proof fn lemma_dedup_fixed(s: Seq<MirScalarExpr>)
    requires
        pred_distinct(s),
    ensures
        dedup_preds(s) == s,
    decreases s.len(),
{
    if s.len() <= 1 {
    } else {
        let tail = s.drop_first();
        lemma_dedup_fixed(tail);
        assert(s[0] != s[1]);
        assert(seq![s[0]] + tail =~= s);
    }
}

/// Normalization yields a sorted list without duplicates whose contents are
/// exactly the canonicalized predicates of the input.
pub proof fn lemma_normalize_props(s: Seq<MirScalarExpr>)
    ensures
        pred_sorted(normalize_preds(s)),
        pred_distinct(normalize_preds(s)),
        forall|y: MirScalarExpr| #[trigger] normalize_preds(s).contains(y) ==> canon_all(
            s,
        ).contains(y),
        forall|y: MirScalarExpr| #[trigger] canon_all(s).contains(y) ==> normalize_preds(
            s,
        ).contains(y),
{
    lemma_sort_props(canon_all(s));
    lemma_dedup_props(sort_preds(canon_all(s)));
}

/// Normalization is idempotent: normalizing a normalized list is the
/// identity.
pub proof fn lemma_normalize_idempotent(s: Seq<MirScalarExpr>)
    ensures
        normalize_preds(normalize_preds(s)) == normalize_preds(s),
{
    let n = normalize_preds(s);
    lemma_normalize_props(s);
    assert forall|i: int| 0 <= i < n.len() implies #[trigger] canon_pred(n[i]) == n[i] by {
        assert(n.contains(n[i]));
        assert(canon_all(s).contains(n[i]));
        let k = choose|k: int| 0 <= k < canon_all(s).len() && canon_all(s)[k] == n[i];
        assert(n[i] == canon_pred(s[k]));
        lemma_canon_idempotent(s[k]);
    }
    assert(canon_all(n) =~= n);
    lemma_sort_fixed(n);
    lemma_dedup_fixed(n);
}

/// Canonicalizes every predicate of the list, in place of the original, in
/// order.
pub fn canonicalize_predicates(s: Vec<MirScalarExpr>) -> (r: Vec<MirScalarExpr>)
    ensures
        r@ == canon_all(s@),
    decreases s@.len(),
{
    let mut s = s;
    if s.len() == 0 {
        assert(s@ =~= canon_all(s@));
        s
    } else {
        let ghost s0 = s@;
        let p = s.remove(0);
        let cp = canonicalize_predicate(p);
        let mut r = canonicalize_predicates(s);
        r.insert(0, cp);
        proof {
            assert(s0.drop_first() =~= s0.remove(0));
            assert(r@ =~= canon_all(s0));
        }
        r
    }
}

/// Sorts the list under the expression total order by insertion.
pub fn sort_predicates(s: Vec<MirScalarExpr>) -> (r: Vec<MirScalarExpr>)
    ensures
        r@ == sort_preds(s@),
    decreases s@.len(),
{
    let mut s = s;
    if s.len() == 0 {
        s
    } else {
        let ghost s0 = s@;
        let x = s.remove(0);
        proof {
            assert(s0.drop_first() =~= s0.remove(0));
        }
        let sorted_tail = sort_predicates(s);
        insert_sorted_exec(x, sorted_tail)
    }
}

/// Inserts one predicate into a sorted list, keeping the order.
fn insert_sorted_exec(x: MirScalarExpr, s: Vec<MirScalarExpr>) -> (r: Vec<MirScalarExpr>)
    ensures
        r@ == insert_sorted(x, s@),
    decreases s@.len(),
{
    let mut s = s;
    if s.len() == 0 {
        s.push(x);
        assert(s@ =~= seq![x]);
        s
    } else {
        let c = cmp_expr(&x, &s[0]);
        if !(c == Cmp::Greater) {
            let ghost s0 = s@;
            s.insert(0, x);
            assert(s@ =~= seq![x] + s0);
            s
        } else {
            let ghost s0 = s@;
            let first = s.remove(0);
            proof {
                assert(s0.drop_first() =~= s0.remove(0));
            }
            let mut r = insert_sorted_exec(x, s);
            r.insert(0, first);
            assert(r@ =~= seq![s0[0]] + insert_sorted(x, s0.drop_first()));
            r
        }
    }
}

/// Collapses adjacent structurally-equal entries.
pub fn dedup_predicates(s: Vec<MirScalarExpr>) -> (r: Vec<MirScalarExpr>)
    ensures
        r@ == dedup_preds(s@),
    decreases s@.len(),
{
    let mut s = s;
    if s.len() <= 1 {
        s
    } else {
        let ghost s0 = s@;
        let equal_head = cmp_expr(&s[0], &s[1]) == Cmp::Equal;
        proof {
            lemma_cmp_equal_iff(s0[0], s0[1]);
        }
        let first = s.remove(0);
        proof {
            assert(s0.drop_first() =~= s0.remove(0));
        }
        if equal_head {
            dedup_predicates(s)
        } else {
            let mut r = dedup_predicates(s);
            r.insert(0, first);
            assert(r@ =~= seq![s0[0]] + dedup_preds(s0.drop_first()));
            r
        }
    }
}

/// Normalizes a predicate list: canonicalizes every predicate, sorts the
/// list, and collapses exact duplicates.
pub fn normalize_predicates(s: Vec<MirScalarExpr>) -> (r: Vec<MirScalarExpr>)
    ensures
        r@ == normalize_preds(s@),
{
    dedup_predicates(sort_predicates(canonicalize_predicates(s)))
}

} // verus!
