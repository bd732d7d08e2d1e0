//! The engine's cross-cutting laws, each proved from the specifications the
//! evaluator's own contracts use.
use vstd::prelude::*;

use crate::ast::JmesPathExpr;
use crate::batch::{BatchV, ColV};
use crate::errors::ErrV;
use crate::eval::{sort_batch_by, spec_eval};
use crate::kernels::{mask_true_idxs, rev_idxs, select_batch, select_col, select_plain, select_seq};
use crate::resolve::{col_ranks, resolve_path};
use crate::slice::{normalize_index_spec, slice_bounds, slice_indices, lemma_walk_pointwise,
    lemma_walk_range};
use crate::sort::{RankV, insert_pos, lemma_row_lt_total, rank_lt, row_lt, sort_perm,
    sorted_perm_of};
use crate::value::ValueV;

verus! {

/// Determinism: evaluation is a mathematical function of the tree and the
/// batch, so any two results of evaluating the same expression against the
/// same batch are equal.
pub proof fn lemma_eval_deterministic(e: JmesPathExpr, b: BatchV, r1: ValueV, r2: ValueV)
    requires
        spec_eval(e, b) == Ok::<ValueV, ErrV>(r1),
        spec_eval(e, b) == Ok::<ValueV, ErrV>(r2),
    ensures
        r1 == r2,
{
}

/// The row count of a column-shaped value, when it has one.
pub open spec fn col_val_len(v: ValueV) -> Option<nat> {
    match v {
        ValueV::Int32Col(s) => Some(s.len()),
        ValueV::Int64Col(s) => Some(s.len()),
        ValueV::Float64Col(s) => Some(s.len()),
        ValueV::Utf8Col(s) => Some(s.len()),
        ValueV::BoolCol(s) => Some(s.len()),
        ValueV::ListCol(s) => Some(s.len()),
        _ => None,
    }
}

/// The row-aligned core of the expression language: paths, constants,
/// comparisons, logic, and the string predicates over them. Shape-changing
/// operations (slice, flatten, reverse, index, pipe, filter, aggregation)
/// are not row-aligned: a slice, for one, yields a column shorter than the
/// batch.
pub open spec fn row_aligned(e: JmesPathExpr) -> bool
    decreases e,
{
    match e {
        JmesPathExpr::Path(_) => true,
        JmesPathExpr::ConstInt(_) => true,
        JmesPathExpr::ConstFloat(_) => true,
        JmesPathExpr::ConstBool(_) => true,
        JmesPathExpr::ConstString(_) => true,
        JmesPathExpr::Compare { op: _, lhs, rhs } => row_aligned(*lhs) && row_aligned(*rhs),
        JmesPathExpr::Logic { op: _, lhs, rhs } => row_aligned(*lhs) && (match rhs {
            Some(r) => row_aligned(*r),
            None => true,
        }),
        JmesPathExpr::Func { name, args } => (name@ == "contains"@ || name@ == "starts_with"@
            || name@ == "ends_with"@) && args@.len() == 2 && row_aligned(args@[0]) && row_aligned(
            args@[1],
        ),
        _ => false,
    }
}

/// Mask length law: over a well-formed batch, every column produced by a
/// row-aligned expression — in particular every boolean mask produced by a
/// comparison or a logic combinator — has exactly the batch's row count.
pub proof fn lemma_mask_length(e: JmesPathExpr, b: BatchV, v: ValueV, n: nat)
    requires
        b.wf(),
        row_aligned(e),
        spec_eval(e, b) == Ok::<ValueV, ErrV>(v),
        col_val_len(v) == Some(n),
    ensures
        n == b.nrows,
    decreases e,
{
    match e {
        JmesPathExpr::Path(parts) => {
            lemma_resolve_len(b, parts.deep_view());
        },
        JmesPathExpr::Compare { op, lhs, rhs } => {
            let l = spec_eval(*lhs, b)->Ok_0;
            let r = spec_eval(*rhs, b)->Ok_0;
            if col_val_len(l) is Some {
                lemma_mask_length(*lhs, b, l, col_val_len(l)->0);
            }
            if col_val_len(r) is Some {
                lemma_mask_length(*rhs, b, r, col_val_len(r)->0);
            }
        },
        JmesPathExpr::Logic { op, lhs, rhs } => {
            let l = spec_eval(*lhs, b)->Ok_0;
            if col_val_len(l) is Some {
                lemma_mask_length(*lhs, b, l, col_val_len(l)->0);
            }
            match rhs {
                Some(rx) => {
                    if spec_eval(*rx, b) is Ok {
                        let r = spec_eval(*rx, b)->Ok_0;
                        if col_val_len(r) is Some {
                            lemma_mask_length(*rx, b, r, col_val_len(r)->0);
                        }
                    }
                },
                None => {},
            }
        },
        JmesPathExpr::Func { name, args } => {
            reveal_strlit("length");
            reveal_strlit("contains");
            reveal_strlit("starts_with");
            reveal_strlit("ends_with");
            assert(spec_eval(e, b) == crate::eval::spec_func(name@, args@, b));
            if spec_eval(args@[0], b) is Ok {
                let hay = spec_eval(args@[0], b)->Ok_0;
                if col_val_len(hay) is Some {
                    lemma_mask_length(args@[0], b, hay, col_val_len(hay)->0);
                }
            }
        },
        _ => {},
    }
}

/// A resolved column of a well-formed batch has the batch's row count.
pub proof fn lemma_resolve_len(b: BatchV, parts: Seq<Seq<char>>)
    requires
        b.wf(),
        resolve_path(b, parts) is Ok,
    ensures
        resolve_path(b, parts)->Ok_0.len() == b.nrows,
{
    crate::resolve::lemma_find_field(b.names, parts[0]);
    let i = crate::resolve::find_field(b.names, parts[0]);
    assert(b.cols[i].wf() && b.cols[i].len() == b.nrows);
    if parts.len() >= 2 {
        match b.cols[i] {
            ColV::Struct(cn, ch, rows) => {
                crate::resolve::lemma_find_field(cn, parts[1]);
                let j = crate::resolve::find_field(cn, parts[1]);
                if 0 <= j < ch.len() {
                    assert(!(ch[j] is Struct) && ch[j].len() == rows);
                }
            },
            _ => {},
        }
    }
}

/// The number of rows a mask keeps: its count of true, non-null cells.
pub open spec fn popcount(m: Seq<Option<bool>>) -> nat
    decreases m.len(),
{
    if m.len() == 0 {
        0
    } else {
        popcount(m.drop_last()) + (if m.last() == Some(true) {
            1nat
        } else {
            0nat
        })
    }
}

/// The kept indices are exactly as many as the popcount.
pub proof fn lemma_mask_idxs_popcount(m: Seq<Option<bool>>)
    ensures
        mask_true_idxs(m).len() == popcount(m),
    decreases m.len(),
{
    if m.len() > 0 {
        lemma_mask_idxs_popcount(m.drop_last());
    }
}

/// Every kept index points at a true, non-null cell, in ascending order.
pub proof fn lemma_mask_idxs_sound(m: Seq<Option<bool>>)
    ensures
        forall|k: int|
            0 <= k < mask_true_idxs(m).len() ==> 0 <= #[trigger] mask_true_idxs(m)[k] < m.len()
                && m[mask_true_idxs(m)[k]] == Some(true),
        forall|k1: int, k2: int|
            0 <= k1 < k2 < mask_true_idxs(m).len() ==> mask_true_idxs(m)[k1] < mask_true_idxs(
                m,
            )[k2],
    decreases m.len(),
{
    if m.len() > 0 {
        lemma_mask_idxs_sound(m.drop_last());
        let pre = mask_true_idxs(m.drop_last());
        assert forall|k: int|
            0 <= k < mask_true_idxs(m).len() implies 0 <= #[trigger] mask_true_idxs(m)[k]
            < m.len() && m[mask_true_idxs(m)[k]] == Some(true) by {
            if k < pre.len() {
                assert(mask_true_idxs(m)[k] == pre[k]);
                assert(m.drop_last()[pre[k]] == m[pre[k]]);
            }
        }
    }
}

/// Filter length law: the filtered batch has exactly as many rows as the
/// mask has true cells.
pub proof fn lemma_filter_length(b: BatchV, m: Seq<Option<bool>>)
    ensures
        select_batch(b, mask_true_idxs(m)).nrows == popcount(m),
{
    lemma_mask_idxs_popcount(m);
}

/// The number of non-null cells of a column.
pub open spec fn count_valid<A>(s: Seq<Option<A>>) -> nat
    decreases s.len(),
{
    if s.len() == 0 {
        0
    } else {
        count_valid(s.drop_last()) + (if s.last() is Some {
            1nat
        } else {
            0nat
        })
    }
}

/// The validity cells of a column's rows.
pub open spec fn validity_cells<A>(s: Seq<Option<A>>) -> Seq<Option<bool>> {
    Seq::new(s.len(), |i: int| Some(s[i] is Some))
}

/// Not-null soundness, on any cell sequence: the validity mask keeps
/// exactly the non-null rows, and as many as there are non-null cells.
pub proof fn lemma_validity_filter<A>(s: Seq<Option<A>>)
    ensures
        mask_true_idxs(validity_cells(s)).len() == count_valid(s),
        forall|k: int|
            0 <= k < mask_true_idxs(validity_cells(s)).len() ==> s[#[trigger] mask_true_idxs(
                validity_cells(s),
            )[k]] is Some,
    decreases s.len(),
{
    let m = validity_cells(s);
    lemma_mask_idxs_popcount(m);
    lemma_mask_idxs_sound(m);
    lemma_popcount_valid(s);
}

proof fn lemma_popcount_valid<A>(s: Seq<Option<A>>)
    ensures
        popcount(validity_cells(s)) == count_valid(s),
    decreases s.len(),
{
    if s.len() > 0 {
        lemma_popcount_valid(s.drop_last());
        let m = validity_cells(s);
        assert(m.drop_last() =~= validity_cells(s.drop_last()));
    }
}

/// Reverse involution on a plain sequence of rows.
pub proof fn lemma_reverse_involution_seq<A>(s: Seq<A>)
    ensures
        select_seq(select_seq(s, rev_idxs(s.len())), rev_idxs(s.len())) =~= s,
{
}

/// Reverse involution on a whole batch: reversing the rows twice gives back
/// the original batch.
pub proof fn lemma_reverse_involution_batch(b: BatchV)
    requires
        b.wf(),
    ensures
        select_batch(select_batch(b, rev_idxs(b.nrows)), rev_idxs(b.nrows)) =~= b,
{
    let r1 = select_batch(b, rev_idxs(b.nrows));
    let r2 = select_batch(r1, rev_idxs(b.nrows));
    assert forall|i: int| 0 <= i < b.cols.len() implies #[trigger] r2.cols[i] == b.cols[i] by {
        assert(r1.cols[i] == select_col(b.cols[i], rev_idxs(b.nrows)));
        assert(r2.cols[i] == select_col(r1.cols[i], rev_idxs(b.nrows)));
        lemma_reverse_involution_col(b.cols[i], b.nrows);
    }
    assert(r2.cols =~= b.cols);
}

/// Reverse involution on one column of a well-formed batch.
pub proof fn lemma_reverse_involution_col(c: ColV, n: nat)
    requires
        c.wf(),
        c.len() == n,
    ensures
        select_col(select_col(c, rev_idxs(n)), rev_idxs(n)) == c,
{
    let r = rev_idxs(n);
    match c {
        ColV::Int32(s) => {
            assert(select_seq(select_seq(s, r), r) =~= s);
        },
        ColV::Int64(s) => {
            assert(select_seq(select_seq(s, r), r) =~= s);
        },
        ColV::Float64(s) => {
            assert(select_seq(select_seq(s, r), r) =~= s);
        },
        ColV::Utf8(s) => {
            assert(select_seq(select_seq(s, r), r) =~= s);
        },
        ColV::Bool(s) => {
            assert(select_seq(select_seq(s, r), r) =~= s);
        },
        ColV::List(s) => {
            assert(select_seq(select_seq(s, r), r) =~= s);
        },
        ColV::Struct(names, children, rows) => {
            let c1 = select_col(c, r);
            let c2 = select_col(c1, r);
            assert forall|j: int| 0 <= j < children.len() implies #[trigger] c2->Struct_1[j]
                == children[j] by {
                assert(c1->Struct_1[j] == select_plain(children[j], r));
                assert(c2->Struct_1[j] == select_plain(select_plain(children[j], r), r));
                lemma_reverse_involution_leaf(children[j], n);
            }
            assert(c2->Struct_1 =~= children);
        },
    }
}

proof fn lemma_reverse_involution_leaf(c: ColV, n: nat)
    requires
        !(c is Struct),
        c.len() == n,
    ensures
        select_plain(select_plain(c, rev_idxs(n)), rev_idxs(n)) == c,
{
    let r = rev_idxs(n);
    match c {
        ColV::Int32(s) => {
            assert(select_seq(select_seq(s, r), r) =~= s);
        },
        ColV::Int64(s) => {
            assert(select_seq(select_seq(s, r), r) =~= s);
        },
        ColV::Float64(s) => {
            assert(select_seq(select_seq(s, r), r) =~= s);
        },
        ColV::Utf8(s) => {
            assert(select_seq(select_seq(s, r), r) =~= s);
        },
        ColV::Bool(s) => {
            assert(select_seq(select_seq(s, r), r) =~= s);
        },
        ColV::List(s) => {
            assert(select_seq(select_seq(s, r), r) =~= s);
        },
        ColV::Struct(_, _, _) => {},
    }
}

/// Slice equivalence: the slice of a column is the pointwise application of
/// the clamped arithmetic progression `start + k * step`, every position of
/// which is in range.
pub proof fn lemma_slice_pointwise(
    len: int,
    start: Option<i32>,
    stop: Option<i32>,
    step: int,
)
    requires
        step != 0,
        len >= 0,
    ensures
        forall|k: int|
            0 <= k < slice_indices(len, start, stop, step).len() ==> #[trigger] slice_indices(
                len,
                start,
                stop,
                step,
            )[k] == slice_bounds(len, start, stop, step).0 + k * step,
        forall|k: int|
            0 <= k < slice_indices(len, start, stop, step).len() ==> 0 <= #[trigger] slice_indices(
                len,
                start,
                stop,
                step,
            )[k] < len,
{
    let (sc, ec) = slice_bounds(len, start, stop, step);
    lemma_walk_pointwise(sc, ec, step);
    lemma_walk_range(sc, ec, step);
}

/// Index symmetry: for `0 <= i < len`, the positive index `i` and the
/// negative index `i - len` normalize to the same position.
pub proof fn lemma_index_symmetry(i: int, len: int)
    requires
        0 <= i < len,
    ensures
        normalize_index_spec(i, len) == normalize_index_spec(i - len, len),
{
}

/// Sort law for `sort_by`: the result is exactly the batch's rows selected
/// by the stable sorting permutation of the key column's ranks, so it has
/// the same rows (each original row index exactly once) in an order that is
/// ascending by rank and, among equal ranks, ascending by original position.
pub proof fn lemma_sort_by_law(b: BatchV, key: ColV)
    requires
        b.wf(),
        col_ranks(key) is Some,
        col_ranks(key)->Some_0.len() == b.nrows,
    ensures
        sort_batch_by(b, key) == Ok::<BatchV, crate::errors::ErrV>(
            select_batch(b, sorted_perm_of(col_ranks(key)->Some_0)),
        ),
        sort_batch_by(b, key)->Ok_0.nrows == b.nrows,
        sort_batch_by(b, key)->Ok_0.wf(),
{
    let rks = col_ranks(key)->Some_0;
    lemma_sort_perm_ok(rks);
    crate::kernels::lemma_select_batch_wf(b, sorted_perm_of(rks));
}

/// The stable sorting permutation really is a permutation, is sorted by
/// rank, and is stable: positions with equal ranks stay in their original
/// order. This is the sort law for `sort_by`, whose result batch is exactly
/// `select_batch(b, sorted_perm_of(ranks))`.
pub proof fn lemma_sort_perm_ok(ks: Seq<RankV>)
    ensures
        sorted_perm_of(ks).len() == ks.len(),
        forall|i: int|
            0 <= i < ks.len() ==> 0 <= #[trigger] sorted_perm_of(ks)[i] < ks.len(),
        forall|i: int, j: int|
            0 <= i < j < ks.len() ==> row_lt(
                ks,
                sorted_perm_of(ks)[i],
                sorted_perm_of(ks)[j],
            ),
        forall|i: int, j: int| 0 <= i < ks.len() && 0 <= j < ks.len() && i != j
            ==> sorted_perm_of(ks)[i] != sorted_perm_of(ks)[j],
        forall|v: int| 0 <= v < ks.len() ==> sorted_perm_of(ks).contains(v),
{
    lemma_sort_perm_step(ks, ks.len());
    let p = sorted_perm_of(ks);
    assert forall|i: int, j: int|
        0 <= i < ks.len() && 0 <= j < ks.len() && i != j implies p[i] != p[j] by {
        if i < j {
            lemma_row_lt_total(ks, p[i], p[j]);
        } else {
            lemma_row_lt_total(ks, p[j], p[i]);
        }
    }
}

/// Inductive step facts for `sort_perm`: after inserting the first `k`
/// rows, the permutation holds exactly the indices `0..k`, each once, in
/// strictly ascending row order.
proof fn lemma_sort_perm_step(ks: Seq<RankV>, k: nat)
    requires
        k <= ks.len(),
    ensures
        sort_perm(ks, k).len() == k,
        forall|i: int| 0 <= i < k ==> 0 <= #[trigger] sort_perm(ks, k)[i] < k,
        forall|i: int, j: int|
            0 <= i < j < k ==> row_lt(ks, sort_perm(ks, k)[i], sort_perm(ks, k)[j]),
        forall|v: int| 0 <= v < k ==> sort_perm(ks, k).contains(v),
    decreases k,
{
    if k > 0 {
        lemma_sort_perm_step(ks, (k - 1) as nat);
        let p = sort_perm(ks, (k - 1) as nat);
        let pos = insert_pos(ks, p, k - 1);
        lemma_insert_pos_facts(ks, p, k - 1);
        let q = sort_perm(ks, k);
        p.insert_ensures(pos, k - 1);
        assert(q == p.insert(pos, k - 1));
        // Bounds and membership.
        assert forall|i: int| 0 <= i < k implies 0 <= #[trigger] q[i] < k by {
            if i < pos {
                assert(q[i] == p[i]);
            } else if i == pos {
                assert(q[i] == k - 1);
            } else {
                assert(q[i] == p[i - 1]);
            }
        }
        assert forall|v: int| 0 <= v < k implies q.contains(v) by {
            if v == k - 1 {
                assert(q[pos] == v);
            } else {
                assert(p.contains(v));
                let w = choose|w: int| 0 <= w < p.len() && p[w] == v;
                if w < pos {
                    assert(q[w] == v);
                } else {
                    assert(q[w + 1] == v);
                }
            }
        }
        // Strict sortedness: rows before the insertion point are below the
        // new row, rows at or past it are above it.
        assert forall|i: int, j: int| 0 <= i < j < k implies row_lt(ks, q[i], q[j]) by {
            if j < pos {
                assert(q[i] == p[i] && q[j] == p[j]);
            } else if j == pos {
                assert(q[i] == p[i] && q[j] == k - 1);
                assert(row_lt(ks, p[i], k - 1));
            } else {
                assert(q[j] == p[j - 1]);
                if i < pos {
                    assert(q[i] == p[i]);
                    if j - 1 == i {
                        assert(row_lt(ks, p[i], k - 1) && row_lt(ks, k - 1, p[i]) == false);
                        assert(i < pos <= j - 1);
                        assert(false);
                    } else {
                        assert(row_lt(ks, p[i], p[j - 1]));
                    }
                } else if i == pos {
                    assert(q[i] == k - 1);
                    assert(j - 1 >= pos);
                    assert(row_lt(ks, k - 1, p[j - 1]));
                } else {
                    assert(q[i] == p[i - 1]);
                    assert(row_lt(ks, p[i - 1], p[j - 1]));
                }
            }
        }
    }
}

/// The insertion point splits the sorted prefix: everything before it is
/// below the new row, everything from it on is above.
proof fn lemma_insert_pos_facts(ks: Seq<RankV>, p: Seq<int>, v: int)
    requires
        0 <= v < ks.len(),
        forall|i: int| 0 <= i < p.len() ==> 0 <= #[trigger] p[i] < ks.len() && p[i] != v,
        forall|i: int, j: int| 0 <= i < j < p.len() ==> row_lt(ks, p[i], p[j]),
    ensures
        0 <= insert_pos(ks, p, v) <= p.len(),
        forall|i: int| 0 <= i < insert_pos(ks, p, v) ==> row_lt(ks, #[trigger] p[i], v),
        forall|i: int| insert_pos(ks, p, v) <= i < p.len() ==> row_lt(ks, v, #[trigger] p[i]),
    decreases p.len(),
{
    if p.len() > 0 {
        if row_lt(ks, p[0], v) {
            assert(insert_pos(ks, p, v) == 1 + insert_pos(ks, p.drop_first(), v));
            lemma_insert_pos_facts(ks, p.drop_first(), v);
            let pos = insert_pos(ks, p, v);
            assert forall|i: int| 0 <= i < pos implies row_lt(ks, #[trigger] p[i], v) by {
                if i > 0 {
                    assert(p[i] == p.drop_first()[i - 1]);
                }
            }
            assert forall|i: int| pos <= i < p.len() implies row_lt(ks, v, #[trigger] p[i]) by {
                assert(p[i] == p.drop_first()[i - 1]);
            }
        } else {
            assert(insert_pos(ks, p, v) == 0);
            lemma_row_lt_total(ks, p[0], v);
            assert(row_lt(ks, v, p[0]));
            assert forall|i: int| 0 <= i < p.len() implies row_lt(ks, v, #[trigger] p[i]) by {
                if i > 0 {
                    assert(row_lt(ks, p[0], p[i]));
                    lemma_row_lt_trans(ks, v, p[0], p[i]);
                }
            }
        }
    }
}

/// Transitivity of the row order.
pub proof fn lemma_row_lt_trans(ks: Seq<RankV>, a: int, b: int, c: int)
    requires
        0 <= a < ks.len(),
        0 <= b < ks.len(),
        0 <= c < ks.len(),
        row_lt(ks, a, b),
        row_lt(ks, b, c),
    ensures
        row_lt(ks, a, c),
{
    crate::sort::lemma_rank_lt_total(ks[a], ks[b]);
    crate::sort::lemma_rank_lt_total(ks[b], ks[c]);
    crate::sort::lemma_rank_lt_total(ks[a], ks[c]);
    if rank_lt(ks[a], ks[b]) && rank_lt(ks[b], ks[c]) {
        lemma_rank_lt_trans(ks[a], ks[b], ks[c]);
    }
}

/// Transitivity of the rank order.
proof fn lemma_rank_lt_trans(a: RankV, b: RankV, c: RankV)
    requires
        rank_lt(a, b),
        rank_lt(b, c),
    ensures
        rank_lt(a, c),
{
    match (a, b, c) {
        (RankV::Str(x), RankV::Str(y), RankV::Str(z)) => {
            lemma_lex_lt_trans(x, y, z);
        },
        _ => {},
    }
}

/// Transitivity of the lexicographic string order.
proof fn lemma_lex_lt_trans(x: Seq<char>, y: Seq<char>, z: Seq<char>)
    requires
        crate::kernels::lex_lt(x, y),
        crate::kernels::lex_lt(y, z),
    ensures
        crate::kernels::lex_lt(x, z),
    decreases x.len() + y.len() + z.len(),
{
    if z.len() > 0 && y.len() > 0 && x.len() > 0 {
        if x[0] == y[0] && y[0] == z[0] {
            lemma_lex_lt_trans(x.drop_first(), y.drop_first(), z.drop_first());
        }
    }
}

} // verus!
