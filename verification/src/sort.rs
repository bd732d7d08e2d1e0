//! Stable sorting of row indices by a key column.
//!
//! Every key is mapped to a rank (`Null` first, then integers — which also
//! carry boolean and float keys through their total orders — then strings),
//! and rows are permuted into the unique order that is ascending by rank and,
//! among equal ranks, ascending by original position. The permutation is
//! defined by a stable insertion of each index in turn, and the executable
//! sort is proved to produce exactly that permutation.
use vstd::prelude::*;

use crate::kernels::{lex_lt, to_int_idxs};

verus! {

/// The sort key of one row.
#[derive(Debug)]
pub enum SortKey {
    Null,
    Int(i64),
    Str(String),
}

/// Mathematical model of a sort key.
pub enum RankV {
    Null,
    Int(int),
    Str(Seq<char>),
}

impl View for SortKey {
    type V = RankV;

    open spec fn view(&self) -> RankV {
        match self {
            SortKey::Null => RankV::Null,
            SortKey::Int(v) => RankV::Int(*v as int),
            SortKey::Str(s) => RankV::Str(s@),
        }
    }
}

/// The ranks of a key vector.
pub open spec fn ranks_of(ks: Seq<SortKey>) -> Seq<RankV> {
    Seq::new(ks.len(), |i: int| ks[i]@)
}

/// Strict order on ranks: nulls first, integers before strings, integers by
/// value, strings lexicographically.
pub open spec fn rank_lt(a: RankV, b: RankV) -> bool {
    match (a, b) {
        (RankV::Null, RankV::Null) => false,
        (RankV::Null, _) => true,
        (RankV::Int(x), RankV::Int(y)) => x < y,
        (RankV::Int(_), RankV::Str(_)) => true,
        (RankV::Int(_), RankV::Null) => false,
        (RankV::Str(x), RankV::Str(y)) => lex_lt(x, y),
        (RankV::Str(_), _) => false,
    }
}

/// Strict order on rows `a`, `b` of a key sequence: by rank, then by
/// position. Total on distinct positions — this is what makes the sort
/// stable and its result unique.
pub open spec fn row_lt(ks: Seq<RankV>, a: int, b: int) -> bool {
    rank_lt(ks[a], ks[b]) || (ks[a] == ks[b] && a < b)
}

/// `lex_lt` is asymmetric and connected.
pub proof fn lemma_lex_lt_total(x: Seq<char>, y: Seq<char>)
    ensures
        lex_lt(x, y) ==> !lex_lt(y, x),
        !lex_lt(x, y) && !lex_lt(y, x) ==> x == y,
    decreases x.len(),
{
    if x.len() > 0 && y.len() > 0 {
        lemma_lex_lt_total(x.drop_first(), y.drop_first());
        if !lex_lt(x, y) && !lex_lt(y, x) {
            assert(x[0] == y[0]);
            assert(x.drop_first() == y.drop_first());
            assert(x =~= seq![x[0]] + x.drop_first());
            assert(y =~= seq![y[0]] + y.drop_first());
        }
    }
}

/// `rank_lt` is asymmetric and connected.
pub proof fn lemma_rank_lt_total(a: RankV, b: RankV)
    ensures
        rank_lt(a, b) ==> !rank_lt(b, a),
        !rank_lt(a, b) && !rank_lt(b, a) ==> a == b,
{
    match (a, b) {
        (RankV::Str(x), RankV::Str(y)) => {
            lemma_lex_lt_total(x, y);
        },
        _ => {},
    }
}

/// `row_lt` is a strict total order on distinct positions.
pub proof fn lemma_row_lt_total(ks: Seq<RankV>, a: int, b: int)
    requires
        0 <= a < ks.len(),
        0 <= b < ks.len(),
    ensures
        row_lt(ks, a, b) ==> !row_lt(ks, b, a),
        a != b ==> row_lt(ks, a, b) || row_lt(ks, b, a),
{
    lemma_rank_lt_total(ks[a], ks[b]);
}

/// Where a new row is placed among already sorted rows: after every row that
/// precedes it in the row order.
pub open spec fn insert_pos(ks: Seq<RankV>, perm: Seq<int>, k: int) -> int
    decreases perm.len(),
{
    if perm.len() == 0 {
        0
    } else if row_lt(ks, perm[0], k) {
        1 + insert_pos(ks, perm.drop_first(), k)
    } else {
        0
    }
}

/// The stable sorting permutation of the first `k` rows: each row index is
/// inserted, in order, at its position.
pub open spec fn sort_perm(ks: Seq<RankV>, k: nat) -> Seq<int>
    decreases k,
{
    if k == 0 {
        Seq::empty()
    } else {
        let p = sort_perm(ks, (k - 1) as nat);
        p.insert(insert_pos(ks, p, k - 1), k - 1)
    }
}

/// The stable sorting permutation of all rows of a key sequence.
pub open spec fn sorted_perm_of(ks: Seq<RankV>) -> Seq<int> {
    sort_perm(ks, ks.len())
}

/// A left-to-right scan that stops at the first row not below `k` finds the
/// insertion position.
proof fn lemma_insert_pos_scan(ks: Seq<RankV>, perm: Seq<int>, k: int, p: int)
    requires
        0 <= p <= perm.len(),
        forall|j: int| 0 <= j < p ==> row_lt(ks, #[trigger] perm[j], k),
        p == perm.len() || !row_lt(ks, perm[p], k),
    ensures
        insert_pos(ks, perm, k) == p,
    decreases perm.len(),
{
    if perm.len() == 0 {
    } else if p == 0 {
    } else {
        assert(row_lt(ks, perm[0], k));
        lemma_insert_pos_scan(ks, perm.drop_first(), k, p - 1);
    }
}

/// One executable key comparison.
pub fn key_lt(a: &SortKey, b: &SortKey) -> (r: bool)
    ensures
        r == rank_lt(a@, b@),
{
    match (a, b) {
        (SortKey::Null, SortKey::Null) => false,
        (SortKey::Null, _) => true,
        (SortKey::Int(x), SortKey::Int(y)) => x < y,
        (SortKey::Int(_), SortKey::Str(_)) => true,
        (SortKey::Int(_), SortKey::Null) => false,
        (SortKey::Str(x), SortKey::Str(y)) => crate::kernels::str_lt(x.as_str(), y.as_str()),
        (SortKey::Str(_), _) => false,
    }
}

/// One executable key equality test.
pub fn key_eq(a: &SortKey, b: &SortKey) -> (r: bool)
    ensures
        r == (a@ == b@),
{
    match (a, b) {
        (SortKey::Null, SortKey::Null) => true,
        (SortKey::Int(x), SortKey::Int(y)) => x == y,
        (SortKey::Str(x), SortKey::Str(y)) => *x == *y,
        _ => false,
    }
}

/// One executable row-order comparison.
pub fn row_lt_exec(keys: &Vec<SortKey>, a: usize, b: usize) -> (r: bool)
    requires
        a < keys@.len(),
        b < keys@.len(),
    ensures
        r == row_lt(ranks_of(keys@), a as int, b as int),
{
    if key_lt(&keys[a], &keys[b]) {
        true
    } else {
        key_eq(&keys[a], &keys[b]) && a < b
    }
}

/// Computes the stable sorting permutation of the rows of a key vector.
#[verifier::loop_isolation(false)]
pub fn sort_indices(keys: &Vec<SortKey>) -> (perm: Vec<usize>)
    ensures
        to_int_idxs(perm@) == sorted_perm_of(ranks_of(keys@)),
        perm@.len() == keys@.len(),
        forall|i: int| 0 <= i < perm@.len() ==> #[trigger] perm@[i] < keys@.len(),
{
    let ghost ks = ranks_of(keys@);
    let n = keys.len();
    let mut perm: Vec<usize> = Vec::new();
    let mut k: usize = 0;
    while k < n
        invariant
            0 <= k <= n,
            n == keys@.len(),
            perm@.len() == k,
            forall|i: int| 0 <= i < perm@.len() ==> #[trigger] perm@[i] < n,
            to_int_idxs(perm@) == sort_perm(ks, k as nat),
        decreases n - k,
    {
        let mut p: usize = 0;
        while p < perm.len() && row_lt_exec(keys, perm[p], k)
            invariant
                0 <= p <= perm@.len(),
                forall|j: int| 0 <= j < p ==> row_lt(ks, #[trigger] to_int_idxs(perm@)[j], k as int),
            decreases perm@.len() - p,
        {
            p += 1;
        }
        proof {
            lemma_insert_pos_scan(ks, to_int_idxs(perm@), k as int, p as int);
        }
        let ghost old_perm = perm@;
        perm.insert(p, k);
        proof {
            assert(to_int_idxs(perm@) =~= to_int_idxs(old_perm).insert(p as int, k as int));
        }
        k += 1;
    }
    perm
}

} // verus!
