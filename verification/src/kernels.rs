//! Vectorized kernels over the columnar model: row selection by index lists
//! (the common core of filter, take, reverse and sort), broadcast
//! comparisons, and elementwise boolean combinators. Each executable kernel
//! is proved equal to a direct mathematical description of its result.
use vstd::prelude::*;

use crate::CompareOp;
use crate::batch::{Batch, BatchV, BoolColumn, ColV, Column, Float64Column, Int32Column,
    Int64Column, ListColumn, StringColumn, StructColumn, leaf_v, opt_list_v, opt_str_v};
use crate::float_bits::{f64_bits_eq, f64_bits_lt, f64_eq, f64_lt};

verus! {

/// The sequence of `usize` indices as mathematical integers.
pub open spec fn to_int_idxs(s: Seq<usize>) -> Seq<int> {
    Seq::new(s.len(), |i: int| s[i] as int)
}

/// All indices in `idxs` lie below `len`.
pub open spec fn idxs_ok(idxs: Seq<int>, len: nat) -> bool {
    forall|i: int| 0 <= i < idxs.len() ==> 0 <= #[trigger] idxs[i] < len
}

/// The rows of `s` picked out by `idxs`, in order.
pub open spec fn select_seq<A>(s: Seq<A>, idxs: Seq<int>) -> Seq<A> {
    Seq::new(idxs.len(), |i: int| s[idxs[i]])
}

/// Row selection on a non-struct column; a struct column only has its row
/// count replaced here (its children are handled by `select_col`).
pub open spec fn select_plain(c: ColV, idxs: Seq<int>) -> ColV {
    match c {
        ColV::Int32(s) => ColV::Int32(select_seq(s, idxs)),
        ColV::Int64(s) => ColV::Int64(select_seq(s, idxs)),
        ColV::Float64(s) => ColV::Float64(select_seq(s, idxs)),
        ColV::Utf8(s) => ColV::Utf8(select_seq(s, idxs)),
        ColV::Bool(s) => ColV::Bool(select_seq(s, idxs)),
        ColV::List(s) => ColV::List(select_seq(s, idxs)),
        ColV::Struct(names, children, _) => ColV::Struct(names, children, idxs.len()),
    }
}

/// Row selection on any column, struct children included.
pub open spec fn select_col(c: ColV, idxs: Seq<int>) -> ColV {
    match c {
        ColV::Struct(names, children, _) => ColV::Struct(
            names,
            children.map_values(|ch: ColV| select_plain(ch, idxs)),
            idxs.len(),
        ),
        _ => select_plain(c, idxs),
    }
}

/// Row selection on a whole batch: the schema is kept, every column is
/// selected, and the row count becomes the number of indices.
pub open spec fn select_batch(b: BatchV, idxs: Seq<int>) -> BatchV {
    BatchV {
        names: b.names,
        cols: b.cols.map_values(|c: ColV| select_col(c, idxs)),
        nrows: idxs.len(),
    }
}

/// The indices of the rows a mask keeps, ascending: those rows where the
/// mask is true and not null.
pub open spec fn mask_true_idxs(mask: Seq<Option<bool>>) -> Seq<int>
    decreases mask.len(),
{
    if mask.len() == 0 {
        Seq::empty()
    } else {
        let pre = mask_true_idxs(mask.drop_last());
        if mask.last() == Some(true) {
            pre.push(mask.len() - 1)
        } else {
            pre
        }
    }
}

/// The indices `len-1, len-2, ..., 0`.
pub open spec fn rev_idxs(len: nat) -> Seq<int> {
    Seq::new(len, |i: int| len - 1 - i)
}

/// Row selection preserves well-formedness.
pub proof fn lemma_select_batch_wf(b: BatchV, idxs: Seq<int>)
    requires
        b.wf(),
        idxs_ok(idxs, b.nrows),
    ensures
        select_batch(b, idxs).wf(),
        select_batch(b, idxs).nrows == idxs.len(),
{
    let r = select_batch(b, idxs);
    assert forall|i: int| 0 <= i < r.cols.len() implies (#[trigger] r.cols[i]).wf()
        && r.cols[i].len() == r.nrows by {
        assert(r.cols[i] == select_col(b.cols[i], idxs));
        assert(b.cols[i].wf() && b.cols[i].len() == b.nrows);
        match b.cols[i] {
            ColV::Struct(names, children, rows) => {
                assert forall|j: int| 0 <= j < children.len() implies !(#[trigger] r.cols[i]->Struct_1[j]
                    is Struct) && r.cols[i]->Struct_1[j].len() == idxs.len() by {
                    assert(r.cols[i]->Struct_1[j] == select_plain(children[j], idxs));
                    assert(!(children[j] is Struct) && children[j].len() == rows);
                }
            },
            _ => {},
        }
    }
}

pub fn select_copy<T: Copy>(data: &Vec<Option<T>>, idxs: &Vec<usize>) -> (r: Vec<Option<T>>)
    requires
        forall|i: int| 0 <= i < idxs@.len() ==> #[trigger] idxs@[i] < data@.len(),
    ensures
        r@ == select_seq(data@, to_int_idxs(idxs@)),
{
    let mut out: Vec<Option<T>> = Vec::new();
    let mut i: usize = 0;
    while i < idxs.len()
        invariant
            0 <= i <= idxs@.len(),
            out@.len() == i,
            forall|j: int| 0 <= j < idxs@.len() ==> #[trigger] idxs@[j] < data@.len(),
            forall|j: int| 0 <= j < i ==> out@[j] == data@[idxs@[j] as int],
        decreases idxs@.len() - i,
    {
        out.push(data[idxs[i]]);
        i += 1;
    }
    proof {
        assert(out@ =~= select_seq(data@, to_int_idxs(idxs@)));
    }
    out
}

pub fn select_strings(data: &Vec<Option<String>>, idxs: &Vec<usize>) -> (r: StringColumn)
    requires
        forall|i: int| 0 <= i < idxs@.len() ==> #[trigger] idxs@[i] < data@.len(),
    ensures
        r@ == select_seq((StringColumn { data: *data })@, to_int_idxs(idxs@)),
{
    let ghost sv = StringColumn { data: *data }@;
    let mut out: Vec<Option<String>> = Vec::new();
    let mut i: usize = 0;
    while i < idxs.len()
        invariant
            0 <= i <= idxs@.len(),
            out@.len() == i,
            sv == (StringColumn { data: *data })@,
            forall|j: int| 0 <= j < idxs@.len() ==> #[trigger] idxs@[j] < data@.len(),
            forall|j: int| 0 <= j < i ==> opt_str_v(#[trigger] out@[j]) == sv[idxs@[j] as int],
        decreases idxs@.len() - i,
    {
        let v: Option<String> = match &data[idxs[i]] {
            Some(s) => Some(s.clone()),
            None => None,
        };
        out.push(v);
        i += 1;
    }
    let r = StringColumn { data: out };
    proof {
        assert(r@ =~= select_seq(sv, to_int_idxs(idxs@)));
    }
    r
}

pub fn clone_i64_vec(v: &Vec<i64>) -> (r: Vec<i64>)
    ensures
        r@ == v@,
{
    let mut out: Vec<i64> = Vec::new();
    let mut i: usize = 0;
    while i < v.len()
        invariant
            0 <= i <= v@.len(),
            out@ == v@.take(i as int),
        decreases v@.len() - i,
    {
        out.push(v[i]);
        proof {
            assert(v@.take(i + 1 as int) =~= v@.take(i as int).push(v@[i as int]));
        }
        i += 1;
    }
    proof {
        assert(v@.take(v@.len() as int) =~= v@);
    }
    out
}

pub fn select_lists(data: &Vec<Option<Vec<i64>>>, idxs: &Vec<usize>) -> (r: ListColumn)
    requires
        forall|i: int| 0 <= i < idxs@.len() ==> #[trigger] idxs@[i] < data@.len(),
    ensures
        r@ == select_seq((ListColumn { data: *data })@, to_int_idxs(idxs@)),
{
    let ghost sv = ListColumn { data: *data }@;
    let mut out: Vec<Option<Vec<i64>>> = Vec::new();
    let mut i: usize = 0;
    while i < idxs.len()
        invariant
            0 <= i <= idxs@.len(),
            out@.len() == i,
            sv == (ListColumn { data: *data })@,
            forall|j: int| 0 <= j < idxs@.len() ==> #[trigger] idxs@[j] < data@.len(),
            forall|j: int| 0 <= j < i ==> opt_list_v(#[trigger] out@[j]) == sv[idxs@[j] as int],
        decreases idxs@.len() - i,
    {
        let v: Option<Vec<i64>> = match &data[idxs[i]] {
            Some(l) => Some(clone_i64_vec(l)),
            None => None,
        };
        out.push(v);
        i += 1;
    }
    let r = ListColumn { data: out };
    proof {
        assert(r@ =~= select_seq(sv, to_int_idxs(idxs@)));
    }
    r
}

pub fn clone_string_vec(v: &Vec<String>) -> (r: Vec<String>)
    ensures
        r.deep_view() == v.deep_view(),
{
    let mut out: Vec<String> = Vec::new();
    let mut i: usize = 0;
    while i < v.len()
        invariant
            0 <= i <= v@.len(),
            out@.len() == i,
            forall|j: int| 0 <= j < i ==> #[trigger] out@[j]@ == v@[j]@,
        decreases v@.len() - i,
    {
        out.push(v[i].clone());
        i += 1;
    }
    proof {
        assert(out.deep_view() =~= v.deep_view());
    }
    out
}

/// Selects rows of a non-struct column.
fn select_leaf_column(c: &Column, idxs: &Vec<usize>) -> (r: Column)
    requires
        !(*c is Struct),
        forall|i: int| 0 <= i < idxs@.len() ==> #[trigger] idxs@[i] < c@.len(),
    ensures
        r@ == select_plain(c@, to_int_idxs(idxs@)),
        !(r is Struct),
{
    match c {
        Column::Int32(col) => Column::Int32(Int32Column { data: select_copy(&col.data, idxs) }),
        Column::Int64(col) => Column::Int64(Int64Column { data: select_copy(&col.data, idxs) }),
        Column::Float64(col) => Column::Float64(
            Float64Column { data: select_copy(&col.data, idxs) },
        ),
        Column::Bool(col) => Column::Bool(BoolColumn { data: select_copy(&col.data, idxs) }),
        Column::Utf8(col) => Column::Utf8(select_strings(&col.data, idxs)),
        Column::List(col) => Column::List(select_lists(&col.data, idxs)),
        Column::Struct(_) => Column::Bool(BoolColumn { data: Vec::new() }),
    }
}

/// Selects rows of any column, struct children included.
#[verifier::loop_isolation(false)]
fn select_column(c: &Column, idxs: &Vec<usize>) -> (r: Column)
    requires
        c@.wf(),
        forall|i: int| 0 <= i < idxs@.len() ==> #[trigger] idxs@[i] < c@.len(),
    ensures
        r@ == select_col(c@, to_int_idxs(idxs@)),
{
    match c {
        Column::Struct(sc) => {
            let mut children: Vec<Column> = Vec::new();
            let mut i: usize = 0;
            while i < sc.children.len()
                invariant
                    0 <= i <= sc.children@.len(),
                    children@.len() == i,
                    forall|j: int|
                        0 <= j < i ==> #[trigger] leaf_v(children@[j]) == select_plain(
                            leaf_v(sc.children@[j]),
                            to_int_idxs(idxs@),
                        ),
                decreases sc.children@.len() - i,
            {
                proof {
                    assert(c@->Struct_1[i as int] == leaf_v(sc.children@[i as int]));
                }
                let child = select_leaf_column(&sc.children[i], idxs);
                children.push(child);
                i += 1;
            }
            let r = Column::Struct(
                StructColumn { names: clone_string_vec(&sc.names), children, rows: idxs.len() },
            );
            proof {
                assert(r@->Struct_1 =~= select_col(c@, to_int_idxs(idxs@))->Struct_1);
                assert(r@ == select_col(c@, to_int_idxs(idxs@)));
            }
            r
        },
        _ => {
            let r = select_leaf_column(c, idxs);
            proof {
                assert(r@ == select_plain(c@, to_int_idxs(idxs@)));
            }
            r
        },
    }
}

/// Selects the rows of `b` named by `idxs`, in order: the shared core of
/// filter, reverse and sort.
pub fn take_rows(b: &Batch, idxs: &Vec<usize>) -> (r: Batch)
    requires
        b@.wf(),
        forall|i: int| 0 <= i < idxs@.len() ==> #[trigger] idxs@[i] < b@.nrows,
    ensures
        r@ == select_batch(b@, to_int_idxs(idxs@)),
        r@.wf(),
{
    let mut cols: Vec<Column> = Vec::new();
    let mut i: usize = 0;
    while i < b.cols.len()
        invariant
            0 <= i <= b.cols@.len(),
            cols@.len() == i,
            b@.wf(),
            forall|j: int| 0 <= j < idxs@.len() ==> #[trigger] idxs@[j] < b@.nrows,
            forall|j: int|
                0 <= j < i ==> #[trigger] cols@[j]@ == select_col(b@.cols[j], to_int_idxs(idxs@)),
        decreases b.cols@.len() - i,
    {
        proof {
            assert(b@.cols[i as int] == b.cols@[i as int]@);
            assert(b@.cols[i as int].wf() && b@.cols[i as int].len() == b@.nrows);
        }
        let col = select_column(&b.cols[i], idxs);
        cols.push(col);
        i += 1;
    }
    let r = Batch { names: clone_string_vec(&b.names), cols, nrows: idxs.len() };
    proof {
        assert(r@.cols =~= select_batch(b@, to_int_idxs(idxs@)).cols);
        assert(r@ == select_batch(b@, to_int_idxs(idxs@)));
        lemma_select_batch_wf(b@, to_int_idxs(idxs@));
    }
    r
}

/// The row indices a mask keeps, ascending.
pub fn mask_indices(mask: &BoolColumn) -> (r: Vec<usize>)
    ensures
        to_int_idxs(r@) == mask_true_idxs(mask@),
        forall|i: int| 0 <= i < r@.len() ==> #[trigger] r@[i] < mask@.len(),
{
    let mut out: Vec<usize> = Vec::new();
    let mut i: usize = 0;
    while i < mask.data.len()
        invariant
            0 <= i <= mask@.len(),
            forall|j: int| 0 <= j < out@.len() ==> #[trigger] out@[j] < mask@.len(),
            to_int_idxs(out@) == mask_true_idxs(mask@.take(i as int)),
        decreases mask@.len() - i,
    {
        let ghost pre = mask@.take(i as int);
        let keep = match mask.data[i] {
            Some(bv) => bv,
            None => false,
        };
        if keep {
            out.push(i);
        }
        proof {
            let post = mask@.take(i + 1);
            assert(post.drop_last() =~= pre);
            assert(post.last() == mask@[i as int]);
            assert(to_int_idxs(out@) =~= mask_true_idxs(post));
        }
        i += 1;
    }
    proof {
        assert(mask@.take(mask@.len() as int) =~= mask@);
    }
    out
}

/// The indices `len-1, ..., 0`.
pub fn reverse_indices(len: usize) -> (r: Vec<usize>)
    ensures
        to_int_idxs(r@) == rev_idxs(len as nat),
        forall|i: int| 0 <= i < r@.len() ==> #[trigger] r@[i] < len,
{
    let mut out: Vec<usize> = Vec::new();
    let mut i: usize = 0;
    while i < len
        invariant
            0 <= i <= len,
            out@.len() == i,
            forall|j: int| 0 <= j < i ==> #[trigger] out@[j] == len - 1 - j,
        decreases len - i,
    {
        out.push(len - 1 - i);
        i += 1;
    }
    proof {
        assert(to_int_idxs(out@) =~= rev_idxs(len as nat));
    }
    out
}

/// Truth of `a op b` for integers.
pub open spec fn cmp_int(op: CompareOp, a: int, b: int) -> bool {
    match op {
        CompareOp::Eq => a == b,
        CompareOp::Ne => a != b,
        CompareOp::Gt => a > b,
        CompareOp::Lt => a < b,
        CompareOp::Gte => a >= b,
        CompareOp::Lte => a <= b,
    }
}

/// Truth of `a op b` for floats given as bit patterns (IEEE-754 semantics;
/// any comparison with a NaN is false, except that `!=` is the negation of
/// `==`).
pub open spec fn cmp_f64(op: CompareOp, a: u64, b: u64) -> bool {
    match op {
        CompareOp::Eq => f64_eq(a, b),
        CompareOp::Ne => !f64_eq(a, b),
        CompareOp::Gt => f64_lt(b, a),
        CompareOp::Lt => f64_lt(a, b),
        CompareOp::Gte => f64_lt(b, a) || f64_eq(a, b),
        CompareOp::Lte => f64_lt(a, b) || f64_eq(a, b),
    }
}

/// Strict lexicographic order on strings by code point; agrees with the
/// byte-lexicographic order of their UTF-8 encodings.
pub open spec fn lex_lt(a: Seq<char>, b: Seq<char>) -> bool
    decreases a.len(),
{
    if b.len() == 0 {
        false
    } else if a.len() == 0 {
        true
    } else if a[0] != b[0] {
        (a[0] as int) < (b[0] as int)
    } else {
        lex_lt(a.drop_first(), b.drop_first())
    }
}

/// Truth of `a op b` for strings.
pub open spec fn cmp_str(op: CompareOp, a: Seq<char>, b: Seq<char>) -> bool {
    match op {
        CompareOp::Eq => a == b,
        CompareOp::Ne => a != b,
        CompareOp::Gt => lex_lt(b, a),
        CompareOp::Lt => lex_lt(a, b),
        CompareOp::Gte => !lex_lt(a, b),
        CompareOp::Lte => !lex_lt(b, a),
    }
}

/// The mask of an `i32` column compared against a constant; a null row
/// yields a null.
pub open spec fn cmp_mask_i32(s: Seq<Option<i32>>, op: CompareOp, c: int) -> Seq<Option<bool>> {
    Seq::new(
        s.len(),
        |i: int|
            match s[i] {
                Some(v) => Some(cmp_int(op, v as int, c)),
                None => None,
            },
    )
}

/// The mask of an `i64` column compared against a constant.
pub open spec fn cmp_mask_i64(s: Seq<Option<i64>>, op: CompareOp, c: int) -> Seq<Option<bool>> {
    Seq::new(
        s.len(),
        |i: int|
            match s[i] {
                Some(v) => Some(cmp_int(op, v as int, c)),
                None => None,
            },
    )
}

/// The mask of a float column compared against a constant bit pattern.
pub open spec fn cmp_mask_f64(s: Seq<Option<u64>>, op: CompareOp, c: u64) -> Seq<Option<bool>> {
    Seq::new(
        s.len(),
        |i: int|
            match s[i] {
                Some(v) => Some(cmp_f64(op, v, c)),
                None => None,
            },
    )
}

/// The mask of a string column compared against a constant.
pub open spec fn cmp_mask_str(s: Seq<Option<Seq<char>>>, op: CompareOp, c: Seq<char>) -> Seq<
    Option<bool>,
> {
    Seq::new(
        s.len(),
        |i: int|
            match s[i] {
                Some(v) => Some(cmp_str(op, v, c)),
                None => None,
            },
    )
}

/// The mask of a boolean column compared (`==` or `!=` only) against a
/// constant.
pub open spec fn cmp_mask_bool(s: Seq<Option<bool>>, op: CompareOp, c: bool) -> Seq<Option<bool>> {
    Seq::new(
        s.len(),
        |i: int|
            match s[i] {
                Some(v) => Some(if op is Eq {
                    v == c
                } else {
                    v != c
                }),
                None => None,
            },
    )
}

pub fn cmp_i32_col(col: &Int32Column, op: CompareOp, c: i32) -> (r: BoolColumn)
    ensures
        r@ == cmp_mask_i32(col@, op, c as int),
{
    let mut out: Vec<Option<bool>> = Vec::new();
    let mut i: usize = 0;
    while i < col.data.len()
        invariant
            0 <= i <= col@.len(),
            out@.len() == i,
            forall|j: int| 0 <= j < i ==> out@[j] == cmp_mask_i32(col@, op, c as int)[j],
        decreases col@.len() - i,
    {
        let v = match col.data[i] {
            Some(v) => {
                let t = match op {
                    CompareOp::Eq => v == c,
                    CompareOp::Ne => v != c,
                    CompareOp::Gt => v > c,
                    CompareOp::Lt => v < c,
                    CompareOp::Gte => v >= c,
                    CompareOp::Lte => v <= c,
                };
                Some(t)
            },
            None => None,
        };
        out.push(v);
        i += 1;
    }
    let r = BoolColumn { data: out };
    proof {
        assert(r@ =~= cmp_mask_i32(col@, op, c as int));
    }
    r
}

pub fn cmp_i64_col(col: &Int64Column, op: CompareOp, c: i64) -> (r: BoolColumn)
    ensures
        r@ == cmp_mask_i64(col@, op, c as int),
{
    let mut out: Vec<Option<bool>> = Vec::new();
    let mut i: usize = 0;
    while i < col.data.len()
        invariant
            0 <= i <= col@.len(),
            out@.len() == i,
            forall|j: int| 0 <= j < i ==> out@[j] == cmp_mask_i64(col@, op, c as int)[j],
        decreases col@.len() - i,
    {
        let v = match col.data[i] {
            Some(v) => {
                let t = match op {
                    CompareOp::Eq => v == c,
                    CompareOp::Ne => v != c,
                    CompareOp::Gt => v > c,
                    CompareOp::Lt => v < c,
                    CompareOp::Gte => v >= c,
                    CompareOp::Lte => v <= c,
                };
                Some(t)
            },
            None => None,
        };
        out.push(v);
        i += 1;
    }
    let r = BoolColumn { data: out };
    proof {
        assert(r@ =~= cmp_mask_i64(col@, op, c as int));
    }
    r
}

/// One float comparison on bit patterns.
pub fn cmp_f64_bits(op: CompareOp, a: u64, b: u64) -> (r: bool)
    ensures
        r == cmp_f64(op, a, b),
{
    match op {
        CompareOp::Eq => f64_bits_eq(a, b),
        CompareOp::Ne => !f64_bits_eq(a, b),
        CompareOp::Gt => f64_bits_lt(b, a),
        CompareOp::Lt => f64_bits_lt(a, b),
        CompareOp::Gte => f64_bits_lt(b, a) || f64_bits_eq(a, b),
        CompareOp::Lte => f64_bits_lt(a, b) || f64_bits_eq(a, b),
    }
}

pub fn cmp_f64_col(col: &Float64Column, op: CompareOp, c: u64) -> (r: BoolColumn)
    ensures
        r@ == cmp_mask_f64(col@, op, c),
{
    let mut out: Vec<Option<bool>> = Vec::new();
    let mut i: usize = 0;
    while i < col.data.len()
        invariant
            0 <= i <= col@.len(),
            out@.len() == i,
            forall|j: int| 0 <= j < i ==> out@[j] == cmp_mask_f64(col@, op, c)[j],
        decreases col@.len() - i,
    {
        let v = match col.data[i] {
            Some(v) => Some(cmp_f64_bits(op, v, c)),
            None => None,
        };
        out.push(v);
        i += 1;
    }
    let r = BoolColumn { data: out };
    proof {
        assert(r@ =~= cmp_mask_f64(col@, op, c));
    }
    r
}

/// Strict lexicographic `<` on two strings, executable.
pub fn str_lt(a: &str, b: &str) -> (r: bool)
    ensures
        r == lex_lt(a@, b@),
{
    let alen = a.unicode_len();
    let blen = b.unicode_len();
    let mut i: usize = 0;
    proof {
        assert(a@.skip(0) =~= a@);
        assert(b@.skip(0) =~= b@);
    }
    loop
        invariant
            0 <= i <= alen,
            i <= blen,
            alen == a@.len(),
            blen == b@.len(),
            lex_lt(a@, b@) == lex_lt(a@.skip(i as int), b@.skip(i as int)),
        decreases alen - i,
    {
        proof {
            reveal_with_fuel(lex_lt, 2);
        }
        if i >= blen {
            return false;
        }
        if i >= alen {
            return true;
        }
        let ca = a.get_char(i);
        let cb = b.get_char(i);
        if ca != cb {
            return (ca as u32) < (cb as u32);
        }
        proof {
            assert(a@.skip(i as int).drop_first() =~= a@.skip(i + 1));
            assert(b@.skip(i as int).drop_first() =~= b@.skip(i + 1));
        }
        i += 1;
    }
}

/// One string comparison.
pub fn cmp_str_vals(op: CompareOp, a: &String, b: &String) -> (r: bool)
    ensures
        r == cmp_str(op, a@, b@),
{
    match op {
        CompareOp::Eq => *a == *b,
        CompareOp::Ne => !(*a == *b),
        CompareOp::Gt => str_lt(b.as_str(), a.as_str()),
        CompareOp::Lt => str_lt(a.as_str(), b.as_str()),
        CompareOp::Gte => !str_lt(a.as_str(), b.as_str()),
        CompareOp::Lte => !str_lt(b.as_str(), a.as_str()),
    }
}

pub fn cmp_str_col(col: &StringColumn, op: CompareOp, c: &String) -> (r: BoolColumn)
    ensures
        r@ == cmp_mask_str(col@, op, c@),
{
    let mut out: Vec<Option<bool>> = Vec::new();
    let mut i: usize = 0;
    while i < col.data.len()
        invariant
            0 <= i <= col@.len(),
            out@.len() == i,
            forall|j: int| 0 <= j < i ==> out@[j] == cmp_mask_str(col@, op, c@)[j],
        decreases col@.len() - i,
    {
        let v = match &col.data[i] {
            Some(s) => Some(cmp_str_vals(op, s, c)),
            None => None,
        };
        out.push(v);
        i += 1;
    }
    let r = BoolColumn { data: out };
    proof {
        assert(r@ =~= cmp_mask_str(col@, op, c@));
    }
    r
}

pub fn cmp_bool_col(col: &BoolColumn, op: CompareOp, c: bool) -> (r: BoolColumn)
    requires
        op is Eq || op is Ne,
    ensures
        r@ == cmp_mask_bool(col@, op, c),
{
    let mut out: Vec<Option<bool>> = Vec::new();
    let mut i: usize = 0;
    while i < col.data.len()
        invariant
            0 <= i <= col@.len(),
            out@.len() == i,
            op is Eq || op is Ne,
            forall|j: int| 0 <= j < i ==> out@[j] == cmp_mask_bool(col@, op, c)[j],
        decreases col@.len() - i,
    {
        let v = match col.data[i] {
            Some(v) => Some(
                if matches!(op, CompareOp::Eq) {
                    v == c
                } else {
                    v != c
                },
            ),
            None => None,
        };
        out.push(v);
        i += 1;
    }
    let r = BoolColumn { data: out };
    proof {
        assert(r@ =~= cmp_mask_bool(col@, op, c));
    }
    r
}

/// Elementwise conjunction; null if either side is null.
pub open spec fn and_mask(a: Seq<Option<bool>>, b: Seq<Option<bool>>) -> Seq<Option<bool>> {
    Seq::new(
        a.len(),
        |i: int|
            if a[i] is Some && b[i] is Some {
                Some(a[i]->0 && b[i]->0)
            } else {
                None
            },
    )
}

/// Elementwise disjunction; null if either side is null.
pub open spec fn or_mask(a: Seq<Option<bool>>, b: Seq<Option<bool>>) -> Seq<Option<bool>> {
    Seq::new(
        a.len(),
        |i: int|
            if a[i] is Some && b[i] is Some {
                Some(a[i]->0 || b[i]->0)
            } else {
                None
            },
    )
}

/// Elementwise negation; null stays null.
pub open spec fn not_mask(a: Seq<Option<bool>>) -> Seq<Option<bool>> {
    Seq::new(
        a.len(),
        |i: int|
            match a[i] {
                Some(v) => Some(!v),
                None => None,
            },
    )
}

pub fn and_cols(a: &BoolColumn, b: &BoolColumn) -> (r: BoolColumn)
    requires
        a@.len() == b@.len(),
    ensures
        r@ == and_mask(a@, b@),
{
    let mut out: Vec<Option<bool>> = Vec::new();
    let mut i: usize = 0;
    while i < a.data.len()
        invariant
            0 <= i <= a@.len(),
            a@.len() == b@.len(),
            out@.len() == i,
            forall|j: int| 0 <= j < i ==> out@[j] == and_mask(a@, b@)[j],
        decreases a@.len() - i,
    {
        let v = match (a.data[i], b.data[i]) {
            (Some(x), Some(y)) => Some(x && y),
            _ => None,
        };
        out.push(v);
        i += 1;
    }
    let r = BoolColumn { data: out };
    proof {
        assert(r@ =~= and_mask(a@, b@));
    }
    r
}

pub fn or_cols(a: &BoolColumn, b: &BoolColumn) -> (r: BoolColumn)
    requires
        a@.len() == b@.len(),
    ensures
        r@ == or_mask(a@, b@),
{
    let mut out: Vec<Option<bool>> = Vec::new();
    let mut i: usize = 0;
    while i < a.data.len()
        invariant
            0 <= i <= a@.len(),
            a@.len() == b@.len(),
            out@.len() == i,
            forall|j: int| 0 <= j < i ==> out@[j] == or_mask(a@, b@)[j],
        decreases a@.len() - i,
    {
        let v = match (a.data[i], b.data[i]) {
            (Some(x), Some(y)) => Some(x || y),
            _ => None,
        };
        out.push(v);
        i += 1;
    }
    let r = BoolColumn { data: out };
    proof {
        assert(r@ =~= or_mask(a@, b@));
    }
    r
}

pub fn not_col(a: &BoolColumn) -> (r: BoolColumn)
    ensures
        r@ == not_mask(a@),
{
    let mut out: Vec<Option<bool>> = Vec::new();
    let mut i: usize = 0;
    while i < a.data.len()
        invariant
            0 <= i <= a@.len(),
            out@.len() == i,
            forall|j: int| 0 <= j < i ==> out@[j] == not_mask(a@)[j],
        decreases a@.len() - i,
    {
        let v = match a.data[i] {
            Some(x) => Some(!x),
            None => None,
        };
        out.push(v);
        i += 1;
    }
    let r = BoolColumn { data: out };
    proof {
        assert(r@ =~= not_mask(a@));
    }
    r
}

/// Filters a record batch by a boolean mask of its own row count, keeping the
/// rows where the mask is true and not null.
pub fn filter_record_batch_fn(b: &Batch, mask: &BoolColumn) -> (r: Batch)
    requires
        b@.wf(),
        mask@.len() == b@.nrows,
    ensures
        r@ == select_batch(b@, mask_true_idxs(mask@)),
        r@.wf(),
{
    let idxs = mask_indices(mask);
    take_rows(b, &idxs)
}

} // verus!
