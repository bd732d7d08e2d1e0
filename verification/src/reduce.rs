//! Column reductions and elementwise numeric functions: wrapping sums,
//! minimum and maximum (skipping nulls; floats by the IEEE-754 total order),
//! absolute value, and one-level list flattening.
use vstd::prelude::*;

use crate::batch::{BoolColumn, Float64Column, Int32Column, Int64Column, ListColumn};
use crate::float_bits::{F64_MAG_MASK, f64_bits_abs, f64_bits_total_lt, f64_total_rank};

verus! {

/// Wrapping sum of the non-null values of an `i32` column.
pub open spec fn sum_i32(s: Seq<Option<i32>>) -> i32
    decreases s.len(),
{
    if s.len() == 0 {
        0i32
    } else {
        sum_i32(s.drop_last()).wrapping_add(
            match s.last() {
                Some(v) => v,
                None => 0i32,
            },
        )
    }
}

/// Wrapping sum of the non-null values of an `i64` column.
pub open spec fn sum_i64(s: Seq<Option<i64>>) -> i64
    decreases s.len(),
{
    if s.len() == 0 {
        0i64
    } else {
        sum_i64(s.drop_last()).wrapping_add(
            match s.last() {
                Some(v) => v,
                None => 0i64,
            },
        )
    }
}

/// Minimum non-null value of an `i32` column; `None` when there is none.
pub open spec fn min_i32(s: Seq<Option<i32>>) -> Option<i32>
    decreases s.len(),
{
    if s.len() == 0 {
        None
    } else {
        let rest = min_i32(s.drop_last());
        match (rest, s.last()) {
            (None, x) => x,
            (Some(m), None) => Some(m),
            (Some(m), Some(v)) => Some(
                if v < m {
                    v
                } else {
                    m
                },
            ),
        }
    }
}

/// Maximum non-null value of an `i32` column.
pub open spec fn max_i32(s: Seq<Option<i32>>) -> Option<i32>
    decreases s.len(),
{
    if s.len() == 0 {
        None
    } else {
        let rest = max_i32(s.drop_last());
        match (rest, s.last()) {
            (None, x) => x,
            (Some(m), None) => Some(m),
            (Some(m), Some(v)) => Some(
                if v > m {
                    v
                } else {
                    m
                },
            ),
        }
    }
}

/// Minimum non-null value of an `i64` column.
pub open spec fn min_i64(s: Seq<Option<i64>>) -> Option<i64>
    decreases s.len(),
{
    if s.len() == 0 {
        None
    } else {
        let rest = min_i64(s.drop_last());
        match (rest, s.last()) {
            (None, x) => x,
            (Some(m), None) => Some(m),
            (Some(m), Some(v)) => Some(
                if v < m {
                    v
                } else {
                    m
                },
            ),
        }
    }
}

/// Maximum non-null value of an `i64` column.
pub open spec fn max_i64(s: Seq<Option<i64>>) -> Option<i64>
    decreases s.len(),
{
    if s.len() == 0 {
        None
    } else {
        let rest = max_i64(s.drop_last());
        match (rest, s.last()) {
            (None, x) => x,
            (Some(m), None) => Some(m),
            (Some(m), Some(v)) => Some(
                if v > m {
                    v
                } else {
                    m
                },
            ),
        }
    }
}

/// Minimum non-null value of a float column, in the IEEE-754 total order.
pub open spec fn min_f64(s: Seq<Option<u64>>) -> Option<u64>
    decreases s.len(),
{
    if s.len() == 0 {
        None
    } else {
        let rest = min_f64(s.drop_last());
        match (rest, s.last()) {
            (None, x) => x,
            (Some(m), None) => Some(m),
            (Some(m), Some(v)) => Some(
                if f64_total_rank(v) < f64_total_rank(m) {
                    v
                } else {
                    m
                },
            ),
        }
    }
}

/// Maximum non-null value of a float column, in the IEEE-754 total order.
pub open spec fn max_f64(s: Seq<Option<u64>>) -> Option<u64>
    decreases s.len(),
{
    if s.len() == 0 {
        None
    } else {
        let rest = max_f64(s.drop_last());
        match (rest, s.last()) {
            (None, x) => x,
            (Some(m), None) => Some(m),
            (Some(m), Some(v)) => Some(
                if f64_total_rank(v) > f64_total_rank(m) {
                    v
                } else {
                    m
                },
            ),
        }
    }
}

/// Concatenation of all non-null lists of a list column (null rows are
/// skipped, as the flatten kernel drops them).
pub open spec fn flatten_lists(s: Seq<Option<Seq<i64>>>) -> Seq<i64>
    decreases s.len(),
{
    if s.len() == 0 {
        Seq::empty()
    } else {
        flatten_lists(s.drop_last()) + (match s.last() {
            Some(v) => v,
            None => Seq::empty(),
        })
    }
}

/// Elementwise absolute value of an `i32` column; nulls stay null and
/// `i32::MIN` stays itself (its magnitude is unrepresentable).
pub open spec fn abs_i32(s: Seq<Option<i32>>) -> Seq<Option<i32>> {
    Seq::new(
        s.len(),
        |i: int|
            match s[i] {
                Some(v) => Some(
                    if v == i32::MIN {
                        i32::MIN
                    } else if v < 0 {
                        (-v) as i32
                    } else {
                        v
                    },
                ),
                None => None,
            },
    )
}

/// Elementwise absolute value of an `i64` column; nulls stay null.
pub open spec fn abs_i64(s: Seq<Option<i64>>) -> Seq<Option<i64>> {
    Seq::new(
        s.len(),
        |i: int|
            match s[i] {
                Some(v) => Some(
                    if v == i64::MIN {
                        i64::MIN
                    } else if v < 0 {
                        (-v) as i64
                    } else {
                        v
                    },
                ),
                None => None,
            },
    )
}

/// Elementwise absolute value of a float column (a sign-bit clear); nulls
/// stay null.
pub open spec fn abs_f64(s: Seq<Option<u64>>) -> Seq<Option<u64>> {
    Seq::new(
        s.len(),
        |i: int|
            match s[i] {
                Some(v) => Some(v & F64_MAG_MASK),
                None => None,
            },
    )
}

pub fn sum_i32_col(col: &Int32Column) -> (r: i32)
    ensures
        r == sum_i32(col@),
{
    let mut acc: i32 = 0;
    let mut i: usize = 0;
    while i < col.data.len()
        invariant
            0 <= i <= col@.len(),
            acc == sum_i32(col@.take(i as int)),
        decreases col@.len() - i,
    {
        let v = match col.data[i] {
            Some(v) => v,
            None => 0,
        };
        acc = acc.wrapping_add(v);
        proof {
            assert(col@.take(i + 1).drop_last() =~= col@.take(i as int));
        }
        i += 1;
    }
    proof {
        assert(col@.take(col@.len() as int) =~= col@);
    }
    acc
}

pub fn sum_i64_col(col: &Int64Column) -> (r: i64)
    ensures
        r == sum_i64(col@),
{
    let mut acc: i64 = 0;
    let mut i: usize = 0;
    while i < col.data.len()
        invariant
            0 <= i <= col@.len(),
            acc == sum_i64(col@.take(i as int)),
        decreases col@.len() - i,
    {
        let v = match col.data[i] {
            Some(v) => v,
            None => 0,
        };
        acc = acc.wrapping_add(v);
        proof {
            assert(col@.take(i + 1).drop_last() =~= col@.take(i as int));
        }
        i += 1;
    }
    proof {
        assert(col@.take(col@.len() as int) =~= col@);
    }
    acc
}

pub fn min_i32_col(col: &Int32Column) -> (r: Option<i32>)
    ensures
        r == min_i32(col@),
{
    let mut acc: Option<i32> = None;
    let mut i: usize = 0;
    while i < col.data.len()
        invariant
            0 <= i <= col@.len(),
            acc == min_i32(col@.take(i as int)),
        decreases col@.len() - i,
    {
        acc = match (acc, col.data[i]) {
            (None, x) => x,
            (Some(m), None) => Some(m),
            (Some(m), Some(v)) => Some(
                if v < m {
                    v
                } else {
                    m
                },
            ),
        };
        proof {
            assert(col@.take(i + 1).drop_last() =~= col@.take(i as int));
        }
        i += 1;
    }
    proof {
        assert(col@.take(col@.len() as int) =~= col@);
    }
    acc
}

pub fn max_i32_col(col: &Int32Column) -> (r: Option<i32>)
    ensures
        r == max_i32(col@),
{
    let mut acc: Option<i32> = None;
    let mut i: usize = 0;
    while i < col.data.len()
        invariant
            0 <= i <= col@.len(),
            acc == max_i32(col@.take(i as int)),
        decreases col@.len() - i,
    {
        acc = match (acc, col.data[i]) {
            (None, x) => x,
            (Some(m), None) => Some(m),
            (Some(m), Some(v)) => Some(
                if v > m {
                    v
                } else {
                    m
                },
            ),
        };
        proof {
            assert(col@.take(i + 1).drop_last() =~= col@.take(i as int));
        }
        i += 1;
    }
    proof {
        assert(col@.take(col@.len() as int) =~= col@);
    }
    acc
}

pub fn min_i64_col(col: &Int64Column) -> (r: Option<i64>)
    ensures
        r == min_i64(col@),
{
    let mut acc: Option<i64> = None;
    let mut i: usize = 0;
    while i < col.data.len()
        invariant
            0 <= i <= col@.len(),
            acc == min_i64(col@.take(i as int)),
        decreases col@.len() - i,
    {
        acc = match (acc, col.data[i]) {
            (None, x) => x,
            (Some(m), None) => Some(m),
            (Some(m), Some(v)) => Some(
                if v < m {
                    v
                } else {
                    m
                },
            ),
        };
        proof {
            assert(col@.take(i + 1).drop_last() =~= col@.take(i as int));
        }
        i += 1;
    }
    proof {
        assert(col@.take(col@.len() as int) =~= col@);
    }
    acc
}

pub fn max_i64_col(col: &Int64Column) -> (r: Option<i64>)
    ensures
        r == max_i64(col@),
{
    let mut acc: Option<i64> = None;
    let mut i: usize = 0;
    while i < col.data.len()
        invariant
            0 <= i <= col@.len(),
            acc == max_i64(col@.take(i as int)),
        decreases col@.len() - i,
    {
        acc = match (acc, col.data[i]) {
            (None, x) => x,
            (Some(m), None) => Some(m),
            (Some(m), Some(v)) => Some(
                if v > m {
                    v
                } else {
                    m
                },
            ),
        };
        proof {
            assert(col@.take(i + 1).drop_last() =~= col@.take(i as int));
        }
        i += 1;
    }
    proof {
        assert(col@.take(col@.len() as int) =~= col@);
    }
    acc
}

pub fn min_f64_col(col: &Float64Column) -> (r: Option<u64>)
    ensures
        r == min_f64(col@),
{
    let mut acc: Option<u64> = None;
    let mut i: usize = 0;
    while i < col.data.len()
        invariant
            0 <= i <= col@.len(),
            acc == min_f64(col@.take(i as int)),
        decreases col@.len() - i,
    {
        acc = match (acc, col.data[i]) {
            (None, x) => x,
            (Some(m), None) => Some(m),
            (Some(m), Some(v)) => Some(
                if f64_bits_total_lt(v, m) {
                    v
                } else {
                    m
                },
            ),
        };
        proof {
            assert(col@.take(i + 1).drop_last() =~= col@.take(i as int));
        }
        i += 1;
    }
    proof {
        assert(col@.take(col@.len() as int) =~= col@);
    }
    acc
}

pub fn max_f64_col(col: &Float64Column) -> (r: Option<u64>)
    ensures
        r == max_f64(col@),
{
    let mut acc: Option<u64> = None;
    let mut i: usize = 0;
    while i < col.data.len()
        invariant
            0 <= i <= col@.len(),
            acc == max_f64(col@.take(i as int)),
        decreases col@.len() - i,
    {
        acc = match (acc, col.data[i]) {
            (None, x) => x,
            (Some(m), None) => Some(m),
            (Some(m), Some(v)) => Some(
                if f64_bits_total_lt(m, v) {
                    v
                } else {
                    m
                },
            ),
        };
        proof {
            assert(col@.take(i + 1).drop_last() =~= col@.take(i as int));
        }
        i += 1;
    }
    proof {
        assert(col@.take(col@.len() as int) =~= col@);
    }
    acc
}

/// Flattens a list column into one array of all non-null elements.
pub fn flatten_col(col: &ListColumn) -> (r: Int64Column)
    ensures
        r@.len() == flatten_lists(col@).len(),
        forall|i: int| 0 <= i < r@.len() ==> #[trigger] r@[i] == Some(flatten_lists(col@)[i]),
{
    let mut out: Vec<Option<i64>> = Vec::new();
    let mut i: usize = 0;
    while i < col.data.len()
        invariant
            0 <= i <= col@.len(),
            out@.len() == flatten_lists(col@.take(i as int)).len(),
            forall|j: int|
                0 <= j < out@.len() ==> #[trigger] out@[j] == Some(
                    flatten_lists(col@.take(i as int))[j],
                ),
        decreases col@.len() - i,
    {
        let ghost pre = flatten_lists(col@.take(i as int));
        match &col.data[i] {
            Some(l) => {
                let mut j: usize = 0;
                while j < l.len()
                    invariant
                        0 <= j <= l@.len(),
                        out@.len() == pre.len() + j,
                        forall|k: int|
                            0 <= k < pre.len() ==> #[trigger] out@[k] == Some((pre + l@)[k]),
                        forall|k: int|
                            pre.len() <= k < out@.len() ==> #[trigger] out@[k] == Some(
                                (pre + l@)[k],
                            ),
                    decreases l@.len() - j,
                {
                    out.push(Some(l[j]));
                    j += 1;
                }
            },
            None => {},
        }
        proof {
            assert(col@.take(i + 1).drop_last() =~= col@.take(i as int));
            assert(col@.take(i + 1).last() == col@[i as int]);
        }
        i += 1;
    }
    proof {
        assert(col@.take(col@.len() as int) =~= col@);
    }
    Int64Column { data: out }
}

/// Elementwise absolute value kernels.
pub fn abs_i32_col(col: &Int32Column) -> (r: Int32Column)
    ensures
        r@ == abs_i32(col@),
{
    let mut out: Vec<Option<i32>> = Vec::new();
    let mut i: usize = 0;
    while i < col.data.len()
        invariant
            0 <= i <= col@.len(),
            out@.len() == i,
            forall|j: int| 0 <= j < i ==> out@[j] == abs_i32(col@)[j],
        decreases col@.len() - i,
    {
        let v: Option<i32> = match col.data[i] {
            Some(v) => Some(
                if v == i32::MIN {
                    i32::MIN
                } else if v < 0 {
                    -v
                } else {
                    v
                },
            ),
            None => None,
        };
        out.push(v);
        i += 1;
    }
    let r = Int32Column { data: out };
    proof {
        assert(r@ =~= abs_i32(col@));
    }
    r
}

pub fn abs_i64_col(col: &Int64Column) -> (r: Int64Column)
    ensures
        r@ == abs_i64(col@),
{
    let mut out: Vec<Option<i64>> = Vec::new();
    let mut i: usize = 0;
    while i < col.data.len()
        invariant
            0 <= i <= col@.len(),
            out@.len() == i,
            forall|j: int| 0 <= j < i ==> out@[j] == abs_i64(col@)[j],
        decreases col@.len() - i,
    {
        let v: Option<i64> = match col.data[i] {
            Some(v) => Some(
                if v == i64::MIN {
                    i64::MIN
                } else if v < 0 {
                    -v
                } else {
                    v
                },
            ),
            None => None,
        };
        out.push(v);
        i += 1;
    }
    let r = Int64Column { data: out };
    proof {
        assert(r@ =~= abs_i64(col@));
    }
    r
}

pub fn abs_f64_col(col: &Float64Column) -> (r: Float64Column)
    ensures
        r@ == abs_f64(col@),
{
    let mut out: Vec<Option<u64>> = Vec::new();
    let mut i: usize = 0;
    while i < col.data.len()
        invariant
            0 <= i <= col@.len(),
            out@.len() == i,
            forall|j: int| 0 <= j < i ==> out@[j] == abs_f64(col@)[j],
        decreases col@.len() - i,
    {
        let v: Option<u64> = match col.data[i] {
            Some(v) => Some(f64_bits_abs(v)),
            None => None,
        };
        out.push(v);
        i += 1;
    }
    let r = Float64Column { data: out };
    proof {
        assert(r@ =~= abs_f64(col@));
    }
    r
}

/// The validity cells of a column's backing vector: used by `not_null`.
pub fn validity_vec<T>(data: &Vec<Option<T>>) -> (r: BoolColumn)
    ensures
        r@ == Seq::new(data@.len(), |i: int| Some(data@[i] is Some)),
{
    let mut out: Vec<Option<bool>> = Vec::new();
    let mut i: usize = 0;
    while i < data.len()
        invariant
            0 <= i <= data@.len(),
            out@.len() == i,
            forall|j: int| 0 <= j < i ==> out@[j] == Some(data@[j] is Some),
        decreases data@.len() - i,
    {
        out.push(Some(data[i].is_some()));
        i += 1;
    }
    let r = BoolColumn { data: out };
    proof {
        assert(r@ =~= Seq::new(data@.len(), |i: int| Some(data@[i] is Some)));
    }
    r
}

} // verus!
