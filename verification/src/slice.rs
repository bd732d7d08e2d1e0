//! Index normalization and NumPy-style slicing: bounds default and clamp
//! once, then the walk `i := start; while i <> stop; i += step` picks rows.
use vstd::prelude::*;

use crate::errors::{ErrV, EvalError};

verus! {

/// The normalized position of `idx` in a column of length `len`: negative
/// indices count from the end; `None` when the result is outside `[0, len)`.
pub open spec fn normalize_index_spec(idx: int, len: int) -> Option<int> {
    if idx < 0 {
        if len + idx < 0 {
            None
        } else {
            Some(len + idx)
        }
    } else {
        if idx >= len {
            None
        } else {
            Some(idx)
        }
    }
}

/// Normalizes a possibly negative index against a length, or reports that it
/// is out of bounds.
pub fn normalize_index(idx: i32, len: usize) -> (r: Result<usize, EvalError>)
    ensures
        match r {
            Ok(p) => normalize_index_spec(idx as int, len as int) == Some(p as int),
            Err(e) => normalize_index_spec(idx as int, len as int) is None && e@
                == ErrV::IndexOutOfBounds,
        },
{
    if idx < 0 {
        let pos: i128 = (len as i128) + (idx as i128);
        if pos < 0 {
            Err(EvalError::IndexOutOfBounds)
        } else {
            Ok(pos as usize)
        }
    } else {
        if (idx as u64 as usize) >= len {
            Err(EvalError::IndexOutOfBounds)
        } else {
            Ok(idx as usize)
        }
    }
}

/// The positions visited by `i := start; while i <> stop; i += step`, where
/// `<>` is `<` for a positive and `>` for a negative step.
pub open spec fn slice_walk(start: int, stop: int, step: int) -> Seq<int>
    decreases
            (if step > 0 {
                stop + step - start
            } else {
                start - stop - step
            }),
        when step != 0
{
    if step > 0 {
        if start < stop {
            seq![start] + slice_walk(start + step, stop, step)
        } else {
            Seq::empty()
        }
    } else {
        if start > stop {
            seq![start] + slice_walk(start + step, stop, step)
        } else {
            Seq::empty()
        }
    }
}

/// The clamped iteration bounds: `(start, stop)` after defaults and one
/// clamp, exactly as the slice contract states them.
pub open spec fn slice_bounds(len: int, start: Option<i32>, stop: Option<i32>, step: int) -> (
    int,
    int,
) {
    if step > 0 {
        let s = match start {
            Some(v) => v as int,
            None => 0,
        };
        let e = match stop {
            Some(v) => v as int,
            None => len,
        };
        let sc = if s < 0 {
            if len + s > 0 {
                len + s
            } else {
                0
            }
        } else {
            if s < len {
                s
            } else {
                len
            }
        };
        let ec = if e < 0 {
            if len + e > 0 {
                len + e
            } else {
                0
            }
        } else {
            if e < len {
                e
            } else {
                len
            }
        };
        (sc, ec)
    } else {
        let s = match start {
            Some(v) => v as int,
            None => len - 1,
        };
        let e = match stop {
            Some(v) => v as int,
            None => -len - 1,
        };
        let sc = if s < 0 {
            if len + s > -1 {
                len + s
            } else {
                -1
            }
        } else {
            if s < len - 1 {
                s
            } else {
                len - 1
            }
        };
        let ec = if e < 0 {
            if len + e > -1 {
                len + e
            } else {
                -1
            }
        } else {
            if e < len - 1 {
                e
            } else {
                len - 1
            }
        };
        (sc, ec)
    }
}

/// The row positions a slice of a length-`len` column selects.
pub open spec fn slice_indices(len: int, start: Option<i32>, stop: Option<i32>, step: int) -> Seq<
    int,
> {
    let (sc, ec) = slice_bounds(len, start, stop, step);
    slice_walk(sc, ec, step)
}

/// Every walked position lies between the bounds.
pub proof fn lemma_walk_range(start: int, stop: int, step: int)
    requires
        step != 0,
    ensures
        forall|i: int|
            0 <= i < slice_walk(start, stop, step).len() ==> (if step > 0 {
                start <= #[trigger] slice_walk(start, stop, step)[i] < stop
            } else {
                stop < slice_walk(start, stop, step)[i] <= start
            }),
    decreases
            (if step > 0 {
                stop + step - start
            } else {
                start - stop - step
            }),
{
    if (step > 0 && start < stop) || (step < 0 && start > stop) {
        lemma_walk_range(start + step, stop, step);
        let w = slice_walk(start, stop, step);
        let rest = slice_walk(start + step, stop, step);
        assert(w == seq![start] + rest);
        assert forall|i: int|
            0 <= i < w.len() implies (if step > 0 {
            start <= #[trigger] w[i] < stop
        } else {
            stop < w[i] <= start
        }) by {
            if i == 0 {
                assert(w[i] == start);
            } else {
                assert(w[i] == rest[i - 1]);
            }
        }
    }
}

/// The walk visits exactly the arithmetic progression `start + k * step`.
pub proof fn lemma_walk_pointwise(start: int, stop: int, step: int)
    requires
        step != 0,
    ensures
        forall|k: int|
            0 <= k < slice_walk(start, stop, step).len() ==> #[trigger] slice_walk(
                start,
                stop,
                step,
            )[k] == start + k * step,
    decreases
            (if step > 0 {
                stop + step - start
            } else {
                start - stop - step
            }),
{
    if (step > 0 && start < stop) || (step < 0 && start > stop) {
        lemma_walk_pointwise(start + step, stop, step);
        let w = slice_walk(start, stop, step);
        let rest = slice_walk(start + step, stop, step);
        assert(w == seq![start] + rest);
        assert forall|k: int| 0 <= k < w.len() implies #[trigger] w[k] == start + k * step by {
            if k == 0 {
                assert(w[k] == start);
            } else {
                assert(w[k] == rest[k - 1]);
                assert(rest[k - 1] == (start + step) + (k - 1) * step);
                assert(step + (k - 1) * step == k * step) by (nonlinear_arith);
            }
        }
    }
}

/// Computes the selected row positions of a slice, or rejects a zero step.
/// The positions are returned as indices into the column; they always lie in
/// `[0, len)`.
#[verifier::loop_isolation(false)]
pub fn slice_array(len: usize, start: Option<i32>, stop: Option<i32>, step: Option<i32>) -> (r:
    Result<Vec<usize>, EvalError>)
    ensures
        match r {
            Ok(v) => {
                let st = match step {
                    Some(s) => s as int,
                    None => 1,
                };
                &&& st != 0
                &&& crate::kernels::to_int_idxs(v@) == slice_indices(len as int, start, stop, st)
                &&& forall|i: int| 0 <= i < v@.len() ==> #[trigger] v@[i] < len
            },
            Err(e) => step == Some(0i32) && e@ == ErrV::InvalidSlice,
        },
{
    let st: i32 = match step {
        Some(s) => s,
        None => 1,
    };
    if st == 0 {
        return Err(EvalError::InvalidSlice);
    }
    let l: i128 = len as i128;
    let stw: i128 = st as i128;
    let (sc, ec): (i128, i128) = if st > 0 {
        let s: i128 = match start {
            Some(v) => v as i128,
            None => 0,
        };
        let e: i128 = match stop {
            Some(v) => v as i128,
            None => l,
        };
        let sc = if s < 0 {
            if l + s > 0 {
                l + s
            } else {
                0
            }
        } else {
            if s < l {
                s
            } else {
                l
            }
        };
        let ec = if e < 0 {
            if l + e > 0 {
                l + e
            } else {
                0
            }
        } else {
            if e < l {
                e
            } else {
                l
            }
        };
        (sc, ec)
    } else {
        let s: i128 = match start {
            Some(v) => v as i128,
            None => l - 1,
        };
        let e: i128 = match stop {
            Some(v) => v as i128,
            None => -l - 1,
        };
        let sc = if s < 0 {
            if l + s > -1 {
                l + s
            } else {
                -1
            }
        } else {
            if s < l - 1 {
                s
            } else {
                l - 1
            }
        };
        let ec = if e < 0 {
            if l + e > -1 {
                l + e
            } else {
                -1
            }
        } else {
            if e < l - 1 {
                e
            } else {
                l - 1
            }
        };
        (sc, ec)
    };
    proof {
        assert((sc as int, ec as int) == slice_bounds(len as int, start, stop, st as int));
        lemma_walk_range(sc as int, ec as int, st as int);
    }
    let mut out: Vec<usize> = Vec::new();
    let mut i: i128 = sc;
    while (st > 0 && i < ec) || (st < 0 && i > ec)
        invariant
            st != 0,
            stw == st as int,
            st > 0 ==> sc <= i,
            st < 0 ==> i <= sc,
            st > 0 ==> i <= ec + stw || i == sc,
            st < 0 ==> i >= ec + stw || i == sc,
            slice_walk(sc as int, ec as int, st as int) == crate::kernels::to_int_idxs(out@)
                + slice_walk(i as int, ec as int, st as int),
            forall|j: int| 0 <= j < out@.len() ==> #[trigger] out@[j] < len,
            -1 <= ec <= l,
            st > 0 ==> 0 <= sc <= l && 0 <= ec,
            st < 0 ==> -1 <= sc <= l - 1,
        decreases
                (if st > 0 {
                    ec + stw - i
                } else {
                    i - ec - stw
                }),
    {
        proof {
            lemma_walk_range(i as int, ec as int, st as int);
            assert(slice_walk(i as int, ec as int, st as int)[0] == i as int);
        }
        out.push(i as usize);
        proof {
            assert(crate::kernels::to_int_idxs(out@) =~= crate::kernels::to_int_idxs(
                out@.drop_last(),
            ).push(i as int));
            assert(crate::kernels::to_int_idxs(out@.drop_last()).push(i as int) + slice_walk(
                i as int + stw as int,
                ec as int,
                st as int,
            ) =~= crate::kernels::to_int_idxs(out@.drop_last()) + slice_walk(
                i as int,
                ec as int,
                st as int,
            ));
        }
        i = i + stw;
    }
    Ok(out)
}

} // verus!
