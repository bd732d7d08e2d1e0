//! The vectorized evaluator: a recursive walk of the expression tree that
//! dispatches each node to a kernel over the current batch.
//!
//! `spec_eval` is the mathematical meaning of an expression against a batch
//! model: a total function giving either the resulting value model or the
//! error the engine owes on that input. The executable `eval_jmespath` is
//! proved to return exactly that.
use vstd::prelude::*;

use crate::CompareOp;
use crate::LogicOp;
use crate::ast::JmesPathExpr;
use crate::batch::{Batch, BatchV, BoolColumn, ColV, Column, Float64Column, Int32Column,
    Int64Column, StringColumn};
use crate::errors::{ErrV, EvalError};
use crate::float_bits::{F64_MAG_MASK, f64_bits_abs, i64_ratio_bits, i64_ratio_to_f64_bits};
use crate::kernels::{and_cols, and_mask, cmp_bool_col, cmp_f64_bits, cmp_f64_col, cmp_i32_col,
    cmp_i64_col, cmp_mask_bool, cmp_mask_f64, cmp_mask_i32, cmp_mask_i64, cmp_mask_str,
    cmp_str_col, cmp_str_vals, cmp_f64, cmp_int, cmp_str, filter_record_batch_fn, mask_true_idxs,
    not_col, not_mask, or_cols, or_mask, rev_idxs, reverse_indices, select_batch, select_seq,
    take_rows, to_int_idxs};
use crate::reduce::{abs_f64, abs_f64_col, abs_i32, abs_i32_col, abs_i64, abs_i64_col,
    flatten_col, flatten_lists, max_f64, max_f64_col, max_i32, max_i32_col, max_i64, max_i64_col,
    min_f64, min_f64_col, min_i32, min_i32_col, min_i64, min_i64_col, sum_i32, sum_i32_col,
    sum_i64, sum_i64_col, validity_vec};
use crate::resolve::{clone_batch, clone_column, col_ranks, col_sort_keys, find_field,
    find_field_exec, resolve_path, resolve_path_exec};
use crate::slice::{normalize_index, normalize_index_spec, slice_array, slice_indices};
use crate::sort::{RankV, SortKey, sort_indices, sorted_perm_of, ranks_of};
use crate::strops::{StrPred, dec_str, eq_lit, int_to_string, len_wrap_i32, length_str_col,
    str_len_i32, str_pred_col, str_pred_mask, to_string_i64_col, utf8_len, wrap_i32};
use crate::value::{EvalResult, ValueV};

verus! {

/// The value of a resolved column, or the error for a column type the value
/// model cannot carry.
pub open spec fn col_value(c: ColV) -> Result<ValueV, ErrV> {
    match c {
        ColV::Int32(s) => Ok(ValueV::Int32Col(s)),
        ColV::Int64(s) => Ok(ValueV::Int64Col(s)),
        ColV::Float64(s) => Ok(ValueV::Float64Col(s)),
        ColV::Utf8(s) => Ok(ValueV::Utf8Col(s)),
        ColV::Bool(s) => Ok(ValueV::BoolCol(s)),
        ColV::List(s) => Ok(ValueV::ListCol(s)),
        ColV::Struct(_, _, _) => Err(ErrV::UnsupportedType),
    }
}

/// Broadcast comparison: column against scalar constant, or scalar against
/// scalar; anything else is unsupported.
pub open spec fn spec_compare(op: CompareOp, l: ValueV, r: ValueV) -> Result<ValueV, ErrV> {
    match (l, r) {
        (ValueV::Int32Col(s), ValueV::IntConst(c)) => Ok(
            ValueV::BoolCol(cmp_mask_i32(s, op, c as int)),
        ),
        (ValueV::Int64Col(s), ValueV::IntConst(c)) => Ok(
            ValueV::BoolCol(cmp_mask_i64(s, op, c as int)),
        ),
        (ValueV::Float64Col(s), ValueV::FloatConst(c)) => Ok(
            ValueV::BoolCol(cmp_mask_f64(s, op, c)),
        ),
        (ValueV::Utf8Col(s), ValueV::StrConst(c)) => Ok(ValueV::BoolCol(cmp_mask_str(s, op, c))),
        (ValueV::BoolCol(s), ValueV::BoolConst(c)) => if op is Eq || op is Ne {
            Ok(ValueV::BoolCol(cmp_mask_bool(s, op, c)))
        } else {
            Err(ErrV::UnsupportedComparison)
        },
        (ValueV::Int64Const(a), ValueV::IntConst(b)) => Ok(
            ValueV::BoolConst(cmp_int(op, a as int, b as int)),
        ),
        (ValueV::IntConst(a), ValueV::Int64Const(b)) => Ok(
            ValueV::BoolConst(cmp_int(op, a as int, b as int)),
        ),
        (ValueV::IntConst(a), ValueV::IntConst(b)) => Ok(
            ValueV::BoolConst(cmp_int(op, a as int, b as int)),
        ),
        (ValueV::Int64Const(a), ValueV::Int64Const(b)) => Ok(
            ValueV::BoolConst(cmp_int(op, a as int, b as int)),
        ),
        (ValueV::FloatConst(a), ValueV::FloatConst(b)) => Ok(ValueV::BoolConst(cmp_f64(op, a, b))),
        (ValueV::StrConst(a), ValueV::StrConst(b)) => Ok(ValueV::BoolConst(cmp_str(op, a, b))),
        (ValueV::BoolConst(a), ValueV::BoolConst(b)) => if op is Eq {
            Ok(ValueV::BoolConst(a == b))
        } else if op is Ne {
            Ok(ValueV::BoolConst(a != b))
        } else {
            Err(ErrV::UnsupportedComparison)
        },
        _ => Err(ErrV::UnsupportedComparison),
    }
}

/// Unary logical negation.
pub open spec fn spec_not(l: ValueV) -> Result<ValueV, ErrV> {
    match l {
        ValueV::BoolCol(s) => Ok(ValueV::BoolCol(not_mask(s))),
        ValueV::BoolConst(v) => Ok(ValueV::BoolConst(!v)),
        _ => Err(ErrV::UnsupportedLogic),
    }
}

/// Binary conjunction or disjunction over two masks (null if either side is
/// null) or two boolean scalars.
pub open spec fn spec_and_or(op: LogicOp, l: ValueV, r: ValueV) -> Result<ValueV, ErrV> {
    match (l, r) {
        (ValueV::BoolCol(a), ValueV::BoolCol(b)) => if a.len() == b.len() {
            if op is And {
                Ok(ValueV::BoolCol(and_mask(a, b)))
            } else {
                Ok(ValueV::BoolCol(or_mask(a, b)))
            }
        } else {
            Err(ErrV::KernelError)
        },
        (ValueV::BoolConst(a), ValueV::BoolConst(b)) => if op is And {
            Ok(ValueV::BoolConst(a && b))
        } else {
            Ok(ValueV::BoolConst(a || b))
        },
        _ => Err(ErrV::UnsupportedLogic),
    }
}

/// Positional lookup into a column: negatives count from the end; a null at
/// the position is an error; the result is a scalar of the element type.
pub open spec fn spec_index(v: ValueV, idx: int) -> Result<ValueV, ErrV> {
    match v {
        ValueV::Int32Col(s) => match normalize_index_spec(idx, s.len() as int) {
            None => Err(ErrV::IndexOutOfBounds),
            Some(p) => match s[p] {
                None => Err(ErrV::NullIndex),
                Some(x) => Ok(ValueV::IntConst(x)),
            },
        },
        ValueV::Int64Col(s) => match normalize_index_spec(idx, s.len() as int) {
            None => Err(ErrV::IndexOutOfBounds),
            Some(p) => match s[p] {
                None => Err(ErrV::NullIndex),
                Some(x) => Ok(ValueV::Int64Const(x)),
            },
        },
        ValueV::Float64Col(s) => match normalize_index_spec(idx, s.len() as int) {
            None => Err(ErrV::IndexOutOfBounds),
            Some(p) => match s[p] {
                None => Err(ErrV::NullIndex),
                Some(x) => Ok(ValueV::FloatConst(x)),
            },
        },
        ValueV::Utf8Col(s) => match normalize_index_spec(idx, s.len() as int) {
            None => Err(ErrV::IndexOutOfBounds),
            Some(p) => match s[p] {
                None => Err(ErrV::NullIndex),
                Some(x) => Ok(ValueV::StrConst(x)),
            },
        },
        ValueV::BoolCol(s) => match normalize_index_spec(idx, s.len() as int) {
            None => Err(ErrV::IndexOutOfBounds),
            Some(p) => match s[p] {
                None => Err(ErrV::NullIndex),
                Some(x) => Ok(ValueV::BoolConst(x)),
            },
        },
        _ => Err(ErrV::UnsupportedType),
    }
}

/// NumPy-style slicing of an integer or string column.
pub open spec fn spec_slice(
    v: ValueV,
    start: Option<i32>,
    stop: Option<i32>,
    step: Option<i32>,
) -> Result<ValueV, ErrV> {
    let st = match step {
        Some(s) => s as int,
        None => 1,
    };
    if st == 0 {
        Err(ErrV::InvalidSlice)
    } else {
        match v {
            ValueV::Int32Col(s) => Ok(
                ValueV::Int32Col(select_seq(s, slice_indices(s.len() as int, start, stop, st))),
            ),
            ValueV::Int64Col(s) => Ok(
                ValueV::Int64Col(select_seq(s, slice_indices(s.len() as int, start, stop, st))),
            ),
            ValueV::Utf8Col(s) => Ok(
                ValueV::Utf8Col(select_seq(s, slice_indices(s.len() as int, start, stop, st))),
            ),
            _ => Err(ErrV::UnsupportedType),
        }
    }
}

/// An all-valid integer column of the flattened elements.
pub open spec fn flatten_value(s: Seq<Option<Seq<i64>>>) -> ValueV {
    ValueV::Int64Col(Seq::new(flatten_lists(s).len(), |i: int| Some(flatten_lists(s)[i])))
}

/// The validity cells of a column value; `None` for non-columns.
pub open spec fn validity_mask_v(v: ValueV) -> Option<Seq<Option<bool>>> {
    match v {
        ValueV::Int32Col(s) => Some(Seq::new(s.len(), |i: int| Some(s[i] is Some))),
        ValueV::Int64Col(s) => Some(Seq::new(s.len(), |i: int| Some(s[i] is Some))),
        ValueV::Float64Col(s) => Some(Seq::new(s.len(), |i: int| Some(s[i] is Some))),
        ValueV::Utf8Col(s) => Some(Seq::new(s.len(), |i: int| Some(s[i] is Some))),
        ValueV::BoolCol(s) => Some(Seq::new(s.len(), |i: int| Some(s[i] is Some))),
        ValueV::ListCol(s) => Some(Seq::new(s.len(), |i: int| Some(s[i] is Some))),
        _ => None,
    }
}

/// The `type()` name of a value.
pub open spec fn kind_name(v: ValueV) -> Seq<char> {
    match v {
        ValueV::Int32Col(_) => "array<int32>"@,
        ValueV::Int64Col(_) => "array<int64>"@,
        ValueV::Float64Col(_) => "array<float64>"@,
        ValueV::Utf8Col(_) => "array<string>"@,
        ValueV::BoolCol(_) => "array<boolean>"@,
        ValueV::ListCol(_) => "array<list>"@,
        ValueV::Batch(_) => "object"@,
        ValueV::IntConst(_) => "number"@,
        ValueV::Int64Const(_) => "number"@,
        ValueV::FloatConst(_) => "number"@,
        ValueV::BoolConst(_) => "boolean"@,
        ValueV::StrConst(_) => "string"@,
    }
}

/// The non-null values of a column, in row order.
pub open spec fn valid_values<A>(s: Seq<Option<A>>) -> Seq<A>
    decreases s.len(),
{
    if s.len() == 0 {
        Seq::empty()
    } else {
        let pre = valid_values(s.drop_last());
        match s.last() {
            Some(v) => pre.push(v),
            None => pre,
        }
    }
}

/// Adjacent deduplication (of an already sorted sequence).
pub open spec fn dedup_seq<A>(s: Seq<A>) -> Seq<A>
    decreases s.len(),
{
    if s.len() == 0 {
        Seq::empty()
    } else if s.len() == 1 {
        s
    } else {
        let pre = dedup_seq(s.drop_last());
        if s.last() == s[s.len() - 2] {
            pre
        } else {
            pre.push(s.last())
        }
    }
}

/// The sorted, de-duplicated values of a sequence under the given ranks.
pub open spec fn sorted_unique<A>(vals: Seq<A>, rks: Seq<RankV>) -> Seq<A> {
    dedup_seq(select_seq(vals, sorted_perm_of(rks)))
}

/// The result batch of `sort_by`: rows permuted stably by the rank of the
/// key column.
pub open spec fn sort_batch_by(b: BatchV, key: ColV) -> Result<BatchV, ErrV> {
    match col_ranks(key) {
        None => Err(ErrV::KernelError),
        Some(rks) => Ok(select_batch(b, sorted_perm_of(rks))),
    }
}

/// Evaluation of a multi-select hash's pairs, left to right: the labels and
/// the columns they produce. A column result is adopted as it stands; a
/// scalar is broadcast to a one-row column only over an empty batch.
pub open spec fn spec_msh(pairs: Seq<(String, JmesPathExpr)>, b: BatchV) -> Result<
    (Seq<Seq<char>>, Seq<ColV>),
    ErrV,
>
    decreases pairs,
{
    if pairs.len() == 0 {
        Ok((Seq::empty(), Seq::empty()))
    } else {
        match spec_msh(pairs.drop_last(), b) {
            Err(e) => Err(e),
            Ok((names, cols)) => match spec_eval(pairs.last().1, b) {
                Err(e) => Err(e),
                Ok(v) => match msh_column(v, b.nrows) {
                    Err(e) => Err(e),
                    Ok(c) => Ok((names.push(pairs.last().0@), cols.push(c))),
                },
            },
        }
    }
}

/// How one multi-select result becomes a column.
pub open spec fn msh_column(v: ValueV, nrows: nat) -> Result<ColV, ErrV> {
    match v {
        ValueV::Int32Col(s) => Ok(ColV::Int32(s)),
        ValueV::Int64Col(s) => Ok(ColV::Int64(s)),
        ValueV::Float64Col(s) => Ok(ColV::Float64(s)),
        ValueV::Utf8Col(s) => Ok(ColV::Utf8(s)),
        ValueV::BoolCol(s) => Ok(ColV::Bool(s)),
        ValueV::ListCol(s) => Ok(ColV::List(s)),
        ValueV::Batch(_) => Err(ErrV::UnsupportedType),
        ValueV::IntConst(c) => if nrows == 0 {
            Ok(ColV::Int32(seq![Some(c)]))
        } else {
            Err(ErrV::ScalarInMultiSelect)
        },
        ValueV::Int64Const(c) => if nrows == 0 {
            Ok(ColV::Int64(seq![Some(c)]))
        } else {
            Err(ErrV::ScalarInMultiSelect)
        },
        ValueV::FloatConst(c) => if nrows == 0 {
            Ok(ColV::Float64(seq![Some(c)]))
        } else {
            Err(ErrV::ScalarInMultiSelect)
        },
        ValueV::BoolConst(c) => if nrows == 0 {
            Ok(ColV::Bool(seq![Some(c)]))
        } else {
            Err(ErrV::ScalarInMultiSelect)
        },
        ValueV::StrConst(c) => if nrows == 0 {
            Ok(ColV::Utf8(seq![Some(c)]))
        } else {
            Err(ErrV::ScalarInMultiSelect)
        },
    }
}

/// The batch built from multi-select columns: all columns must share one
/// row count.
pub open spec fn msh_batch(names: Seq<Seq<char>>, cols: Seq<ColV>) -> Result<BatchV, ErrV> {
    let nrows: nat = if cols.len() == 0 {
        0
    } else {
        cols[0].len()
    };
    if forall|i: int| 0 <= i < cols.len() ==> (#[trigger] cols[i]).len() == nrows {
        Ok(BatchV { names, cols, nrows })
    } else {
        Err(ErrV::KernelError)
    }
}

/// The meaning of an expression against a batch model.
pub open spec fn spec_eval(e: JmesPathExpr, b: BatchV) -> Result<ValueV, ErrV>
    decreases e,
{
    match e {
        JmesPathExpr::CurrentNode => Ok(ValueV::Batch(b)),
        JmesPathExpr::ExprRef(_) => Err(ErrV::InvalidExprRefUse),
        JmesPathExpr::ConstInt(v) => Ok(ValueV::IntConst(v)),
        JmesPathExpr::ConstFloat(v) => Ok(ValueV::FloatConst(v)),
        JmesPathExpr::ConstBool(v) => Ok(ValueV::BoolConst(v)),
        JmesPathExpr::ConstString(s) => Ok(ValueV::StrConst(s@)),
        JmesPathExpr::Path(parts) => match resolve_path(b, parts.deep_view()) {
            Ok(c) => col_value(c),
            Err(e) => Err(e),
        },
        JmesPathExpr::Compare { op, lhs, rhs } => match spec_eval(*lhs, b) {
            Err(e) => Err(e),
            Ok(l) => match spec_eval(*rhs, b) {
                Err(e) => Err(e),
                Ok(r) => spec_compare(op, l, r),
            },
        },
        JmesPathExpr::Logic { op, lhs, rhs } => match spec_eval(*lhs, b) {
            Err(e) => Err(e),
            Ok(l) => match op {
                LogicOp::Not => spec_not(l),
                _ => match rhs {
                    None => Err(ErrV::UnsupportedLogic),
                    Some(rx) => match spec_eval(*rx, b) {
                        Err(e) => Err(e),
                        Ok(r) => spec_and_or(op, l, r),
                    },
                },
            },
        },
        JmesPathExpr::Index(base, idx) => match spec_eval(*base, b) {
            Err(e) => Err(e),
            Ok(v) => spec_index(v, idx as int),
        },
        JmesPathExpr::Slice { base, start, stop, step } => match spec_eval(*base, b) {
            Err(e) => Err(e),
            Ok(v) => spec_slice(v, start, stop, step),
        },
        JmesPathExpr::Filter(_, pred) => match spec_eval(*pred, b) {
            Err(e) => Err(e),
            Ok(ValueV::BoolCol(m)) => if m.len() == b.nrows {
                Ok(ValueV::Batch(select_batch(b, mask_true_idxs(m))))
            } else {
                Err(ErrV::KernelError)
            },
            Ok(_) => Err(ErrV::InvalidPredicate),
        },
        JmesPathExpr::Pipe(l, r) => match spec_eval(*l, b) {
            Err(e) => Err(e),
            Ok(ValueV::Batch(b2)) => spec_eval(*r, b2),
            Ok(_) => Err(ErrV::PipeRequiresBatch),
        },
        JmesPathExpr::Flatten(base) => match spec_eval(*base, b) {
            Err(e) => Err(e),
            Ok(ValueV::ListCol(s)) => Ok(flatten_value(s)),
            Ok(_) => Err(ErrV::FlattenUnsupported),
        },
        JmesPathExpr::Projection(base, fe) => match spec_eval(*base, b) {
            Err(e) => Err(e),
            Ok(ValueV::ListCol(s)) => if *fe matches JmesPathExpr::Path(p) && p@.len() == 0 {
                Ok(flatten_value(s))
            } else {
                Err(ErrV::ProjectionUnsupported)
            },
            Ok(_) => Err(ErrV::ProjectionUnsupported),
        },
        JmesPathExpr::MultiSelectHash(pairs) => match spec_msh(pairs@, b) {
            Err(e) => Err(e),
            Ok((names, cols)) => match msh_batch(names, cols) {
                Err(e) => Err(e),
                Ok(nb) => Ok(ValueV::Batch(nb)),
            },
        },
        JmesPathExpr::MultiSelectList(_) => Err(ErrV::NotImplemented),
        JmesPathExpr::Func { name, args } => spec_func(name@, args@, b),
    }
}

/// The built-in function table: each function's arity, argument kinds and
/// result, with eager left-to-right argument evaluation (except the `&key`
/// argument of `sort_by` and `group_by`, which stays unevaluated).
pub open spec fn spec_func(name: Seq<char>, args: Seq<JmesPathExpr>, b: BatchV) -> Result<
    ValueV,
    ErrV,
>
    decreases args,
{
    if name == "length"@ {
        if args.len() != 1 {
            Err(ErrV::ArityMismatch { name, got: args.len(), expected: 1 })
        } else {
            match spec_eval(args[0], b) {
                Err(e) => Err(e),
                Ok(ValueV::Utf8Col(s)) => Ok(
                    ValueV::Int32Col(
                        Seq::new(
                            s.len(),
                            |i: int|
                                Some(
                                    (match s[i] {
                                        Some(t) => wrap_i32(utf8_len(t)),
                                        None => 0int,
                                    }) as i32,
                                ),
                        ),
                    ),
                ),
                Ok(ValueV::ListCol(s)) => Ok(
                    ValueV::Int32Col(
                        Seq::new(
                            s.len(),
                            |i: int|
                                Some(
                                    (match s[i] {
                                        Some(t) => wrap_i32(t.len() as int),
                                        None => 0int,
                                    }) as i32,
                                ),
                        ),
                    ),
                ),
                Ok(ValueV::StrConst(s)) => Ok(ValueV::IntConst(wrap_i32(utf8_len(s)) as i32)),
                Ok(_) => Err(ErrV::ArgumentKindMismatch { name, pos: 0 }),
            }
        }
    } else if name == "contains"@ || name == "starts_with"@ || name == "ends_with"@ {
        if args.len() != 2 {
            Err(ErrV::ArityMismatch { name, got: args.len(), expected: 2 })
        } else {
            let p = if name == "contains"@ {
                StrPred::Contains
            } else if name == "starts_with"@ {
                StrPred::StartsWith
            } else {
                StrPred::EndsWith
            };
            match spec_eval(args[0], b) {
                Err(e) => Err(e),
                Ok(hay) => match spec_eval(args[1], b) {
                    Err(e) => Err(e),
                    Ok(needle) => match (hay, needle) {
                        (ValueV::Utf8Col(s), ValueV::StrConst(c)) => Ok(
                            ValueV::BoolCol(str_pred_mask(p, s, c)),
                        ),
                        _ => Err(ErrV::ArgumentKindMismatch { name, pos: 0 }),
                    },
                },
            }
        }
    } else if name == "to_string"@ {
        if args.len() != 1 {
            Err(ErrV::ArityMismatch { name, got: args.len(), expected: 1 })
        } else {
            match spec_eval(args[0], b) {
                Err(e) => Err(e),
                Ok(ValueV::Int32Col(s)) => Ok(
                    ValueV::Utf8Col(
                        Seq::new(
                            s.len(),
                            |i: int|
                                match s[i] {
                                    Some(v) => Some(dec_str(v as int)),
                                    None => None,
                                },
                        ),
                    ),
                ),
                Ok(ValueV::Int64Col(s)) => Ok(
                    ValueV::Utf8Col(
                        Seq::new(
                            s.len(),
                            |i: int|
                                match s[i] {
                                    Some(v) => Some(dec_str(v as int)),
                                    None => None,
                                },
                        ),
                    ),
                ),
                Ok(ValueV::IntConst(v)) => Ok(ValueV::StrConst(dec_str(v as int))),
                Ok(_) => Err(ErrV::ArgumentKindMismatch { name, pos: 0 }),
            }
        }
    } else if name == "min"@ {
        if args.len() != 1 {
            Err(ErrV::ArityMismatch { name, got: args.len(), expected: 1 })
        } else {
            match spec_eval(args[0], b) {
                Err(e) => Err(e),
                Ok(ValueV::Int32Col(s)) => match min_i32(s) {
                    Some(v) => Ok(ValueV::IntConst(v)),
                    None => Err(ErrV::KernelError),
                },
                Ok(ValueV::Int64Col(s)) => match min_i64(s) {
                    Some(v) => Ok(ValueV::Int64Const(v)),
                    None => Err(ErrV::KernelError),
                },
                Ok(ValueV::Float64Col(s)) => match min_f64(s) {
                    Some(v) => Ok(ValueV::FloatConst(v)),
                    None => Err(ErrV::KernelError),
                },
                Ok(_) => Err(ErrV::ArgumentKindMismatch { name, pos: 0 }),
            }
        }
    } else if name == "max"@ {
        if args.len() != 1 {
            Err(ErrV::ArityMismatch { name, got: args.len(), expected: 1 })
        } else {
            match spec_eval(args[0], b) {
                Err(e) => Err(e),
                Ok(ValueV::Int32Col(s)) => match max_i32(s) {
                    Some(v) => Ok(ValueV::IntConst(v)),
                    None => Err(ErrV::KernelError),
                },
                Ok(ValueV::Int64Col(s)) => match max_i64(s) {
                    Some(v) => Ok(ValueV::Int64Const(v)),
                    None => Err(ErrV::KernelError),
                },
                Ok(ValueV::Float64Col(s)) => match max_f64(s) {
                    Some(v) => Ok(ValueV::FloatConst(v)),
                    None => Err(ErrV::KernelError),
                },
                Ok(_) => Err(ErrV::ArgumentKindMismatch { name, pos: 0 }),
            }
        }
    } else if name == "sum"@ {
        if args.len() != 1 {
            Err(ErrV::ArityMismatch { name, got: args.len(), expected: 1 })
        } else {
            match spec_eval(args[0], b) {
                Err(e) => Err(e),
                Ok(ValueV::Int32Col(s)) => Ok(ValueV::IntConst(sum_i32(s))),
                Ok(ValueV::Int64Col(s)) => Ok(ValueV::Int64Const(sum_i64(s))),
                Ok(ValueV::Float64Col(_)) => Err(ErrV::UnsupportedType),
                Ok(_) => Err(ErrV::ArgumentKindMismatch { name, pos: 0 }),
            }
        }
    } else if name == "avg"@ {
        if args.len() != 1 {
            Err(ErrV::ArityMismatch { name, got: args.len(), expected: 1 })
        } else {
            match spec_eval(args[0], b) {
                Err(e) => Err(e),
                Ok(ValueV::Int32Col(s)) => Ok(
                    ValueV::FloatConst(
                        if s.len() == 0 {
                            0u64
                        } else {
                            i64_ratio_to_f64_bits(sum_i32(s) as i64, s.len() as int)
                        },
                    ),
                ),
                Ok(ValueV::Int64Col(s)) => Ok(
                    ValueV::FloatConst(
                        if s.len() == 0 {
                            0u64
                        } else {
                            i64_ratio_to_f64_bits(sum_i64(s), s.len() as int)
                        },
                    ),
                ),
                Ok(ValueV::Float64Col(_)) => Err(ErrV::UnsupportedType),
                Ok(_) => Err(ErrV::ArgumentKindMismatch { name, pos: 0 }),
            }
        }
    } else if name == "abs"@ {
        if args.len() != 1 {
            Err(ErrV::ArityMismatch { name, got: args.len(), expected: 1 })
        } else {
            match spec_eval(args[0], b) {
                Err(e) => Err(e),
                Ok(ValueV::Int32Col(s)) => Ok(ValueV::Int32Col(abs_i32(s))),
                Ok(ValueV::Int64Col(s)) => Ok(ValueV::Int64Col(abs_i64(s))),
                Ok(ValueV::Float64Col(s)) => Ok(ValueV::Float64Col(abs_f64(s))),
                Ok(ValueV::IntConst(v)) => Ok(
                    ValueV::IntConst(
                        if v == i32::MIN {
                            i32::MIN
                        } else if v < 0 {
                            (-v) as i32
                        } else {
                            v
                        },
                    ),
                ),
                Ok(ValueV::FloatConst(v)) => Ok(ValueV::FloatConst(v & F64_MAG_MASK)),
                Ok(_) => Err(ErrV::ArgumentKindMismatch { name, pos: 0 }),
            }
        }
    } else if name == "keys"@ {
        Ok(ValueV::Utf8Col(Seq::new(b.names.len(), |i: int| Some(b.names[i]))))
    } else if name == "values"@ {
        Ok(ValueV::IntConst(wrap_i32(b.names.len() as int) as i32))
    } else if name == "type"@ {
        if args.len() != 1 {
            Err(ErrV::ArityMismatch { name, got: args.len(), expected: 1 })
        } else {
            match spec_eval(args[0], b) {
                Err(e) => Err(e),
                Ok(v) => Ok(ValueV::StrConst(kind_name(v))),
            }
        }
    } else if name == "sort_by"@ {
        if args.len() != 2 {
            Err(ErrV::ArityMismatch { name, got: args.len(), expected: 2 })
        } else {
            match spec_eval(args[0], b) {
                Err(e) => Err(e),
                Ok(d) => match key_field_of(args[1]) {
                    None => Err(ErrV::ArgumentKindMismatch { name, pos: 1 }),
                    Some(field) => {
                        let target = match d {
                            ValueV::Batch(b2) => b2,
                            _ => b,
                        };
                        let i = find_field(target.names, field);
                        if i < 0 {
                            Err(ErrV::UnknownField(field))
                        } else {
                            match sort_batch_by(target, target.cols[i]) {
                                Err(e) => Err(e),
                                Ok(nb) => Ok(ValueV::Batch(nb)),
                            }
                        }
                    },
                },
            }
        }
    } else if name == "group_by"@ {
        if args.len() != 2 {
            Err(ErrV::ArityMismatch { name, got: args.len(), expected: 2 })
        } else {
            match spec_eval(args[0], b) {
                Err(e) => Err(e),
                Ok(d) => match key_field_of(args[1]) {
                    None => Err(ErrV::ArgumentKindMismatch { name, pos: 1 }),
                    Some(field) => {
                        let target = match d {
                            ValueV::Batch(b2) => b2,
                            _ => b,
                        };
                        let i = find_field(target.names, field);
                        if i < 0 {
                            Err(ErrV::UnknownField(field))
                        } else {
                            spec_group(target.cols[i])
                        }
                    },
                },
            }
        }
    } else if name == "reverse"@ {
        if args.len() != 1 {
            Err(ErrV::ArityMismatch { name, got: args.len(), expected: 1 })
        } else {
            match spec_eval(args[0], b) {
                Err(e) => Err(e),
                Ok(ValueV::Int32Col(s)) => Ok(ValueV::Int32Col(select_seq(s, rev_idxs(s.len())))),
                Ok(ValueV::Int64Col(s)) => Ok(ValueV::Int64Col(select_seq(s, rev_idxs(s.len())))),
                Ok(ValueV::Float64Col(s)) => Ok(
                    ValueV::Float64Col(select_seq(s, rev_idxs(s.len()))),
                ),
                Ok(ValueV::Utf8Col(s)) => Ok(ValueV::Utf8Col(select_seq(s, rev_idxs(s.len())))),
                Ok(ValueV::BoolCol(s)) => Ok(ValueV::BoolCol(select_seq(s, rev_idxs(s.len())))),
                Ok(ValueV::ListCol(s)) => Ok(ValueV::ListCol(select_seq(s, rev_idxs(s.len())))),
                Ok(ValueV::Batch(b2)) => Ok(
                    ValueV::Batch(select_batch(b2, rev_idxs(b2.nrows))),
                ),
                Ok(_) => Err(ErrV::ArgumentKindMismatch { name, pos: 0 }),
            }
        }
    } else if name == "not_null"@ {
        if args.len() != 1 {
            Err(ErrV::ArityMismatch { name, got: args.len(), expected: 1 })
        } else {
            match spec_eval(args[0], b) {
                Err(e) => Err(e),
                Ok(v) => match validity_mask_v(v) {
                    None => Err(ErrV::ArgumentKindMismatch { name, pos: 0 }),
                    Some(m) => if m.len() == b.nrows {
                        Ok(ValueV::Batch(select_batch(b, mask_true_idxs(m))))
                    } else {
                        Err(ErrV::KernelError)
                    },
                },
            }
        }
    } else {
        Err(ErrV::UnknownFunction(name))
    }
}

/// The single-segment field of a `&field` expression reference, if the
/// argument has exactly that shape.
pub open spec fn key_field_of(e: JmesPathExpr) -> Option<Seq<char>> {
    match e {
        JmesPathExpr::ExprRef(inner) => match *inner {
            JmesPathExpr::Path(parts) => if parts@.len() == 1 {
                Some(parts@[0]@)
            } else {
                None
            },
            _ => None,
        },
        _ => None,
    }
}

/// The `group_by` result on a key column: its sorted, de-duplicated
/// non-null values, for integer and string keys.
pub open spec fn spec_group(c: ColV) -> Result<ValueV, ErrV> {
    match c {
        ColV::Int32(s) => {
            let vals = valid_values(s);
            let rks = Seq::new(vals.len(), |i: int| RankV::Int(vals[i] as int));
            Ok(ValueV::Int32Col(sorted_unique(vals, rks).map_values(|v: i32| Some(v))))
        },
        ColV::Int64(s) => {
            let vals = valid_values(s);
            let rks = Seq::new(vals.len(), |i: int| RankV::Int(vals[i] as int));
            Ok(ValueV::Int64Col(sorted_unique(vals, rks).map_values(|v: i64| Some(v))))
        },
        ColV::Utf8(s) => {
            let vals = valid_values(s);
            let rks = Seq::new(vals.len(), |i: int| RankV::Str(vals[i]));
            Ok(ValueV::Utf8Col(sorted_unique(vals, rks).map_values(|v: Seq<char>| Some(v))))
        },
        _ => Err(ErrV::UnsupportedType),
    }
}


/// Converts a resolved column into an evaluation result.
fn col_to_result(c: Column) -> (r: Result<EvalResult, EvalError>)
    ensures
        match r {
            Ok(v) => col_value(c@) == Ok::<ValueV, ErrV>(v@) && !(v is RecordBatch),
            Err(e) => col_value(c@) == Err::<ValueV, ErrV>(e@),
        },
{
    match c {
        Column::Int32(col) => Ok(EvalResult::Int32Array(col)),
        Column::Int64(col) => Ok(EvalResult::Int64Array(col)),
        Column::Float64(col) => Ok(EvalResult::Float64Array(col)),
        Column::Utf8(col) => Ok(EvalResult::StringArray(col)),
        Column::Bool(col) => Ok(EvalResult::BoolArray(col)),
        Column::List(col) => Ok(EvalResult::ListArray(col)),
        Column::Struct(_) => Err(EvalError::UnsupportedType),
    }
}

/// Executable broadcast comparison.
fn eval_compare(op: CompareOp, l: EvalResult, r: EvalResult) -> (res: Result<
    EvalResult,
    EvalError,
>)
    ensures
        match res {
            Ok(v) => spec_compare(op, l@, r@) == Ok::<ValueV, ErrV>(v@) && !(v is RecordBatch),
            Err(e) => spec_compare(op, l@, r@) == Err::<ValueV, ErrV>(e@),
        },
{
    match (l, r) {
        (EvalResult::Int32Array(s), EvalResult::IntConst(c)) => Ok(
            EvalResult::BoolArray(cmp_i32_col(&s, op, c)),
        ),
        (EvalResult::Int64Array(s), EvalResult::IntConst(c)) => Ok(
            EvalResult::BoolArray(cmp_i64_col(&s, op, c as i64)),
        ),
        (EvalResult::Float64Array(s), EvalResult::FloatConst(c)) => Ok(
            EvalResult::BoolArray(cmp_f64_col(&s, op, c)),
        ),
        (EvalResult::StringArray(s), EvalResult::StringConst(c)) => Ok(
            EvalResult::BoolArray(cmp_str_col(&s, op, &c)),
        ),
        (EvalResult::BoolArray(s), EvalResult::BoolConst(c)) => {
            if matches!(op, CompareOp::Eq) || matches!(op, CompareOp::Ne) {
                Ok(EvalResult::BoolArray(cmp_bool_col(&s, op, c)))
            } else {
                Err(EvalError::UnsupportedComparison)
            }
        },
        (EvalResult::Int64Const(a), EvalResult::IntConst(b)) => Ok(
            EvalResult::BoolConst(cmp_int_exec(op, a, b as i64)),
        ),
        (EvalResult::IntConst(a), EvalResult::Int64Const(b)) => Ok(
            EvalResult::BoolConst(cmp_int_exec(op, a as i64, b)),
        ),
        (EvalResult::IntConst(a), EvalResult::IntConst(b)) => Ok(
            EvalResult::BoolConst(cmp_int_exec(op, a as i64, b as i64)),
        ),
        (EvalResult::Int64Const(a), EvalResult::Int64Const(b)) => Ok(
            EvalResult::BoolConst(cmp_int_exec(op, a, b)),
        ),
        (EvalResult::FloatConst(a), EvalResult::FloatConst(b)) => Ok(
            EvalResult::BoolConst(cmp_f64_bits(op, a, b)),
        ),
        (EvalResult::StringConst(a), EvalResult::StringConst(b)) => Ok(
            EvalResult::BoolConst(cmp_str_vals(op, &a, &b)),
        ),
        (EvalResult::BoolConst(a), EvalResult::BoolConst(b)) => {
            if matches!(op, CompareOp::Eq) {
                Ok(EvalResult::BoolConst(a == b))
            } else if matches!(op, CompareOp::Ne) {
                Ok(EvalResult::BoolConst(a != b))
            } else {
                Err(EvalError::UnsupportedComparison)
            }
        },
        _ => Err(EvalError::UnsupportedComparison),
    }
}

/// One integer comparison.
fn cmp_int_exec(op: CompareOp, a: i64, b: i64) -> (r: bool)
    ensures
        r == cmp_int(op, a as int, b as int),
{
    match op {
        CompareOp::Eq => a == b,
        CompareOp::Ne => a != b,
        CompareOp::Gt => a > b,
        CompareOp::Lt => a < b,
        CompareOp::Gte => a >= b,
        CompareOp::Lte => a <= b,
    }
}

/// Executable positional lookup.
fn eval_index(v: EvalResult, idx: i32) -> (res: Result<EvalResult, EvalError>)
    ensures
        match res {
            Ok(out) => spec_index(v@, idx as int) == Ok::<ValueV, ErrV>(out@) && !(out
                is RecordBatch),
            Err(e) => spec_index(v@, idx as int) == Err::<ValueV, ErrV>(e@),
        },
{
    match v {
        EvalResult::Int32Array(col) => {
            let p = match normalize_index(idx, col.len()) {
                Ok(p) => p,
                Err(e) => {
                    return Err(e);
                },
            };
            if col.is_null(p) {
                Err(EvalError::NullIndex)
            } else {
                Ok(EvalResult::IntConst(col.value(p)))
            }
        },
        EvalResult::Int64Array(col) => {
            let p = match normalize_index(idx, col.len()) {
                Ok(p) => p,
                Err(e) => {
                    return Err(e);
                },
            };
            if col.is_null(p) {
                Err(EvalError::NullIndex)
            } else {
                Ok(EvalResult::Int64Const(col.value(p)))
            }
        },
        EvalResult::Float64Array(col) => {
            let p = match normalize_index(idx, col.len()) {
                Ok(p) => p,
                Err(e) => {
                    return Err(e);
                },
            };
            if col.is_null(p) {
                Err(EvalError::NullIndex)
            } else {
                Ok(EvalResult::FloatConst(col.value_bits(p)))
            }
        },
        EvalResult::StringArray(col) => {
            let p = match normalize_index(idx, col.len()) {
                Ok(p) => p,
                Err(e) => {
                    return Err(e);
                },
            };
            if col.is_null(p) {
                Err(EvalError::NullIndex)
            } else {
                Ok(EvalResult::StringConst(col.value(p)))
            }
        },
        EvalResult::BoolArray(col) => {
            let p = match normalize_index(idx, col.len()) {
                Ok(p) => p,
                Err(e) => {
                    return Err(e);
                },
            };
            if col.is_null(p) {
                Err(EvalError::NullIndex)
            } else {
                Ok(EvalResult::BoolConst(col.value(p)))
            }
        },
        _ => Err(EvalError::UnsupportedType),
    }
}

/// Executable slicing.
fn eval_slice(v: EvalResult, start: Option<i32>, stop: Option<i32>, step: Option<i32>) -> (res:
    Result<EvalResult, EvalError>)
    ensures
        match res {
            Ok(out) => spec_slice(v@, start, stop, step) == Ok::<ValueV, ErrV>(out@) && !(out
                is RecordBatch),
            Err(e) => spec_slice(v@, start, stop, step) == Err::<ValueV, ErrV>(e@),
        },
{
    match v {
        EvalResult::Int32Array(col) => {
            let idxs = match slice_array(col.len(), start, stop, step) {
                Ok(idxs) => idxs,
                Err(e) => {
                    return Err(e);
                },
            };
            Ok(
                EvalResult::Int32Array(
                    Int32Column { data: crate::kernels::select_copy(&col.data, &idxs) },
                ),
            )
        },
        EvalResult::Int64Array(col) => {
            let idxs = match slice_array(col.len(), start, stop, step) {
                Ok(idxs) => idxs,
                Err(e) => {
                    return Err(e);
                },
            };
            Ok(
                EvalResult::Int64Array(
                    Int64Column { data: crate::kernels::select_copy(&col.data, &idxs) },
                ),
            )
        },
        EvalResult::StringArray(col) => {
            let idxs = match slice_array(col.len(), start, stop, step) {
                Ok(idxs) => idxs,
                Err(e) => {
                    return Err(e);
                },
            };
            Ok(EvalResult::StringArray(crate::kernels::select_strings(&col.data, &idxs)))
        },
        _ => {
            let st: i32 = match step {
                Some(s) => s,
                None => 1,
            };
            if st == 0 {
                Err(EvalError::InvalidSlice)
            } else {
                Err(EvalError::UnsupportedType)
            }
        },
    }
}

/// Evaluates an expression against a record batch; the entry point installs
/// the batch as both root and current context.
#[verifier::loop_isolation(false)]
pub fn eval_jmespath(expr: &JmesPathExpr, rb: &Batch) -> (r: Result<EvalResult, EvalError>)
    requires
        rb@.wf(),
    ensures
        match r {
            Ok(v) => spec_eval(*expr, rb@) == Ok::<ValueV, ErrV>(v@) && (v is RecordBatch
                ==> v->RecordBatch_0@.wf()),
            Err(e) => spec_eval(*expr, rb@) == Err::<ValueV, ErrV>(e@),
        },
    decreases *expr,
{
    match expr {
        JmesPathExpr::CurrentNode => Ok(EvalResult::RecordBatch(clone_batch(rb))),
        JmesPathExpr::ExprRef(_) => Err(EvalError::InvalidExprRefUse),
        JmesPathExpr::ConstInt(v) => Ok(EvalResult::IntConst(*v)),
        JmesPathExpr::ConstFloat(v) => Ok(EvalResult::FloatConst(*v)),
        JmesPathExpr::ConstBool(v) => Ok(EvalResult::BoolConst(*v)),
        JmesPathExpr::ConstString(s) => Ok(EvalResult::StringConst(s.clone())),
        JmesPathExpr::Path(parts) => {
            match resolve_path_exec(rb, parts) {
                Ok(c) => col_to_result(c),
                Err(e) => Err(e),
            }
        },
        JmesPathExpr::Compare { op, lhs, rhs } => {
            let l = match eval_jmespath(&**lhs, rb) {
                Ok(l) => l,
                Err(e) => {
                    return Err(e);
                },
            };
            let r = match eval_jmespath(&**rhs, rb) {
                Ok(r) => r,
                Err(e) => {
                    return Err(e);
                },
            };
            eval_compare(*op, l, r)
        },
        JmesPathExpr::Logic { op, lhs, rhs } => {
            let l = match eval_jmespath(&**lhs, rb) {
                Ok(l) => l,
                Err(e) => {
                    return Err(e);
                },
            };
            match op {
                LogicOp::Not => match l {
                    EvalResult::BoolArray(a) => Ok(EvalResult::BoolArray(not_col(&a))),
                    EvalResult::BoolConst(v) => Ok(EvalResult::BoolConst(!v)),
                    _ => Err(EvalError::UnsupportedLogic),
                },
                _ => {
                    let rx = match rhs {
                        Some(rx) => rx,
                        None => {
                            return Err(EvalError::UnsupportedLogic);
                        },
                    };
                    let r = match eval_jmespath(&**rx, rb) {
                        Ok(r) => r,
                        Err(e) => {
                            return Err(e);
                        },
                    };
                    match (l, r) {
                        (EvalResult::BoolArray(a), EvalResult::BoolArray(bm)) => {
                            if a.len() == bm.len() {
                                if matches!(op, LogicOp::And) {
                                    Ok(EvalResult::BoolArray(and_cols(&a, &bm)))
                                } else {
                                    Ok(EvalResult::BoolArray(or_cols(&a, &bm)))
                                }
                            } else {
                                Err(EvalError::KernelError(String::new()))
                            }
                        },
                        (EvalResult::BoolConst(a), EvalResult::BoolConst(bv)) => {
                            if matches!(op, LogicOp::And) {
                                Ok(EvalResult::BoolConst(a && bv))
                            } else {
                                Ok(EvalResult::BoolConst(a || bv))
                            }
                        },
                        _ => Err(EvalError::UnsupportedLogic),
                    }
                },
            }
        },
        JmesPathExpr::Index(base, idx) => {
            let v = match eval_jmespath(&**base, rb) {
                Ok(v) => v,
                Err(e) => {
                    return Err(e);
                },
            };
            eval_index(v, *idx)
        },
        JmesPathExpr::Slice { base, start, stop, step } => {
            let v = match eval_jmespath(&**base, rb) {
                Ok(v) => v,
                Err(e) => {
                    return Err(e);
                },
            };
            eval_slice(v, *start, *stop, *step)
        },
        JmesPathExpr::Filter(_, pred) => {
            let p = match eval_jmespath(&**pred, rb) {
                Ok(p) => p,
                Err(e) => {
                    return Err(e);
                },
            };
            match p {
                EvalResult::BoolArray(m) => {
                    if m.len() == rb.num_rows() {
                        Ok(EvalResult::RecordBatch(filter_record_batch_fn(rb, &m)))
                    } else {
                        Err(EvalError::KernelError(String::new()))
                    }
                },
                _ => Err(EvalError::InvalidPredicate),
            }
        },
        JmesPathExpr::Pipe(l, r) => {
            let lv = match eval_jmespath(&**l, rb) {
                Ok(lv) => lv,
                Err(e) => {
                    return Err(e);
                },
            };
            match lv {
                EvalResult::RecordBatch(b2) => eval_jmespath(&**r, &b2),
                _ => Err(EvalError::PipeRequiresBatch),
            }
        },
        JmesPathExpr::Flatten(base) => {
            let v = match eval_jmespath(&**base, rb) {
                Ok(v) => v,
                Err(e) => {
                    return Err(e);
                },
            };
            match v {
                EvalResult::ListArray(col) => {
                    let out = flatten_col(&col);
                    proof {
                        assert(out@ =~= flatten_value(col@)->Int64Col_0);
                    }
                    Ok(EvalResult::Int64Array(out))
                },
                _ => Err(EvalError::FlattenUnsupported),
            }
        },
        JmesPathExpr::Projection(base, fe) => {
            let v = match eval_jmespath(&**base, rb) {
                Ok(v) => v,
                Err(e) => {
                    return Err(e);
                },
            };
            match v {
                EvalResult::ListArray(col) => {
                    let trivial = match &**fe {
                        JmesPathExpr::Path(p) => p.len() == 0,
                        _ => false,
                    };
                    if trivial {
                        let out = flatten_col(&col);
                        proof {
                            assert(out@ =~= flatten_value(col@)->Int64Col_0);
                        }
                        Ok(EvalResult::Int64Array(out))
                    } else {
                        Err(EvalError::ProjectionUnsupported)
                    }
                },
                _ => Err(EvalError::ProjectionUnsupported),
            }
        },
        JmesPathExpr::MultiSelectHash(pairs) => {
            let mut names: Vec<String> = Vec::new();
            let mut cols: Vec<Column> = Vec::new();
            let mut i: usize = 0;
            proof {
                assert(pairs@.take(0) =~= Seq::<(String, JmesPathExpr)>::empty());
                assert(names.deep_view() =~= Seq::<Seq<char>>::empty());
                assert(cols@.map_values(|c: Column| c@) =~= Seq::<ColV>::empty());
            }
            while i < pairs.len()
                invariant
                    0 <= i <= pairs@.len(),
                    names@.len() == i,
                    cols@.len() == i,
                    spec_msh(pairs@.take(i as int), rb@) == Ok::<(Seq<Seq<char>>, Seq<ColV>), ErrV>(
                        (names.deep_view(), cols@.map_values(|c: Column| c@)),
                    ),
                    forall|j: int| 0 <= j < i ==> !(#[trigger] cols@[j] is Struct),
                decreases pairs@.len() - i,
            {
                let ghost old_names = names.deep_view();
                let ghost old_cols = cols@.map_values(|c: Column| c@);
                proof {
                    assert(decreases_to!(*expr => pairs@[i as int].1));
                }
                let v = match eval_jmespath(&pairs[i].1, rb) {
                    Ok(v) => v,
                    Err(e) => {
                        proof {
                            assert(pairs@.take(i + 1).drop_last() =~= pairs@.take(i as int));
                            assert(pairs@.take(i + 1).last() == pairs@[i as int]);
                            lemma_msh_prefix_err(pairs@, rb@, i as int);
                        }
                        return Err(e);
                    },
                };
                let c: Column = match msh_column_exec(v, rb.num_rows()) {
                    Ok(c) => c,
                    Err(e) => {
                        proof {
                            assert(pairs@.take(i + 1).drop_last() =~= pairs@.take(i as int));
                            assert(pairs@.take(i + 1).last() == pairs@[i as int]);
                            lemma_msh_prefix_err(pairs@, rb@, i as int);
                        }
                        return Err(e);
                    },
                };
                names.push(pairs[i].0.clone());
                cols.push(c);
                proof {
                    assert(pairs@.take(i + 1).drop_last() =~= pairs@.take(i as int));
                    assert(pairs@.take(i + 1).last() == pairs@[i as int]);
                    assert(names.deep_view() =~= old_names.push(pairs@[i as int].0@));
                    assert(cols@.map_values(|c2: Column| c2@) =~= old_cols.push(
                        cols@[i as int]@,
                    ));
                }
                i += 1;
            }
            proof {
                assert(pairs@.take(pairs@.len() as int) =~= pairs@);
            }
            // All columns must share one row count.
            let nrows: usize = if cols.len() == 0 {
                0
            } else {
                cols[0].len()
            };
            let mut k: usize = 0;
            while k < cols.len()
                invariant
                    0 <= k <= cols@.len(),
                    nrows as int == (if cols@.len() == 0 {
                        0int
                    } else {
                        cols@[0]@.len() as int
                    }),
                    forall|j: int| 0 <= j < k ==> (#[trigger] cols@[j])@.len() == nrows as nat,
                decreases cols@.len() - k,
            {
                if cols[k].len() != nrows {
                    proof {
                        let scols = cols@.map_values(|c: Column| c@);
                        assert(scols[k as int].len() != (if scols.len() == 0 {
                            0nat
                        } else {
                            scols[0].len()
                        }));
                    }
                    return Err(EvalError::KernelError(String::new()));
                }
                k += 1;
            }
            let b = Batch { names, cols, nrows };
            proof {
                let scols = b.cols@.map_values(|c: Column| c@);
                assert(b@.cols == scols);
                assert forall|j: int| 0 <= j < scols.len() implies (#[trigger] scols[j]).len()
                    == nrows as nat && scols[j].wf() by {
                    assert(scols[j] == b.cols@[j]@);
                    assert(!(b.cols@[j] is Struct));
                }
                assert(b@.wf());
                assert(msh_batch(b@.names, scols) == Ok::<BatchV, ErrV>(b@));
            }
            Ok(EvalResult::RecordBatch(b))
        },
        JmesPathExpr::MultiSelectList(_) => Err(EvalError::NotImplemented),
        JmesPathExpr::Func { name, args } => eval_func(name, args, rb),
    }
}

/// A prefix error of the pair list is the whole list's error.
proof fn lemma_msh_prefix_err(pairs: Seq<(String, JmesPathExpr)>, b: BatchV, i: int)
    requires
        0 <= i < pairs.len(),
        spec_msh(pairs.take(i + 1), b) is Err,
    ensures
        spec_msh(pairs, b) == spec_msh(pairs.take(i + 1), b),
    decreases pairs.len() - i,
{
    if i + 1 < pairs.len() {
        assert(pairs.take(i + 2).drop_last() =~= pairs.take(i + 1));
        lemma_msh_prefix_err(pairs, b, i + 1);
    } else {
        assert(pairs.take(i + 1) =~= pairs);
    }
}

/// How one multi-select result becomes a column, executably.
fn msh_column_exec(v: EvalResult, nrows: usize) -> (r: Result<Column, EvalError>)
    ensures
        match r {
            Ok(c) => msh_column(v@, nrows as nat) == Ok::<ColV, ErrV>(c@) && !(c is Struct),
            Err(e) => msh_column(v@, nrows as nat) == Err::<ColV, ErrV>(e@),
        },
{
    match v {
        EvalResult::Int32Array(col) => Ok(Column::Int32(col)),
        EvalResult::Int64Array(col) => Ok(Column::Int64(col)),
        EvalResult::Float64Array(col) => Ok(Column::Float64(col)),
        EvalResult::StringArray(col) => Ok(Column::Utf8(col)),
        EvalResult::BoolArray(col) => Ok(Column::Bool(col)),
        EvalResult::ListArray(col) => Ok(Column::List(col)),
        EvalResult::RecordBatch(_) => Err(EvalError::UnsupportedType),
        EvalResult::IntConst(c) => {
            if nrows == 0 {
                let out = Column::Int32(Int32Column { data: vec![Some(c)] });
                proof {
                    assert(out@->Int32_0 =~= seq![Some(c)]);
                }
                Ok(out)
            } else {
                Err(EvalError::ScalarInMultiSelect)
            }
        },
        EvalResult::Int64Const(c) => {
            if nrows == 0 {
                let out = Column::Int64(Int64Column { data: vec![Some(c)] });
                proof {
                    assert(out@->Int64_0 =~= seq![Some(c)]);
                }
                Ok(out)
            } else {
                Err(EvalError::ScalarInMultiSelect)
            }
        },
        EvalResult::FloatConst(c) => {
            if nrows == 0 {
                let out = Column::Float64(Float64Column { data: vec![Some(c)] });
                proof {
                    assert(out@->Float64_0 =~= seq![Some(c)]);
                }
                Ok(out)
            } else {
                Err(EvalError::ScalarInMultiSelect)
            }
        },
        EvalResult::BoolConst(c) => {
            if nrows == 0 {
                let out = Column::Bool(BoolColumn { data: vec![Some(c)] });
                proof {
                    assert(out@->Bool_0 =~= seq![Some(c)]);
                }
                Ok(out)
            } else {
                Err(EvalError::ScalarInMultiSelect)
            }
        },
        EvalResult::StringConst(c) => {
            if nrows == 0 {
                let out = Column::Utf8(StringColumn { data: vec![Some(c)] });
                proof {
                    assert(out@->Utf8_0 =~= seq![Some(c@)]);
                }
                Ok(out)
            } else {
                Err(EvalError::ScalarInMultiSelect)
            }
        },
    }
}



/// Executable dispatch through the built-in function table.
#[verifier::loop_isolation(false)]
fn eval_func(name: &String, args: &Vec<JmesPathExpr>, rb: &Batch) -> (r: Result<
    EvalResult,
    EvalError,
>)
    requires
        rb@.wf(),
    ensures
        match r {
            Ok(v) => spec_func(name@, args@, rb@) == Ok::<ValueV, ErrV>(v@) && (v is RecordBatch
                ==> v->RecordBatch_0@.wf()),
            Err(e) => spec_func(name@, args@, rb@) == Err::<ValueV, ErrV>(e@),
        },
    decreases *args,
{
    if eq_lit(name, "length") {
        if args.len() != 1 {
            return Err(
                EvalError::ArityMismatch { name: name.clone(), got: args.len(), expected: 1 },
            );
        }
        let v = match eval_jmespath(&args[0], rb) {
            Ok(v) => v,
            Err(e) => {
                return Err(e);
            },
        };
        match v {
            EvalResult::StringArray(col) => {
                let out = length_str_col(&col);
                proof {
                    assert(out@ =~= spec_func(name@, args@, rb@)->Ok_0->Int32Col_0);
                }
                Ok(EvalResult::Int32Array(out))
            },
            EvalResult::ListArray(col) => {
                let mut out: Vec<Option<i32>> = Vec::new();
                let mut i: usize = 0;
                while i < col.data.len()
                    invariant
                        0 <= i <= col.data@.len(),
                        out@.len() == i,
                        forall|j: int|
                            0 <= j < i ==> #[trigger] out@[j] == Some(
                                (match col@[j] {
                                    Some(t) => wrap_i32(t.len() as int),
                                    None => 0int,
                                }) as i32,
                            ),
                    decreases col.data@.len() - i,
                {
                    let n: i32 = match &col.data[i] {
                        Some(l) => len_wrap_i32(l.len()),
                        None => 0,
                    };
                    out.push(Some(n));
                    i += 1;
                }
                let oc = Int32Column { data: out };
                proof {
                    assert(oc@ =~= spec_func(name@, args@, rb@)->Ok_0->Int32Col_0);
                }
                Ok(EvalResult::Int32Array(oc))
            },
            EvalResult::StringConst(s) => Ok(EvalResult::IntConst(str_len_i32(s.as_str()))),
            _ => Err(EvalError::ArgumentKindMismatch { name: name.clone(), pos: 0 }),
        }
    } else if eq_lit(name, "contains") || eq_lit(name, "starts_with") || eq_lit(
        name,
        "ends_with",
    ) {
        if args.len() != 2 {
            return Err(
                EvalError::ArityMismatch { name: name.clone(), got: args.len(), expected: 2 },
            );
        }
        let p: StrPred = if eq_lit(name, "contains") {
            StrPred::Contains
        } else if eq_lit(name, "starts_with") {
            StrPred::StartsWith
        } else {
            StrPred::EndsWith
        };
        let hay = match eval_jmespath(&args[0], rb) {
            Ok(v) => v,
            Err(e) => {
                return Err(e);
            },
        };
        let needle = match eval_jmespath(&args[1], rb) {
            Ok(v) => v,
            Err(e) => {
                return Err(e);
            },
        };
        match (hay, needle) {
            (EvalResult::StringArray(col), EvalResult::StringConst(c)) => Ok(
                EvalResult::BoolArray(str_pred_col(p, &col, &c)),
            ),
            _ => Err(EvalError::ArgumentKindMismatch { name: name.clone(), pos: 0 }),
        }
    } else if eq_lit(name, "to_string") {
        if args.len() != 1 {
            return Err(
                EvalError::ArityMismatch { name: name.clone(), got: args.len(), expected: 1 },
            );
        }
        let v = match eval_jmespath(&args[0], rb) {
            Ok(v) => v,
            Err(e) => {
                return Err(e);
            },
        };
        match v {
            EvalResult::Int32Array(col) => {
                let mut out: Vec<Option<String>> = Vec::new();
                let mut i: usize = 0;
                while i < col.data.len()
                    invariant
                        0 <= i <= col.data@.len(),
                        out@.len() == i,
                        forall|j: int|
                            0 <= j < i ==> crate::batch::opt_str_v(#[trigger] out@[j]) == (
                            match col@[j] {
                                Some(v2) => Some(dec_str(v2 as int)),
                                None => None,
                            }),
                    decreases col.data@.len() - i,
                {
                    let sv: Option<String> = match col.data[i] {
                        Some(v2) => Some(int_to_string(v2 as i64)),
                        None => None,
                    };
                    out.push(sv);
                    i += 1;
                }
                let oc = StringColumn { data: out };
                proof {
                    assert(oc@ =~= spec_func(name@, args@, rb@)->Ok_0->Utf8Col_0);
                }
                Ok(EvalResult::StringArray(oc))
            },
            EvalResult::Int64Array(col) => {
                let out = to_string_i64_col(&col.data);
                proof {
                    assert(out@ =~= spec_func(name@, args@, rb@)->Ok_0->Utf8Col_0);
                }
                Ok(EvalResult::StringArray(out))
            },
            EvalResult::IntConst(v2) => Ok(EvalResult::StringConst(int_to_string(v2 as i64))),
            _ => Err(EvalError::ArgumentKindMismatch { name: name.clone(), pos: 0 }),
        }
    } else if eq_lit(name, "min") {
        if args.len() != 1 {
            return Err(
                EvalError::ArityMismatch { name: name.clone(), got: args.len(), expected: 1 },
            );
        }
        let v = match eval_jmespath(&args[0], rb) {
            Ok(v) => v,
            Err(e) => {
                return Err(e);
            },
        };
        match v {
            EvalResult::Int32Array(col) => match min_i32_col(&col) {
                Some(m) => Ok(EvalResult::IntConst(m)),
                None => Err(EvalError::KernelError(String::new())),
            },
            EvalResult::Int64Array(col) => match min_i64_col(&col) {
                Some(m) => Ok(EvalResult::Int64Const(m)),
                None => Err(EvalError::KernelError(String::new())),
            },
            EvalResult::Float64Array(col) => match min_f64_col(&col) {
                Some(m) => Ok(EvalResult::FloatConst(m)),
                None => Err(EvalError::KernelError(String::new())),
            },
            _ => Err(EvalError::ArgumentKindMismatch { name: name.clone(), pos: 0 }),
        }
    } else if eq_lit(name, "max") {
        if args.len() != 1 {
            return Err(
                EvalError::ArityMismatch { name: name.clone(), got: args.len(), expected: 1 },
            );
        }
        let v = match eval_jmespath(&args[0], rb) {
            Ok(v) => v,
            Err(e) => {
                return Err(e);
            },
        };
        match v {
            EvalResult::Int32Array(col) => match max_i32_col(&col) {
                Some(m) => Ok(EvalResult::IntConst(m)),
                None => Err(EvalError::KernelError(String::new())),
            },
            EvalResult::Int64Array(col) => match max_i64_col(&col) {
                Some(m) => Ok(EvalResult::Int64Const(m)),
                None => Err(EvalError::KernelError(String::new())),
            },
            EvalResult::Float64Array(col) => match max_f64_col(&col) {
                Some(m) => Ok(EvalResult::FloatConst(m)),
                None => Err(EvalError::KernelError(String::new())),
            },
            _ => Err(EvalError::ArgumentKindMismatch { name: name.clone(), pos: 0 }),
        }
    } else if eq_lit(name, "sum") {
        if args.len() != 1 {
            return Err(
                EvalError::ArityMismatch { name: name.clone(), got: args.len(), expected: 1 },
            );
        }
        let v = match eval_jmespath(&args[0], rb) {
            Ok(v) => v,
            Err(e) => {
                return Err(e);
            },
        };
        match v {
            EvalResult::Int32Array(col) => Ok(EvalResult::IntConst(sum_i32_col(&col))),
            EvalResult::Int64Array(col) => Ok(EvalResult::Int64Const(sum_i64_col(&col))),
            EvalResult::Float64Array(_) => Err(EvalError::UnsupportedType),
            _ => Err(EvalError::ArgumentKindMismatch { name: name.clone(), pos: 0 }),
        }
    } else if eq_lit(name, "avg") {
        if args.len() != 1 {
            return Err(
                EvalError::ArityMismatch { name: name.clone(), got: args.len(), expected: 1 },
            );
        }
        let v = match eval_jmespath(&args[0], rb) {
            Ok(v) => v,
            Err(e) => {
                return Err(e);
            },
        };
        match v {
            EvalResult::Int32Array(col) => {
                let n = col.len();
                if n == 0 {
                    Ok(EvalResult::FloatConst(0))
                } else {
                    let s = sum_i32_col(&col);
                    Ok(EvalResult::FloatConst(i64_ratio_bits(s as i64, n as u64)))
                }
            },
            EvalResult::Int64Array(col) => {
                let n = col.len();
                if n == 0 {
                    Ok(EvalResult::FloatConst(0))
                } else {
                    let s = sum_i64_col(&col);
                    Ok(EvalResult::FloatConst(i64_ratio_bits(s, n as u64)))
                }
            },
            EvalResult::Float64Array(_) => Err(EvalError::UnsupportedType),
            _ => Err(EvalError::ArgumentKindMismatch { name: name.clone(), pos: 0 }),
        }
    } else if eq_lit(name, "abs") {
        if args.len() != 1 {
            return Err(
                EvalError::ArityMismatch { name: name.clone(), got: args.len(), expected: 1 },
            );
        }
        let v = match eval_jmespath(&args[0], rb) {
            Ok(v) => v,
            Err(e) => {
                return Err(e);
            },
        };
        match v {
            EvalResult::Int32Array(col) => Ok(EvalResult::Int32Array(abs_i32_col(&col))),
            EvalResult::Int64Array(col) => Ok(EvalResult::Int64Array(abs_i64_col(&col))),
            EvalResult::Float64Array(col) => Ok(EvalResult::Float64Array(abs_f64_col(&col))),
            EvalResult::IntConst(v2) => Ok(
                EvalResult::IntConst(
                    if v2 == i32::MIN {
                        i32::MIN
                    } else if v2 < 0 {
                        -v2
                    } else {
                        v2
                    },
                ),
            ),
            EvalResult::FloatConst(v2) => Ok(EvalResult::FloatConst(f64_bits_abs(v2))),
            _ => Err(EvalError::ArgumentKindMismatch { name: name.clone(), pos: 0 }),
        }
    } else if eq_lit(name, "keys") {
        let mut out: Vec<Option<String>> = Vec::new();
        let mut i: usize = 0;
        while i < rb.names.len()
            invariant
                0 <= i <= rb.names@.len(),
                out@.len() == i,
                forall|j: int|
                    0 <= j < i ==> crate::batch::opt_str_v(#[trigger] out@[j]) == Some(
                        rb@.names[j],
                    ),
            decreases rb.names@.len() - i,
        {
            proof {
                assert(rb@.names[i as int] == rb.names@[i as int]@);
            }
            out.push(Some(rb.names[i].clone()));
            i += 1;
        }
        let oc = StringColumn { data: out };
        proof {
            assert(oc@ =~= spec_func(name@, args@, rb@)->Ok_0->Utf8Col_0);
        }
        Ok(EvalResult::StringArray(oc))
    } else if eq_lit(name, "values") {
        Ok(EvalResult::IntConst(len_wrap_i32(rb.names.len())))
    } else if eq_lit(name, "type") {
        if args.len() != 1 {
            return Err(
                EvalError::ArityMismatch { name: name.clone(), got: args.len(), expected: 1 },
            );
        }
        let v = match eval_jmespath(&args[0], rb) {
            Ok(v) => v,
            Err(e) => {
                return Err(e);
            },
        };
        let t: &str = match &v {
            EvalResult::Int32Array(_) => "array<int32>",
            EvalResult::Int64Array(_) => "array<int64>",
            EvalResult::Float64Array(_) => "array<float64>",
            EvalResult::StringArray(_) => "array<string>",
            EvalResult::BoolArray(_) => "array<boolean>",
            EvalResult::ListArray(_) => "array<list>",
            EvalResult::RecordBatch(_) => "object",
            EvalResult::IntConst(_) => "number",
            EvalResult::Int64Const(_) => "number",
            EvalResult::FloatConst(_) => "number",
            EvalResult::BoolConst(_) => "boolean",
            EvalResult::StringConst(_) => "string",
        };
        Ok(EvalResult::StringConst(String::from_str(t)))
    } else if eq_lit(name, "sort_by") {
        if args.len() != 2 {
            return Err(
                EvalError::ArityMismatch { name: name.clone(), got: args.len(), expected: 2 },
            );
        }
        let d = match eval_jmespath(&args[0], rb) {
            Ok(v) => v,
            Err(e) => {
                return Err(e);
            },
        };
        let field: &String = match key_field_exec(&args[1]) {
            Some(f) => f,
            None => {
                return Err(EvalError::ArgumentKindMismatch { name: name.clone(), pos: 1 });
            },
        };
        let target: Batch = match d {
            EvalResult::RecordBatch(b2) => b2,
            _ => clone_batch(rb),
        };
        let i = match find_field_exec(&target.names, field) {
            Some(i) => i,
            None => {
                return Err(EvalError::UnknownField(field.clone()));
            },
        };
        proof {
            assert(target@.cols[i as int] == target.cols@[i as int]@);
            assert(target@.cols[i as int].len() == target@.nrows);
        }
        let keys = match col_sort_keys(&target.cols[i]) {
            Some(keys) => keys,
            None => {
                return Err(EvalError::KernelError(String::new()));
            },
        };
        let perm = sort_indices(&keys);
        let out = take_rows(&target, &perm);
        Ok(EvalResult::RecordBatch(out))
    } else if eq_lit(name, "group_by") {
        if args.len() != 2 {
            return Err(
                EvalError::ArityMismatch { name: name.clone(), got: args.len(), expected: 2 },
            );
        }
        let d = match eval_jmespath(&args[0], rb) {
            Ok(v) => v,
            Err(e) => {
                return Err(e);
            },
        };
        let field: &String = match key_field_exec(&args[1]) {
            Some(f) => f,
            None => {
                return Err(EvalError::ArgumentKindMismatch { name: name.clone(), pos: 1 });
            },
        };
        let target: Batch = match d {
            EvalResult::RecordBatch(b2) => b2,
            _ => clone_batch(rb),
        };
        let i = match find_field_exec(&target.names, field) {
            Some(i) => i,
            None => {
                return Err(EvalError::UnknownField(field.clone()));
            },
        };
        proof {
            assert(target@.cols[i as int] == target.cols@[i as int]@);
        }
        match &target.cols[i] {
            Column::Int32(col) => Ok(EvalResult::Int32Array(group_i32(col))),
            Column::Int64(col) => Ok(EvalResult::Int64Array(group_i64(col))),
            Column::Utf8(col) => Ok(EvalResult::StringArray(group_str(col))),
            _ => Err(EvalError::UnsupportedType),
        }
    } else if eq_lit(name, "reverse") {
        if args.len() != 1 {
            return Err(
                EvalError::ArityMismatch { name: name.clone(), got: args.len(), expected: 1 },
            );
        }
        let v = match eval_jmespath(&args[0], rb) {
            Ok(v) => v,
            Err(e) => {
                return Err(e);
            },
        };
        match v {
            EvalResult::Int32Array(col) => {
                let idxs = reverse_indices(col.len());
                Ok(
                    EvalResult::Int32Array(
                        Int32Column { data: crate::kernels::select_copy(&col.data, &idxs) },
                    ),
                )
            },
            EvalResult::Int64Array(col) => {
                let idxs = reverse_indices(col.len());
                Ok(
                    EvalResult::Int64Array(
                        Int64Column { data: crate::kernels::select_copy(&col.data, &idxs) },
                    ),
                )
            },
            EvalResult::Float64Array(col) => {
                let idxs = reverse_indices(col.len());
                Ok(
                    EvalResult::Float64Array(
                        Float64Column { data: crate::kernels::select_copy(&col.data, &idxs) },
                    ),
                )
            },
            EvalResult::StringArray(col) => {
                let idxs = reverse_indices(col.len());
                Ok(EvalResult::StringArray(crate::kernels::select_strings(&col.data, &idxs)))
            },
            EvalResult::BoolArray(col) => {
                let idxs = reverse_indices(col.len());
                Ok(
                    EvalResult::BoolArray(
                        BoolColumn { data: crate::kernels::select_copy(&col.data, &idxs) },
                    ),
                )
            },
            EvalResult::ListArray(col) => {
                let idxs = reverse_indices(col.len());
                Ok(EvalResult::ListArray(crate::kernels::select_lists(&col.data, &idxs)))
            },
            EvalResult::RecordBatch(b2) => {
                let idxs = reverse_indices(b2.num_rows());
                Ok(EvalResult::RecordBatch(take_rows(&b2, &idxs)))
            },
            _ => Err(EvalError::ArgumentKindMismatch { name: name.clone(), pos: 0 }),
        }
    } else if eq_lit(name, "not_null") {
        if args.len() != 1 {
            return Err(
                EvalError::ArityMismatch { name: name.clone(), got: args.len(), expected: 1 },
            );
        }
        let v = match eval_jmespath(&args[0], rb) {
            Ok(v) => v,
            Err(e) => {
                return Err(e);
            },
        };
        let mask: BoolColumn = match &v {
            EvalResult::Int32Array(col) => validity_vec(&col.data),
            EvalResult::Int64Array(col) => validity_vec(&col.data),
            EvalResult::Float64Array(col) => validity_vec(&col.data),
            EvalResult::StringArray(col) => validity_vec(&col.data),
            EvalResult::BoolArray(col) => validity_vec(&col.data),
            EvalResult::ListArray(col) => validity_vec(&col.data),
            _ => {
                return Err(EvalError::ArgumentKindMismatch { name: name.clone(), pos: 0 });
            },
        };
        proof {
            assert(mask@ =~= validity_mask_v(v@)->Some_0);
        }
        if mask.len() == rb.num_rows() {
            Ok(EvalResult::RecordBatch(filter_record_batch_fn(rb, &mask)))
        } else {
            Err(EvalError::KernelError(String::new()))
        }
    } else {
        Err(EvalError::UnknownFunction(name.clone()))
    }
}

/// The `&field` single-segment key of a higher-order argument, executably.
fn key_field_exec(e: &JmesPathExpr) -> (r: Option<&String>)
    ensures
        match r {
            Some(f) => key_field_of(*e) == Some(f@),
            None => key_field_of(*e) is None,
        },
{
    match e {
        JmesPathExpr::ExprRef(inner) => match &**inner {
            JmesPathExpr::Path(parts) => {
                if parts.len() == 1 {
                    Some(&parts[0])
                } else {
                    None
                }
            },
            _ => None,
        },
        _ => None,
    }
}

/// Sorted unique non-null values of an `i32` key column.
#[verifier::loop_isolation(false)]
fn group_i32(col: &Int32Column) -> (r: Int32Column)
    ensures
        Ok::<ValueV, ErrV>(ValueV::Int32Col(r@)) == spec_group(ColV::Int32(col@)),
{
    let mut vals: Vec<i32> = Vec::new();
    let mut i: usize = 0;
    while i < col.data.len()
        invariant
            0 <= i <= col@.len(),
            vals@ == valid_values(col@.take(i as int)),
        decreases col@.len() - i,
    {
        match col.data[i] {
            Some(v) => vals.push(v),
            None => {},
        }
        proof {
            assert(col@.take(i + 1).drop_last() =~= col@.take(i as int));
            assert(col@.take(i + 1).last() == col@[i as int]);
        }
        i += 1;
    }
    proof {
        assert(col@.take(col@.len() as int) =~= col@);
    }
    let mut keys: Vec<SortKey> = Vec::new();
    let mut j: usize = 0;
    let ghost rks = Seq::new(vals@.len(), |i2: int| RankV::Int(vals@[i2] as int));
    while j < vals.len()
        invariant
            0 <= j <= vals@.len(),
            keys@.len() == j,
            forall|k: int| 0 <= k < j ==> #[trigger] keys@[k]@ == rks[k],
        decreases vals@.len() - j,
    {
        keys.push(SortKey::Int(vals[j] as i64));
        j += 1;
    }
    proof {
        assert(ranks_of(keys@) =~= rks);
    }
    let perm = sort_indices(&keys);
    let sorted = select_vals_i32(&vals, &perm);
    let ghost sortedv = select_seq(vals@, sorted_perm_of(rks));
    proof {
        assert(sorted@ == sortedv);
    }
    let mut out: Vec<Option<i32>> = Vec::new();
    let mut k: usize = 0;
    while k < sorted.len()
        invariant
            0 <= k <= sorted@.len(),
            sorted@ == sortedv,
            out@.len() == dedup_seq(sortedv.take(k as int)).len(),
            forall|t: int|
                0 <= t < out@.len() ==> #[trigger] out@[t] == Some(
                    dedup_seq(sortedv.take(k as int))[t],
                ),
        decreases sorted@.len() - k,
    {
        let push = k == 0 || sorted[k] != sorted[k - 1];
        if push {
            out.push(Some(sorted[k]));
        }
        proof {
            assert(sortedv.take(k + 1).drop_last() =~= sortedv.take(k as int));
            assert(sortedv.take(k + 1).last() == sortedv[k as int]);
            if k > 0 {
                assert(sortedv.take(k + 1)[k - 1] == sortedv[k - 1]);
            }
        }
        k += 1;
    }
    proof {
        assert(sortedv.take(sortedv.len() as int) =~= sortedv);
    }
    let oc = Int32Column { data: out };
    proof {
        assert(oc@ =~= dedup_seq(sortedv).map_values(|v: i32| Some(v)));
    }
    oc
}

/// Sorted unique non-null values of an `i64` key column.
#[verifier::loop_isolation(false)]
fn group_i64(col: &Int64Column) -> (r: Int64Column)
    ensures
        Ok::<ValueV, ErrV>(ValueV::Int64Col(r@)) == spec_group(ColV::Int64(col@)),
{
    let mut vals: Vec<i64> = Vec::new();
    let mut i: usize = 0;
    while i < col.data.len()
        invariant
            0 <= i <= col@.len(),
            vals@ == valid_values(col@.take(i as int)),
        decreases col@.len() - i,
    {
        match col.data[i] {
            Some(v) => vals.push(v),
            None => {},
        }
        proof {
            assert(col@.take(i + 1).drop_last() =~= col@.take(i as int));
            assert(col@.take(i + 1).last() == col@[i as int]);
        }
        i += 1;
    }
    proof {
        assert(col@.take(col@.len() as int) =~= col@);
    }
    let mut keys: Vec<SortKey> = Vec::new();
    let mut j: usize = 0;
    let ghost rks = Seq::new(vals@.len(), |i2: int| RankV::Int(vals@[i2] as int));
    while j < vals.len()
        invariant
            0 <= j <= vals@.len(),
            keys@.len() == j,
            forall|k: int| 0 <= k < j ==> #[trigger] keys@[k]@ == rks[k],
        decreases vals@.len() - j,
    {
        keys.push(SortKey::Int(vals[j]));
        j += 1;
    }
    proof {
        assert(ranks_of(keys@) =~= rks);
    }
    let perm = sort_indices(&keys);
    let sorted = select_vals_i64(&vals, &perm);
    let ghost sortedv = select_seq(vals@, sorted_perm_of(rks));
    proof {
        assert(sorted@ == sortedv);
    }
    let mut out: Vec<Option<i64>> = Vec::new();
    let mut k: usize = 0;
    while k < sorted.len()
        invariant
            0 <= k <= sorted@.len(),
            sorted@ == sortedv,
            out@.len() == dedup_seq(sortedv.take(k as int)).len(),
            forall|t: int|
                0 <= t < out@.len() ==> #[trigger] out@[t] == Some(
                    dedup_seq(sortedv.take(k as int))[t],
                ),
        decreases sorted@.len() - k,
    {
        let push = k == 0 || sorted[k] != sorted[k - 1];
        if push {
            out.push(Some(sorted[k]));
        }
        proof {
            assert(sortedv.take(k + 1).drop_last() =~= sortedv.take(k as int));
            assert(sortedv.take(k + 1).last() == sortedv[k as int]);
            if k > 0 {
                assert(sortedv.take(k + 1)[k - 1] == sortedv[k - 1]);
            }
        }
        k += 1;
    }
    proof {
        assert(sortedv.take(sortedv.len() as int) =~= sortedv);
    }
    let oc = Int64Column { data: out };
    proof {
        assert(oc@ =~= dedup_seq(sortedv).map_values(|v: i64| Some(v)));
    }
    oc
}

/// Sorted unique non-null values of a string key column.
#[verifier::rlimit(50)]
#[verifier::loop_isolation(false)]
fn group_str(col: &StringColumn) -> (r: StringColumn)
    ensures
        Ok::<ValueV, ErrV>(ValueV::Utf8Col(r@)) == spec_group(ColV::Utf8(col@)),
{
    let mut vals: Vec<String> = Vec::new();
    let mut i: usize = 0;
    while i < col.data.len()
        invariant
            0 <= i <= col.data@.len(),
            vals.deep_view() == valid_values(col@.take(i as int)),
        decreases col.data@.len() - i,
    {
        let ghost old_vals = vals.deep_view();
        match &col.data[i] {
            Some(v) => vals.push(v.clone()),
            None => {},
        }
        proof {
            assert(col@.take(i + 1).drop_last() =~= col@.take(i as int));
            assert(col@.take(i + 1).last() == col@[i as int]);
            match col@[i as int] {
                Some(sv) => {
                    assert(vals.deep_view() =~= old_vals.push(sv));
                },
                None => {
                    assert(vals.deep_view() =~= old_vals);
                },
            }
        }
        i += 1;
    }
    proof {
        assert(col@.take(col@.len() as int) =~= col@);
    }
    let ghost valsv = valid_values(col@);
    let mut keys: Vec<SortKey> = Vec::new();
    let mut j: usize = 0;
    let ghost rks = Seq::new(valsv.len(), |i2: int| RankV::Str(valsv[i2]));
    while j < vals.len()
        invariant
            0 <= j <= vals@.len(),
            keys@.len() == j,
            vals.deep_view() == valsv,
            rks == Seq::new(valsv.len(), |i2: int| RankV::Str(valsv[i2])),
            forall|k: int| 0 <= k < j ==> #[trigger] keys@[k]@ == rks[k],
        decreases vals@.len() - j,
    {
        proof {
            assert(vals.deep_view()[j as int] == vals@[j as int]@);
        }
        keys.push(SortKey::Str(vals[j].clone()));
        j += 1;
    }
    proof {
        assert(ranks_of(keys@) =~= rks);
    }
    let perm = sort_indices(&keys);
    let ghost sortedv = select_seq(valsv, sorted_perm_of(rks));
    let mut sorted: Vec<String> = Vec::new();
    let mut t: usize = 0;
    while t < perm.len()
        invariant
            0 <= t <= perm@.len(),
            sorted@.len() == t,
            forall|u: int| 0 <= u < perm@.len() ==> #[trigger] perm@[u] < vals@.len(),
            vals.deep_view() == valsv,
            to_int_idxs(perm@) == sorted_perm_of(rks),
            forall|u: int| 0 <= u < t ==> #[trigger] sorted@[u]@ == sortedv[u],
        decreases perm@.len() - t,
    {
        proof {
            assert(vals.deep_view()[perm@[t as int] as int] == vals@[perm@[t as int] as int]@);
        }
        sorted.push(vals[perm[t]].clone());
        t += 1;
    }
    proof {
        assert(sorted.deep_view() =~= sortedv);
    }
    let mut out: Vec<Option<String>> = Vec::new();
    let mut k: usize = 0;
    while k < sorted.len()
        invariant
            0 <= k <= sorted@.len(),
            sorted.deep_view() == sortedv,
            out@.len() == dedup_seq(sortedv.take(k as int)).len(),
            forall|u: int|
                0 <= u < out@.len() ==> crate::batch::opt_str_v(#[trigger] out@[u]) == Some(
                    dedup_seq(sortedv.take(k as int))[u],
                ),
        decreases sorted@.len() - k,
    {
        proof {
            assert(sorted.deep_view()[k as int] == sorted@[k as int]@);
            if k > 0 {
                assert(sorted.deep_view()[k - 1] == sorted@[k - 1]@);
            }
        }
        let push = k == 0 || !(sorted[k].eq(&sorted[k - 1]));
        if push {
            out.push(Some(sorted[k].clone()));
        }
        proof {
            assert(sortedv.take(k + 1).drop_last() =~= sortedv.take(k as int));
            assert(sortedv.take(k + 1).last() == sortedv[k as int]);
            if k > 0 {
                assert(sortedv.take(k + 1)[k - 1] == sortedv[k - 1]);
            }
        }
        k += 1;
    }
    proof {
        assert(sortedv.take(sortedv.len() as int) =~= sortedv);
    }
    let oc = StringColumn { data: out };
    proof {
        assert(oc@ =~= dedup_seq(sortedv).map_values(|v: Seq<char>| Some(v)));
    }
    oc
}

fn select_vals_i32(vals: &Vec<i32>, idxs: &Vec<usize>) -> (r: Vec<i32>)
    requires
        forall|i: int| 0 <= i < idxs@.len() ==> #[trigger] idxs@[i] < vals@.len(),
    ensures
        r@ == select_seq(vals@, to_int_idxs(idxs@)),
{
    let mut out: Vec<i32> = Vec::new();
    let mut i: usize = 0;
    while i < idxs.len()
        invariant
            0 <= i <= idxs@.len(),
            out@.len() == i,
            forall|j: int| 0 <= j < idxs@.len() ==> #[trigger] idxs@[j] < vals@.len(),
            forall|j: int| 0 <= j < i ==> out@[j] == vals@[idxs@[j] as int],
        decreases idxs@.len() - i,
    {
        out.push(vals[idxs[i]]);
        i += 1;
    }
    proof {
        assert(out@ =~= select_seq(vals@, to_int_idxs(idxs@)));
    }
    out
}

fn select_vals_i64(vals: &Vec<i64>, idxs: &Vec<usize>) -> (r: Vec<i64>)
    requires
        forall|i: int| 0 <= i < idxs@.len() ==> #[trigger] idxs@[i] < vals@.len(),
    ensures
        r@ == select_seq(vals@, to_int_idxs(idxs@)),
{
    let mut out: Vec<i64> = Vec::new();
    let mut i: usize = 0;
    while i < idxs.len()
        invariant
            0 <= i <= idxs@.len(),
            out@.len() == i,
            forall|j: int| 0 <= j < idxs@.len() ==> #[trigger] idxs@[j] < vals@.len(),
            forall|j: int| 0 <= j < i ==> out@[j] == vals@[idxs@[j] as int],
        decreases idxs@.len() - i,
    {
        out.push(vals[idxs[i]]);
        i += 1;
    }
    proof {
        assert(out@ =~= select_seq(vals@, to_int_idxs(idxs@)));
    }
    out
}


} // verus!
