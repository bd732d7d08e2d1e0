//! The value model: the tagged result kind returned by every evaluation
//! step, and its mathematical view.
use vstd::prelude::*;

use crate::batch::{Batch, BatchV, BoolColumn, Float64Column, Int32Column, Int64Column, ListColumn,
    StringColumn};

verus! {

/// The result of one evaluation step: a typed column, a scalar, or a record
/// batch. `FloatConst` carries IEEE-754 bits (see `float_bits`).
#[derive(Debug)]
pub enum EvalResult {
    Int32Array(Int32Column),
    Int64Array(Int64Column),
    Float64Array(Float64Column),
    StringArray(StringColumn),
    BoolArray(BoolColumn),
    ListArray(ListColumn),
    RecordBatch(Batch),
    IntConst(i32),
    Int64Const(i64),
    FloatConst(u64),
    BoolConst(bool),
    StringConst(String),
}

/// Mathematical model of an evaluation result.
pub enum ValueV {
    Int32Col(Seq<Option<i32>>),
    Int64Col(Seq<Option<i64>>),
    Float64Col(Seq<Option<u64>>),
    Utf8Col(Seq<Option<Seq<char>>>),
    BoolCol(Seq<Option<bool>>),
    ListCol(Seq<Option<Seq<i64>>>),
    Batch(BatchV),
    IntConst(i32),
    Int64Const(i64),
    FloatConst(u64),
    BoolConst(bool),
    StrConst(Seq<char>),
}

impl View for EvalResult {
    type V = ValueV;

    open spec fn view(&self) -> ValueV {
        match self {
            EvalResult::Int32Array(c) => ValueV::Int32Col(c@),
            EvalResult::Int64Array(c) => ValueV::Int64Col(c@),
            EvalResult::Float64Array(c) => ValueV::Float64Col(c@),
            EvalResult::StringArray(c) => ValueV::Utf8Col(c@),
            EvalResult::BoolArray(c) => ValueV::BoolCol(c@),
            EvalResult::ListArray(c) => ValueV::ListCol(c@),
            EvalResult::RecordBatch(b) => ValueV::Batch(b@),
            EvalResult::IntConst(v) => ValueV::IntConst(*v),
            EvalResult::Int64Const(v) => ValueV::Int64Const(*v),
            EvalResult::FloatConst(v) => ValueV::FloatConst(*v),
            EvalResult::BoolConst(v) => ValueV::BoolConst(*v),
            EvalResult::StringConst(s) => ValueV::StrConst(s@),
        }
    }
}

} // verus!
