//! A vectorized JMESPath-style query engine over columnar record batches.
//!
//! A record batch is a schema (ordered, named fields) plus a set of aligned,
//! typed columns of equal length. Expressions such as `age > 25 && active`
//! are parsed into an abstract syntax tree and evaluated column-at-a-time:
//! a comparison yields a boolean mask over the whole batch, a filter applies
//! such a mask to every column at once, and `sort_by` permutes whole rows.
use vstd::prelude::*;

pub mod ast;
pub mod batch;
pub mod columns;
pub mod errors;
pub mod eval;
pub mod float_bits;
pub mod kernels;
pub mod laws;
pub mod parser;
pub mod reduce;
pub mod resolve;
pub mod slice;
pub mod sort;
pub mod strops;
pub mod value;

pub use ast::JmesPathExpr;
pub use batch::{Batch, BoolColumn, Column, Float64Column, Int32Column, Int64Column, ListColumn,
    StringColumn, StructColumn};
pub use columns::{get_int32_column, get_list_array};
pub use errors::{EvalError, SyntaxError};
pub use eval::eval_jmespath;
pub use kernels::filter_record_batch_fn;
pub use parser::parse_jmespath;
pub use slice::{normalize_index, slice_array};
pub use value::EvalResult;

verus! {

/// Comparison operators usable between a column and a scalar, or two scalars.
#[derive(Debug, Clone, Copy, PartialEq, Eq, Structural)]
pub enum CompareOp {
    Eq,
    Ne,
    Gt,
    Lt,
    Gte,
    Lte,
}

/// Boolean combinators; `Not` is unary, `And` and `Or` are binary.
#[derive(Debug, Clone, Copy, PartialEq, Eq, Structural)]
pub enum LogicOp {
    And,
    Or,
    Not,
}

} // verus!
