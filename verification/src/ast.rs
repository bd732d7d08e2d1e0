//! The expression abstract syntax tree produced by the parser and consumed by
//! the evaluator.
use vstd::prelude::*;

use crate::CompareOp;
use crate::LogicOp;

verus! {

/// A JMESPath-style expression. The tree owns its children exclusively.
///
/// `ConstFloat` carries the IEEE-754 bit pattern of the literal's value; the
/// parser computes it from the decimal digits by exact integer rounding (see
/// `float_bits`).
#[derive(Debug)]
pub enum JmesPathExpr {
    Path(Vec<String>),
    Filter(Box<JmesPathExpr>, Box<JmesPathExpr>),
    Compare { op: CompareOp, lhs: Box<JmesPathExpr>, rhs: Box<JmesPathExpr> },
    Logic { op: LogicOp, lhs: Box<JmesPathExpr>, rhs: Option<Box<JmesPathExpr>> },
    Func { name: String, args: Vec<JmesPathExpr> },
    Projection(Box<JmesPathExpr>, Box<JmesPathExpr>),
    Slice {
        base: Box<JmesPathExpr>,
        start: Option<i32>,
        stop: Option<i32>,
        step: Option<i32>,
    },
    Index(Box<JmesPathExpr>, i32),
    Pipe(Box<JmesPathExpr>, Box<JmesPathExpr>),
    Flatten(Box<JmesPathExpr>),
    MultiSelectHash(Vec<(String, JmesPathExpr)>),
    MultiSelectList(Vec<JmesPathExpr>),
    CurrentNode,
    ExprRef(Box<JmesPathExpr>),
    ConstInt(i32),
    ConstFloat(u64),
    ConstBool(bool),
    ConstString(String),
}

/// Mathematical model of an expression tree: the same shape as
/// `JmesPathExpr` with every carried value replaced by its model.
pub enum AstV {
    Path(Seq<Seq<char>>),
    Filter(Box<AstV>, Box<AstV>),
    Compare { op: crate::CompareOp, lhs: Box<AstV>, rhs: Box<AstV> },
    Logic { op: crate::LogicOp, lhs: Box<AstV>, rhs: Option<Box<AstV>> },
    Func { name: Seq<char>, args: Seq<AstV> },
    Projection(Box<AstV>, Box<AstV>),
    Slice { base: Box<AstV>, start: Option<i32>, stop: Option<i32>, step: Option<i32> },
    Index(Box<AstV>, i32),
    Pipe(Box<AstV>, Box<AstV>),
    Flatten(Box<AstV>),
    MultiSelectHash(Seq<(Seq<char>, AstV)>),
    MultiSelectList(Seq<AstV>),
    CurrentNode,
    ExprRef(Box<AstV>),
    ConstInt(i32),
    ConstFloat(u64),
    ConstBool(bool),
    ConstString(Seq<char>),
}

/// The models of a function's arguments.
pub open spec fn args_v(args: Seq<JmesPathExpr>) -> Seq<AstV>
    decreases args,
{
    Seq::new(
        args.len(),
        |i: int|
            if 0 <= i < args.len() {
                ast_v(args[i])
            } else {
                AstV::CurrentNode
            },
    )
}

/// The models of a multi-select hash's pairs.
pub open spec fn pairs_v(pairs: Seq<(String, JmesPathExpr)>) -> Seq<(Seq<char>, AstV)>
    decreases pairs,
{
    Seq::new(
        pairs.len(),
        |i: int|
            if 0 <= i < pairs.len() {
                (pairs[i].0@, ast_v(pairs[i].1))
            } else {
                (Seq::empty(), AstV::CurrentNode)
            },
    )
}

/// The models of a multi-select list's items.
pub open spec fn items_v(items: Seq<JmesPathExpr>) -> Seq<AstV>
    decreases items,
{
    Seq::new(
        items.len(),
        |i: int|
            if 0 <= i < items.len() {
                ast_v(items[i])
            } else {
                AstV::CurrentNode
            },
    )
}

/// The model of an expression tree.
pub open spec fn ast_v(e: JmesPathExpr) -> AstV
    decreases e,
{
    match e {
        JmesPathExpr::Path(parts) => AstV::Path(parts.deep_view()),
        JmesPathExpr::Filter(b, p) => AstV::Filter(Box::new(ast_v(*b)), Box::new(ast_v(*p))),
        JmesPathExpr::Compare { op, lhs, rhs } => AstV::Compare {
            op,
            lhs: Box::new(ast_v(*lhs)),
            rhs: Box::new(ast_v(*rhs)),
        },
        JmesPathExpr::Logic { op, lhs, rhs } => AstV::Logic {
            op,
            lhs: Box::new(ast_v(*lhs)),
            rhs: match rhs {
                Some(r) => Some(Box::new(ast_v(*r))),
                None => None,
            },
        },
        JmesPathExpr::Func { name, args } => AstV::Func { name: name@, args: args_v(args@) },
        JmesPathExpr::Projection(b, fe) => AstV::Projection(
            Box::new(ast_v(*b)),
            Box::new(ast_v(*fe)),
        ),
        JmesPathExpr::Slice { base, start, stop, step } => AstV::Slice {
            base: Box::new(ast_v(*base)),
            start,
            stop,
            step,
        },
        JmesPathExpr::Index(b, i) => AstV::Index(Box::new(ast_v(*b)), i),
        JmesPathExpr::Pipe(l, r) => AstV::Pipe(Box::new(ast_v(*l)), Box::new(ast_v(*r))),
        JmesPathExpr::Flatten(b) => AstV::Flatten(Box::new(ast_v(*b))),
        JmesPathExpr::MultiSelectHash(pairs) => AstV::MultiSelectHash(pairs_v(pairs@)),
        JmesPathExpr::MultiSelectList(items) => AstV::MultiSelectList(items_v(items@)),
        JmesPathExpr::CurrentNode => AstV::CurrentNode,
        JmesPathExpr::ExprRef(inner) => AstV::ExprRef(Box::new(ast_v(*inner))),
        JmesPathExpr::ConstInt(v) => AstV::ConstInt(v),
        JmesPathExpr::ConstFloat(v) => AstV::ConstFloat(v),
        JmesPathExpr::ConstBool(v) => AstV::ConstBool(v),
        JmesPathExpr::ConstString(s) => AstV::ConstString(s@),
    }
}

/// Shape invariants of a parsed tree: `Not` is unary and `And`/`Or` binary,
/// everywhere in the tree.
pub open spec fn ast_ok(e: JmesPathExpr) -> bool
    decreases e,
{
    match e {
        JmesPathExpr::Path(_) => true,
        JmesPathExpr::Filter(base, pred) => ast_ok(*base) && ast_ok(*pred),
        JmesPathExpr::Compare { op: _, lhs, rhs } => ast_ok(*lhs) && ast_ok(*rhs),
        JmesPathExpr::Logic { op, lhs, rhs } => ast_ok(*lhs) && (match rhs {
            Some(r) => !(op is Not) && ast_ok(*r),
            None => op is Not,
        }),
        JmesPathExpr::Func { name: _, args } => forall|i: int|
            0 <= i < args@.len() ==> ast_ok(#[trigger] args@[i]),
        JmesPathExpr::Projection(base, fe) => ast_ok(*base) && ast_ok(*fe),
        JmesPathExpr::Slice { base, start: _, stop: _, step: _ } => ast_ok(*base),
        JmesPathExpr::Index(base, _) => ast_ok(*base),
        JmesPathExpr::Pipe(l, r) => ast_ok(*l) && ast_ok(*r),
        JmesPathExpr::Flatten(base) => ast_ok(*base),
        JmesPathExpr::MultiSelectHash(pairs) => forall|i: int|
            0 <= i < pairs@.len() ==> ast_ok((#[trigger] pairs@[i]).1),
        JmesPathExpr::MultiSelectList(items) => forall|i: int|
            0 <= i < items@.len() ==> ast_ok(#[trigger] items@[i]),
        JmesPathExpr::CurrentNode => true,
        JmesPathExpr::ExprRef(inner) => ast_ok(*inner),
        JmesPathExpr::ConstInt(_) => true,
        JmesPathExpr::ConstFloat(_) => true,
        JmesPathExpr::ConstBool(_) => true,
        JmesPathExpr::ConstString(_) => true,
    }
}

} // verus!
