//! Field lookup by name, dotted-path resolution into (possibly struct)
//! columns, column cloning, and extraction of sort keys from a column.
use vstd::prelude::*;

use crate::batch::{Batch, BatchV, BoolColumn, ColV, Column, Float64Column, Int32Column,
    Int64Column, ListColumn, StringColumn, StructColumn, leaf_v, opt_list_v, opt_str_v};
use crate::errors::{ErrV, EvalError};
use crate::float_bits::{F64_MAG_MASK, F64_SIGN_BIT};
use crate::kernels::clone_string_vec;
use crate::sort::{RankV, SortKey, ranks_of};

verus! {

/// The index of the first field called `name`, or `-1`.
pub open spec fn find_field(names: Seq<Seq<char>>, name: Seq<char>) -> int
    decreases names.len(),
{
    if names.len() == 0 {
        -1
    } else if names[0] == name {
        0
    } else {
        let r = find_field(names.drop_first(), name);
        if r < 0 {
            -1
        } else {
            r + 1
        }
    }
}

/// `find_field` returns the first matching index, or `-1` when none matches.
pub proof fn lemma_find_field(names: Seq<Seq<char>>, name: Seq<char>)
    ensures
        find_field(names, name) >= 0 ==> 0 <= find_field(names, name) < names.len() && names[
            find_field(names, name)] == name && (forall|j: int|
            0 <= j < find_field(names, name) ==> #[trigger] names[j] != name),
        find_field(names, name) < 0 ==> forall|j: int|
            0 <= j < names.len() ==> #[trigger] names[j] != name,
    decreases names.len(),
{
    if names.len() > 0 && names[0] != name {
        lemma_find_field(names.drop_first(), name);
        let r = find_field(names.drop_first(), name);
        if r >= 0 {
            assert forall|j: int| 0 <= j < r + 1 implies #[trigger] names[j] != name by {
                if j > 0 {
                    assert(names[j] == names.drop_first()[j - 1]);
                }
            }
        } else {
            assert forall|j: int| 0 <= j < names.len() implies #[trigger] names[j] != name by {
                if j > 0 {
                    assert(names[j] == names.drop_first()[j - 1]);
                }
            }
        }
    }
}

/// Looks a name up in a schema, returning the first matching position.
#[verifier::loop_isolation(false)]
pub fn find_field_exec(names: &Vec<String>, name: &String) -> (r: Option<usize>)
    ensures
        match r {
            Some(i) => find_field(names.deep_view(), name@) == i as int && i < names@.len(),
            None => find_field(names.deep_view(), name@) < 0,
        },
{
    let mut i: usize = 0;
    while i < names.len()
        invariant
            0 <= i <= names@.len(),
            forall|j: int| 0 <= j < i ==> #[trigger] names.deep_view()[j] != name@,
        decreases names@.len() - i,
    {
        if names[i].eq(name) {
            proof {
                lemma_find_field(names.deep_view(), name@);
                assert(names.deep_view()[i as int] == name@);
            }
            return Some(i);
        }
        proof {
            assert(names.deep_view()[i as int] == names@[i as int]@);
        }
        i += 1;
    }
    proof {
        lemma_find_field(names.deep_view(), name@);
    }
    None
}

/// Resolves a dotted path: the first segment names a top-level column, a
/// second segment a child of a struct column; deeper nesting is out of
/// scope.
pub open spec fn resolve_path(b: BatchV, parts: Seq<Seq<char>>) -> Result<ColV, ErrV> {
    if parts.len() == 0 {
        Err(ErrV::UnknownField(Seq::empty()))
    } else {
        let i = find_field(b.names, parts[0]);
        if i < 0 {
            Err(ErrV::UnknownField(parts[0]))
        } else {
            let c = b.cols[i];
            if parts.len() == 1 {
                Ok(c)
            } else {
                match c {
                    ColV::Struct(cnames, children, _) => {
                        let j = find_field(cnames, parts[1]);
                        if j < 0 {
                            Err(ErrV::UnknownField(parts[1]))
                        } else if parts.len() == 2 {
                            Ok(children[j])
                        } else {
                            Err(ErrV::NotAStruct(parts[1]))
                        }
                    },
                    _ => Err(ErrV::NotAStruct(parts[0])),
                }
            }
        }
    }
}

fn clone_opt_copy<T: Copy>(v: &Vec<Option<T>>) -> (r: Vec<Option<T>>)
    ensures
        r@ == v@,
{
    let mut out: Vec<Option<T>> = Vec::new();
    let mut i: usize = 0;
    while i < v.len()
        invariant
            0 <= i <= v@.len(),
            out@.len() == i,
            forall|j: int| 0 <= j < i ==> out@[j] == v@[j],
        decreases v@.len() - i,
    {
        out.push(v[i]);
        i += 1;
    }
    proof {
        assert(out@ =~= v@);
    }
    out
}

fn clone_strings_col(c: &StringColumn) -> (r: StringColumn)
    ensures
        r@ == c@,
{
    let mut out: Vec<Option<String>> = Vec::new();
    let mut i: usize = 0;
    while i < c.data.len()
        invariant
            0 <= i <= c.data@.len(),
            out@.len() == i,
            forall|j: int| 0 <= j < i ==> opt_str_v(#[trigger] out@[j]) == opt_str_v(c.data@[j]),
        decreases c.data@.len() - i,
    {
        let v: Option<String> = match &c.data[i] {
            Some(s) => Some(s.clone()),
            None => None,
        };
        out.push(v);
        i += 1;
    }
    let r = StringColumn { data: out };
    proof {
        assert(r@ =~= c@);
    }
    r
}

fn clone_lists_col(c: &ListColumn) -> (r: ListColumn)
    ensures
        r@ == c@,
{
    let mut out: Vec<Option<Vec<i64>>> = Vec::new();
    let mut i: usize = 0;
    while i < c.data.len()
        invariant
            0 <= i <= c.data@.len(),
            out@.len() == i,
            forall|j: int| 0 <= j < i ==> opt_list_v(#[trigger] out@[j]) == opt_list_v(c.data@[j]),
        decreases c.data@.len() - i,
    {
        let v: Option<Vec<i64>> = match &c.data[i] {
            Some(l) => Some(crate::kernels::clone_i64_vec(l)),
            None => None,
        };
        out.push(v);
        i += 1;
    }
    let r = ListColumn { data: out };
    proof {
        assert(r@ =~= c@);
    }
    r
}

/// Clones a non-struct column; a struct column keeps its view (whose
/// children one level down are not part of a child's own view).
pub fn clone_leaf_column(c: &Column) -> (r: Column)
    ensures
        leaf_v(r) == leaf_v(*c),
        r is Struct == *c is Struct,
{
    match c {
        Column::Int32(col) => Column::Int32(Int32Column { data: clone_opt_copy(&col.data) }),
        Column::Int64(col) => Column::Int64(Int64Column { data: clone_opt_copy(&col.data) }),
        Column::Float64(col) => Column::Float64(Float64Column { data: clone_opt_copy(&col.data) }),
        Column::Bool(col) => Column::Bool(BoolColumn { data: clone_opt_copy(&col.data) }),
        Column::Utf8(col) => Column::Utf8(clone_strings_col(col)),
        Column::List(col) => Column::List(clone_lists_col(col)),
        Column::Struct(sc) => Column::Struct(
            StructColumn {
                names: clone_string_vec(&sc.names),
                children: Vec::new(),
                rows: sc.rows,
            },
        ),
    }
}

/// Clones any column, preserving its full view.
pub fn clone_column(c: &Column) -> (r: Column)
    ensures
        r@ == c@,
{
    match c {
        Column::Struct(sc) => {
            let mut children: Vec<Column> = Vec::new();
            let mut i: usize = 0;
            while i < sc.children.len()
                invariant
                    0 <= i <= sc.children@.len(),
                    children@.len() == i,
                    forall|j: int|
                        0 <= j < i ==> leaf_v(#[trigger] children@[j]) == leaf_v(sc.children@[j]),
                decreases sc.children@.len() - i,
            {
                let child = clone_leaf_column(&sc.children[i]);
                children.push(child);
                i += 1;
            }
            let r = Column::Struct(
                StructColumn { names: clone_string_vec(&sc.names), children, rows: sc.rows },
            );
            proof {
                assert(r@->Struct_1 =~= c@->Struct_1);
                assert(r@ == c@);
            }
            r
        },
        _ => {
            let r = clone_leaf_column(c);
            proof {
                assert(r@ == leaf_v(r));
                assert(c@ == leaf_v(*c));
            }
            r
        },
    }
}

/// Clones a whole batch.
pub fn clone_batch(b: &Batch) -> (r: Batch)
    ensures
        r@ == b@,
{
    let mut cols: Vec<Column> = Vec::new();
    let mut i: usize = 0;
    while i < b.cols.len()
        invariant
            0 <= i <= b.cols@.len(),
            cols@.len() == i,
            forall|j: int| 0 <= j < i ==> #[trigger] cols@[j]@ == b.cols@[j]@,
        decreases b.cols@.len() - i,
    {
        let col = clone_column(&b.cols[i]);
        cols.push(col);
        i += 1;
    }
    let r = Batch { names: clone_string_vec(&b.names), cols, nrows: b.nrows };
    proof {
        assert(r@.cols =~= b@.cols);
        assert(r@ == b@);
    }
    r
}

/// Resolves a dotted path against a batch, handing back a clone of the
/// named column.
pub fn resolve_path_exec(b: &Batch, parts: &Vec<String>) -> (r: Result<Column, EvalError>)
    requires
        b@.wf(),
    ensures
        match r {
            Ok(c) => resolve_path(b@, parts.deep_view()) == Ok::<ColV, ErrV>(c@),
            Err(e) => resolve_path(b@, parts.deep_view()) == Err::<ColV, ErrV>(e@),
        },
{
    if parts.len() == 0 {
        return Err(EvalError::UnknownField(String::new()));
    }
    let i = match find_field_exec(&b.names, &parts[0]) {
        Some(i) => i,
        None => {
            proof {
                assert(parts.deep_view()[0] == parts@[0]@);
            }
            return Err(EvalError::UnknownField(parts[0].clone()));
        },
    };
    proof {
        assert(b@.cols[i as int] == b.cols@[i as int]@);
    }
    if parts.len() == 1 {
        return Ok(clone_column(&b.cols[i]));
    }
    match &b.cols[i] {
        Column::Struct(sc) => {
            let j = match find_field_exec(&sc.names, &parts[1]) {
                Some(j) => j,
                None => {
                    return Err(EvalError::UnknownField(parts[1].clone()));
                },
            };
            if parts.len() == 2 {
                proof {
                    assert(b@.cols[i as int].wf());
                    assert(j < sc.children@.len());
                    assert(b@.cols[i as int]->Struct_1[j as int] == leaf_v(
                        sc.children@[j as int],
                    ));
                }
                let child = clone_leaf_column(&sc.children[j]);
                proof {
                    assert(child@ == leaf_v(child));
                    assert(!(child is Struct));
                }
                return Ok(child);
            } else {
                return Err(EvalError::NotAStruct(parts[1].clone()));
            }
        },
        _ => Err(EvalError::NotAStruct(parts[0].clone())),
    }
}

/// The sort rank of each row of a column: integers (also carrying booleans
/// and the float total order) or strings, with nulls ranked first; `None`
/// for a column that cannot be a sort key.
pub open spec fn col_ranks(c: ColV) -> Option<Seq<RankV>> {
    match c {
        ColV::Int32(s) => Some(
            Seq::new(
                s.len(),
                |i: int|
                    match s[i] {
                        Some(v) => RankV::Int(v as int),
                        None => RankV::Null,
                    },
            ),
        ),
        ColV::Int64(s) => Some(
            Seq::new(
                s.len(),
                |i: int|
                    match s[i] {
                        Some(v) => RankV::Int(v as int),
                        None => RankV::Null,
                    },
            ),
        ),
        ColV::Float64(s) => Some(
            Seq::new(
                s.len(),
                |i: int|
                    match s[i] {
                        Some(v) => RankV::Int(crate::float_bits::f64_total_rank(v)),
                        None => RankV::Null,
                    },
            ),
        ),
        ColV::Bool(s) => Some(
            Seq::new(
                s.len(),
                |i: int|
                    match s[i] {
                        Some(v) => RankV::Int(
                            if v {
                                1int
                            } else {
                                0int
                            },
                        ),
                        None => RankV::Null,
                    },
            ),
        ),
        ColV::Utf8(s) => Some(
            Seq::new(
                s.len(),
                |i: int|
                    match s[i] {
                        Some(v) => RankV::Str(v),
                        None => RankV::Null,
                    },
            ),
        ),
        _ => None,
    }
}

/// Builds the executable sort keys of a column, mirroring `col_ranks`.
#[verifier::loop_isolation(false)]
pub fn col_sort_keys(c: &Column) -> (r: Option<Vec<SortKey>>)
    ensures
        match r {
            Some(v) => col_ranks(c@) == Some(ranks_of(v@)) && v@.len() == c@.len(),
            None => col_ranks(c@) is None,
        },
{
    match c {
        Column::Int32(col) => {
            let mut out: Vec<SortKey> = Vec::new();
            let mut i: usize = 0;
            while i < col.data.len()
                invariant
                    0 <= i <= col@.len(),
                    out@.len() == i,
                    forall|j: int| 0 <= j < i ==> #[trigger] out@[j]@ == col_ranks(c@)->Some_0[j],
                decreases col@.len() - i,
            {
                let k = match col.data[i] {
                    Some(v) => SortKey::Int(v as i64),
                    None => SortKey::Null,
                };
                out.push(k);
                i += 1;
            }
            proof {
                assert(ranks_of(out@) =~= col_ranks(c@)->Some_0);
            }
            Some(out)
        },
        Column::Int64(col) => {
            let mut out: Vec<SortKey> = Vec::new();
            let mut i: usize = 0;
            while i < col.data.len()
                invariant
                    0 <= i <= col@.len(),
                    out@.len() == i,
                    forall|j: int| 0 <= j < i ==> #[trigger] out@[j]@ == col_ranks(c@)->Some_0[j],
                decreases col@.len() - i,
            {
                let k = match col.data[i] {
                    Some(v) => SortKey::Int(v),
                    None => SortKey::Null,
                };
                out.push(k);
                i += 1;
            }
            proof {
                assert(ranks_of(out@) =~= col_ranks(c@)->Some_0);
            }
            Some(out)
        },
        Column::Float64(col) => {
            let mut out: Vec<SortKey> = Vec::new();
            let mut i: usize = 0;
            while i < col.data.len()
                invariant
                    0 <= i <= col@.len(),
                    out@.len() == i,
                    forall|j: int| 0 <= j < i ==> #[trigger] out@[j]@ == col_ranks(c@)->Some_0[j],
                decreases col@.len() - i,
            {
                let k = match col.data[i] {
                    Some(v) => {
                        let mag = v & F64_MAG_MASK;
                        proof {
                            assert(v & 0x7fff_ffff_ffff_ffffu64 <= 0x7fff_ffff_ffff_ffffu64)
                                by (bit_vector);
                        }
                        let rank: i64 = if v & F64_SIGN_BIT == 0 {
                            mag as i64
                        } else {
                            ((-(mag as i128)) - 1) as i64
                        };
                        SortKey::Int(rank)
                    },
                    None => SortKey::Null,
                };
                out.push(k);
                i += 1;
            }
            proof {
                assert(ranks_of(out@) =~= col_ranks(c@)->Some_0);
            }
            Some(out)
        },
        Column::Bool(col) => {
            let mut out: Vec<SortKey> = Vec::new();
            let mut i: usize = 0;
            while i < col.data.len()
                invariant
                    0 <= i <= col@.len(),
                    out@.len() == i,
                    forall|j: int| 0 <= j < i ==> #[trigger] out@[j]@ == col_ranks(c@)->Some_0[j],
                decreases col@.len() - i,
            {
                let k = match col.data[i] {
                    Some(v) => SortKey::Int(
                        if v {
                            1
                        } else {
                            0
                        },
                    ),
                    None => SortKey::Null,
                };
                out.push(k);
                i += 1;
            }
            proof {
                assert(ranks_of(out@) =~= col_ranks(c@)->Some_0);
            }
            Some(out)
        },
        Column::Utf8(col) => {
            let mut out: Vec<SortKey> = Vec::new();
            let mut i: usize = 0;
            while i < col.data.len()
                invariant
                    0 <= i <= col@.len(),
                    out@.len() == i,
                    forall|j: int| 0 <= j < i ==> #[trigger] out@[j]@ == col_ranks(c@)->Some_0[j],
                decreases col@.len() - i,
            {
                let k = match &col.data[i] {
                    Some(s) => SortKey::Str(s.clone()),
                    None => SortKey::Null,
                };
                out.push(k);
                i += 1;
            }
            proof {
                assert(ranks_of(out@) =~= col_ranks(c@)->Some_0);
            }
            Some(out)
        },
        _ => None,
    }
}

} // verus!
