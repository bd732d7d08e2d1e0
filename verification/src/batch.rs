//! The columnar data model: typed columns with per-row validity, and record
//! batches (a schema of named fields plus aligned columns of equal length).
//!
//! Each column stores one optional value per row; `None` marks a null.
//! Floating-point columns store the IEEE-754 bit patterns of their values as
//! unsigned integers, so that all reasoning about them is integer reasoning;
//! the bit-level ordering and comparison semantics live in `float_bits`.
use vstd::prelude::*;

verus! {

/// 32-bit integer column.
#[derive(Debug)]
pub struct Int32Column {
    pub data: Vec<Option<i32>>,
}

/// 64-bit integer column.
#[derive(Debug)]
pub struct Int64Column {
    pub data: Vec<Option<i64>>,
}

/// 64-bit float column; each value is the IEEE-754 bit pattern of an `f64`.
#[derive(Debug)]
pub struct Float64Column {
    pub data: Vec<Option<u64>>,
}

/// UTF-8 string column.
#[derive(Debug)]
pub struct StringColumn {
    pub data: Vec<Option<String>>,
}

/// Boolean column; doubles as the mask type produced by comparisons.
#[derive(Debug)]
pub struct BoolColumn {
    pub data: Vec<Option<bool>>,
}

/// Column of lists of 64-bit integers, one optional list per row.
#[derive(Debug)]
pub struct ListColumn {
    pub data: Vec<Option<Vec<i64>>>,
}

/// A struct column: named child columns, used for dotted-path descent only.
/// Children must be non-struct columns of length `rows` (see `col_wf`);
/// deeper nesting is out of scope.
#[derive(Debug)]
pub struct StructColumn {
    pub names: Vec<String>,
    pub children: Vec<Column>,
    pub rows: usize,
}

/// A typed column of a record batch.
#[derive(Debug)]
pub enum Column {
    Int32(Int32Column),
    Int64(Int64Column),
    Float64(Float64Column),
    Utf8(StringColumn),
    Bool(BoolColumn),
    List(ListColumn),
    Struct(StructColumn),
}

/// A record batch: parallel field names and columns, all of length `nrows`.
#[derive(Debug)]
pub struct Batch {
    pub names: Vec<String>,
    pub cols: Vec<Column>,
    pub nrows: usize,
}

/// Mathematical model of a column.
pub enum ColV {
    Int32(Seq<Option<i32>>),
    Int64(Seq<Option<i64>>),
    Float64(Seq<Option<u64>>),
    Utf8(Seq<Option<Seq<char>>>),
    Bool(Seq<Option<bool>>),
    List(Seq<Option<Seq<i64>>>),
    Struct(Seq<Seq<char>>, Seq<ColV>, nat),
}

/// Mathematical model of a record batch.
pub struct BatchV {
    pub names: Seq<Seq<char>>,
    pub cols: Seq<ColV>,
    pub nrows: nat,
}

impl View for Int32Column {
    type V = Seq<Option<i32>>;

    open spec fn view(&self) -> Seq<Option<i32>> {
        self.data@
    }
}

impl View for Int64Column {
    type V = Seq<Option<i64>>;

    open spec fn view(&self) -> Seq<Option<i64>> {
        self.data@
    }
}

impl View for Float64Column {
    type V = Seq<Option<u64>>;

    open spec fn view(&self) -> Seq<Option<u64>> {
        self.data@
    }
}

/// The view of one optional string cell.
pub open spec fn opt_str_v(o: Option<String>) -> Option<Seq<char>> {
    match o {
        Some(s) => Some(s@),
        None => None,
    }
}

/// The view of one optional list cell.
pub open spec fn opt_list_v(o: Option<Vec<i64>>) -> Option<Seq<i64>> {
    match o {
        Some(v) => Some(v@),
        None => None,
    }
}

impl View for StringColumn {
    type V = Seq<Option<Seq<char>>>;

    open spec fn view(&self) -> Seq<Option<Seq<char>>> {
        Seq::new(self.data@.len(), |i: int| opt_str_v(self.data@[i]))
    }
}

impl View for BoolColumn {
    type V = Seq<Option<bool>>;

    open spec fn view(&self) -> Seq<Option<bool>> {
        self.data@
    }
}

impl View for ListColumn {
    type V = Seq<Option<Seq<i64>>>;

    open spec fn view(&self) -> Seq<Option<Seq<i64>>> {
        Seq::new(self.data@.len(), |i: int| opt_list_v(self.data@[i]))
    }
}

/// View of a column one level deep: a struct child keeps its names and row
/// count but not its own children (well-formedness rules nesting out anyway).
pub open spec fn leaf_v(c: Column) -> ColV {
    match c {
        Column::Int32(col) => ColV::Int32(col@),
        Column::Int64(col) => ColV::Int64(col@),
        Column::Float64(col) => ColV::Float64(col@),
        Column::Utf8(col) => ColV::Utf8(col@),
        Column::Bool(col) => ColV::Bool(col@),
        Column::List(col) => ColV::List(col@),
        Column::Struct(sc) => ColV::Struct(sc.names.deep_view(), Seq::empty(), sc.rows as nat),
    }
}

/// Full view of a column, including a struct column's children.
pub open spec fn col_v(c: Column) -> ColV {
    match c {
        Column::Struct(sc) => ColV::Struct(
            sc.names.deep_view(),
            sc.children@.map_values(|ch: Column| leaf_v(ch)),
            sc.rows as nat,
        ),
        _ => leaf_v(c),
    }
}

impl View for Column {
    type V = ColV;

    open spec fn view(&self) -> ColV {
        col_v(*self)
    }
}

impl View for Batch {
    type V = BatchV;

    open spec fn view(&self) -> BatchV {
        BatchV {
            names: self.names.deep_view(),
            cols: self.cols@.map_values(|c: Column| c@),
            nrows: self.nrows as nat,
        }
    }
}

impl ColV {
    /// Number of rows of a column model.
    pub open spec fn len(self) -> nat {
        match self {
            ColV::Int32(s) => s.len(),
            ColV::Int64(s) => s.len(),
            ColV::Float64(s) => s.len(),
            ColV::Utf8(s) => s.len(),
            ColV::Bool(s) => s.len(),
            ColV::List(s) => s.len(),
            ColV::Struct(_, _, rows) => rows,
        }
    }

    /// Struct-column well-formedness: parallel names and children, children
    /// non-struct and of the struct's own length.
    pub open spec fn wf(self) -> bool {
        match self {
            ColV::Struct(names, children, rows) => {
                &&& names.len() == children.len()
                &&& forall|i: int|
                    0 <= i < children.len() ==> !(#[trigger] children[i] is Struct)
                        && children[i].len() == rows
            },
            _ => true,
        }
    }
}

impl BatchV {
    /// Batch well-formedness: names and columns parallel, every column
    /// well-formed and of the batch's row count.
    pub open spec fn wf(self) -> bool {
        &&& self.names.len() == self.cols.len()
        &&& forall|i: int|
            0 <= i < self.cols.len() ==> (#[trigger] self.cols[i]).wf() && self.cols[i].len()
                == self.nrows
    }
}

impl Int32Column {
    pub fn new(data: Vec<Option<i32>>) -> (r: Self)
        ensures
            r@ == data@,
    {
        Int32Column { data }
    }

    pub fn len(&self) -> (n: usize)
        ensures
            n == self@.len(),
    {
        self.data.len()
    }

    pub fn is_null(&self, i: usize) -> (b: bool)
        requires
            i < self@.len(),
        ensures
            b == (self@[i as int] is None),
    {
        self.data[i].is_none()
    }

    pub fn value(&self, i: usize) -> (v: i32)
        requires
            i < self@.len(),
            self@[i as int] is Some,
        ensures
            v == self@[i as int]->0,
    {
        self.data[i].unwrap()
    }
}

impl Int64Column {
    pub fn new(data: Vec<Option<i64>>) -> (r: Self)
        ensures
            r@ == data@,
    {
        Int64Column { data }
    }

    pub fn len(&self) -> (n: usize)
        ensures
            n == self@.len(),
    {
        self.data.len()
    }

    pub fn is_null(&self, i: usize) -> (b: bool)
        requires
            i < self@.len(),
        ensures
            b == (self@[i as int] is None),
    {
        self.data[i].is_none()
    }

    pub fn value(&self, i: usize) -> (v: i64)
        requires
            i < self@.len(),
            self@[i as int] is Some,
        ensures
            v == self@[i as int]->0,
    {
        self.data[i].unwrap()
    }
}

impl Float64Column {
    pub fn new(data: Vec<Option<u64>>) -> (r: Self)
        ensures
            r@ == data@,
    {
        Float64Column { data }
    }

    pub fn len(&self) -> (n: usize)
        ensures
            n == self@.len(),
    {
        self.data.len()
    }

    pub fn is_null(&self, i: usize) -> (b: bool)
        requires
            i < self@.len(),
        ensures
            b == (self@[i as int] is None),
    {
        self.data[i].is_none()
    }

    /// The IEEE-754 bit pattern of the value at row `i`.
    pub fn value_bits(&self, i: usize) -> (v: u64)
        requires
            i < self@.len(),
            self@[i as int] is Some,
        ensures
            v == self@[i as int]->0,
    {
        self.data[i].unwrap()
    }
}

impl StringColumn {
    pub fn new(data: Vec<Option<String>>) -> (r: Self)
        ensures
            r@.len() == data@.len(),
            forall|i: int|
                0 <= i < data@.len() ==> r@[i] == (match data@[i] {
                    Some(s) => Some(s@),
                    None => None,
                }),
    {
        StringColumn { data }
    }

    pub fn len(&self) -> (n: usize)
        ensures
            n == self@.len(),
    {
        self.data.len()
    }

    pub fn is_null(&self, i: usize) -> (b: bool)
        requires
            i < self@.len(),
        ensures
            b == (self@[i as int] is None),
    {
        self.data[i].is_none()
    }

    pub fn value(&self, i: usize) -> (v: String)
        requires
            i < self@.len(),
            self@[i as int] is Some,
        ensures
            v@ == self@[i as int]->0,
    {
        self.data[i].as_ref().unwrap().clone()
    }
}

impl BoolColumn {
    pub fn new(data: Vec<Option<bool>>) -> (r: Self)
        ensures
            r@ == data@,
    {
        BoolColumn { data }
    }

    pub fn len(&self) -> (n: usize)
        ensures
            n == self@.len(),
    {
        self.data.len()
    }

    pub fn is_null(&self, i: usize) -> (b: bool)
        requires
            i < self@.len(),
        ensures
            b == (self@[i as int] is None),
    {
        self.data[i].is_none()
    }

    pub fn value(&self, i: usize) -> (v: bool)
        requires
            i < self@.len(),
            self@[i as int] is Some,
        ensures
            v == self@[i as int]->0,
    {
        self.data[i].unwrap()
    }
}

impl ListColumn {
    pub fn new(data: Vec<Option<Vec<i64>>>) -> (r: Self)
        ensures
            r@.len() == data@.len(),
            forall|i: int|
                0 <= i < data@.len() ==> r@[i] == (match data@[i] {
                    Some(v) => Some(v@),
                    None => None,
                }),
    {
        ListColumn { data }
    }

    pub fn len(&self) -> (n: usize)
        ensures
            n == self@.len(),
    {
        self.data.len()
    }

    pub fn is_null(&self, i: usize) -> (b: bool)
        requires
            i < self@.len(),
        ensures
            b == (self@[i as int] is None),
    {
        self.data[i].is_none()
    }
}

impl Column {
    /// Number of rows.
    pub fn len(&self) -> (n: usize)
        ensures
            n == self@.len(),
    {
        match self {
            Column::Int32(c) => c.data.len(),
            Column::Int64(c) => c.data.len(),
            Column::Float64(c) => c.data.len(),
            Column::Utf8(c) => c.data.len(),
            Column::Bool(c) => c.data.len(),
            Column::List(c) => c.data.len(),
            Column::Struct(sc) => sc.rows,
        }
    }

    /// Runtime check of the well-formedness that `ColV::wf` states.
    #[verifier::loop_isolation(false)]
    pub fn check_wf(&self) -> (b: bool)
        ensures
            b == self@.wf(),
    {
        match self {
            Column::Struct(sc) => {
                if sc.names.len() != sc.children.len() {
                    return false;
                }
                let n = sc.children.len();
                let mut i: usize = 0;
                while i < n
                    invariant
                        0 <= i <= n,
                        n == sc.children@.len(),
                        forall|j: int|
                            0 <= j < i ==> !(#[trigger] leaf_v(sc.children@[j]) is Struct)
                                && leaf_v(sc.children@[j]).len() == sc.rows as nat,
                    decreases n - i,
                {
                    let ch = &sc.children[i];
                    let is_struct = matches!(ch, Column::Struct(_));
                    if is_struct || ch.len() != sc.rows {
                        proof {
                            let cv = self@->Struct_1;
                            assert(cv[i as int] == leaf_v(sc.children@[i as int]));
                            assert(sc.children@[i as int] == *ch);
                            if !is_struct {
                                assert(leaf_v(*ch) == col_v(*ch));
                            }
                        }
                        return false;
                    }
                    proof {
                        assert(leaf_v(sc.children@[i as int]) == ch@);
                    }
                    i += 1;
                }
                proof {
                    assert forall|j: int| 0 <= j < self@->Struct_1.len() implies !(
                    #[trigger] self@->Struct_1[j] is Struct) && self@->Struct_1[j].len()
                        == sc.rows as nat by {
                        assert(self@->Struct_1[j] == leaf_v(sc.children@[j]));
                    }
                }
                true
            },
            _ => true,
        }
    }
}

impl Batch {
    pub fn num_rows(&self) -> (n: usize)
        ensures
            n == self@.nrows,
    {
        self.nrows
    }

    pub fn num_columns(&self) -> (n: usize)
        ensures
            n == self@.cols.len(),
    {
        self.cols.len()
    }

    /// Builds a batch after checking that names and columns are parallel and
    /// that every column is well-formed with one shared row count; refuses
    /// the input exactly when one of those checks fails.
    #[verifier::loop_isolation(false)]
    pub fn try_new(names: Vec<String>, cols: Vec<Column>) -> (r: Option<Batch>)
        ensures
            match r {
                Some(b) => b@.wf() && b@.names == names.deep_view() && b@.cols
                    == cols@.map_values(|c: Column| c@),
                None => names@.len() != cols@.len() || exists|i: int|
                    0 <= i < cols@.len() && !((#[trigger] cols@[i])@.wf() && cols@[i]@.len() == (
                    if cols@.len() == 0 {
                        0nat
                    } else {
                        cols@[0]@.len()
                    })),
            },
    {
        if names.len() != cols.len() {
            return None;
        }
        let nrows: usize = if cols.len() == 0 {
            0
        } else {
            cols[0].len()
        };
        let mut i: usize = 0;
        while i < cols.len()
            invariant
                0 <= i <= cols.len(),
                forall|j: int|
                    0 <= j < i ==> (#[trigger] cols@[j])@.wf() && cols@[j]@.len() == nrows as nat,
            decreases cols.len() - i,
        {
            if !(cols[i].check_wf() && cols[i].len() == nrows) {
                return None;
            }
            i += 1;
        }
        let b = Batch { names, cols, nrows };
        proof {
            assert forall|j: int| 0 <= j < b@.cols.len() implies (#[trigger] b@.cols[j]).wf()
                && b@.cols[j].len() == b@.nrows by {
                assert(b@.cols[j] == b.cols@[j]@);
            }
        }
        Some(b)
    }
}

} // verus!
