// End-to-end scenarios and edge cases: one concrete test per engine law,
// one per error kind, and exact expected values for the formulas.
use arrow_jmespath::{eval_jmespath, parse_jmespath, Batch, Column, EvalError, EvalResult,
    Float64Column, Int32Column, Int64Column, ListColumn, StringColumn, StructColumn,
    get_int32_column, get_list_array, normalize_index, slice_array};

fn i64_col(vals: &[i64]) -> Column {
    Column::Int64(Int64Column { data: vals.iter().map(|v| Some(*v)).collect() })
}

fn str_col(vals: &[&str]) -> Column {
    Column::Utf8(StringColumn { data: vals.iter().map(|v| Some(v.to_string())).collect() })
}

fn make_batch(fields: Vec<(&str, Column)>) -> Batch {
    let names = fields.iter().map(|(n, _)| n.to_string()).collect();
    let cols = fields.into_iter().map(|(_, c)| c).collect();
    Batch::try_new(names, cols).unwrap()
}

fn i64_at(b: &Batch, name: &str, row: usize) -> i64 {
    let i = b.names.iter().position(|n| n == name).unwrap();
    match &b.cols[i] {
        Column::Int64(c) => c.data[row].unwrap(),
        _ => panic!("not an int64 column"),
    }
}

fn str_at(b: &Batch, name: &str, row: usize) -> String {
    let i = b.names.iter().position(|n| n == name).unwrap();
    match &b.cols[i] {
        Column::Utf8(c) => c.data[row].clone().unwrap(),
        _ => panic!("not a string column"),
    }
}

fn eval_str(expr: &str, rb: &Batch) -> Result<EvalResult, EvalError> {
    let (_, ast) = parse_jmespath(expr).unwrap();
    eval_jmespath(&ast, rb)
}

// --- concrete scenarios ---

#[test]
fn scenario_age_filter_mask() {
    let rb = make_batch(vec![("age", i64_col(&[25, 30, 20]))]);
    if let EvalResult::BoolArray(mask) = eval_str("age > 25", &rb).unwrap() {
        assert_eq!(
            (mask.value(0), mask.value(1), mask.value(2)),
            (false, true, false)
        );
    } else {
        panic!("Expected BoolArray");
    }
}

#[test]
fn scenario_name_equality_mask() {
    let rb = make_batch(vec![
        ("age", i64_col(&[25, 30, 20])),
        ("name", str_col(&["Alice", "Bob", "Charlie"])),
    ]);
    if let EvalResult::BoolArray(mask) = eval_str("name == 'Bob'", &rb).unwrap() {
        assert_eq!(
            (mask.value(0), mask.value(1), mask.value(2)),
            (false, true, false)
        );
    } else {
        panic!("Expected BoolArray");
    }
}

#[test]
fn scenario_conjunction_then_filter() {
    let rb = make_batch(vec![
        ("a", i64_col(&[25, 30, 20])),
        (
            "act",
            Column::Bool(arrow_jmespath::BoolColumn {
                data: vec![Some(true), Some(false), Some(true)],
            }),
        ),
    ]);
    if let EvalResult::BoolArray(mask) = eval_str("a > 22 && act == true", &rb).unwrap() {
        assert_eq!(
            (mask.value(0), mask.value(1), mask.value(2)),
            (true, false, false)
        );
    } else {
        panic!("Expected BoolArray");
    }
    // Piped through a filter: one row remains, {a: 25, act: true}.
    if let EvalResult::RecordBatch(fb) = eval_str("a[?a > 22 && act == true]", &rb).unwrap() {
        assert_eq!(fb.num_rows(), 1);
        assert_eq!(i64_at(&fb, "a", 0), 25);
    } else {
        panic!("Expected RecordBatch");
    }
}

#[test]
fn scenario_sort_by_age() {
    let rb = make_batch(vec![("age", i64_col(&[30, 25, 35, 28]))]);
    if let EvalResult::RecordBatch(sb) = eval_str("sort_by(@, &age)", &rb).unwrap() {
        let got: Vec<i64> = (0..4).map(|r| i64_at(&sb, "age", r)).collect();
        assert_eq!(got, vec![25, 28, 30, 35]);
    } else {
        panic!("Expected RecordBatch");
    }
}

#[test]
fn scenario_reverse_sorted_prices() {
    let rb = make_batch(vec![("price", i64_col(&[999, 29, 399, 79]))]);
    if let EvalResult::RecordBatch(sb) = eval_str("reverse(sort_by(@, &price))", &rb).unwrap() {
        let got: Vec<i64> = (0..4).map(|r| i64_at(&sb, "price", r)).collect();
        assert_eq!(got, vec![999, 399, 79, 29]);
    } else {
        panic!("Expected RecordBatch");
    }
}

#[test]
fn scenario_not_null_emails() {
    let rb = make_batch(vec![(
        "email",
        Column::Utf8(StringColumn {
            data: vec![
                Some("a".to_string()),
                None,
                Some("c".to_string()),
                None,
                Some("e".to_string()),
            ],
        }),
    )]);
    if let EvalResult::RecordBatch(fb) = eval_str("not_null(email)", &rb).unwrap() {
        assert_eq!(fb.num_rows(), 3);
        let got: Vec<String> = (0..3).map(|r| str_at(&fb, "email", r)).collect();
        assert_eq!(got, vec!["a", "c", "e"]);
    } else {
        panic!("Expected RecordBatch");
    }
}

// --- laws on concrete values ---

#[test]
fn law_determinism_two_calls_agree() {
    let rb = make_batch(vec![("age", i64_col(&[25, 30, 20]))]);
    let (_, ast) = parse_jmespath("sort_by(@, &age)").unwrap();
    let r1 = format!("{:?}", eval_jmespath(&ast, &rb).unwrap());
    let r2 = format!("{:?}", eval_jmespath(&ast, &rb).unwrap());
    assert_eq!(r1, r2);
}

#[test]
fn law_purity_batch_unchanged() {
    let rb = make_batch(vec![
        ("age", i64_col(&[25, 30, 20])),
        ("name", str_col(&["Alice", "Bob", "Charlie"])),
    ]);
    let before = format!("{:?}", rb);
    let _ = eval_str("sort_by(@, &age)", &rb).unwrap();
    let _ = eval_str("age > 25", &rb).unwrap();
    let after = format!("{:?}", rb);
    assert_eq!(before, after);
}

#[test]
fn law_mask_length_matches_rows() {
    let rb = make_batch(vec![
        ("age", i64_col(&[25, 30, 20, 40, 10])),
        (
            "act",
            Column::Bool(arrow_jmespath::BoolColumn {
                data: vec![Some(true), Some(false), None, Some(true), Some(false)],
            }),
        ),
    ]);
    for expr in ["age > 25", "age > 25 && act == true", "!(act == true)"] {
        if let EvalResult::BoolArray(mask) = eval_str(expr, &rb).unwrap() {
            assert_eq!(mask.len(), rb.num_rows(), "mask length for {}", expr);
        } else {
            panic!("Expected BoolArray for {}", expr);
        }
    }
}

#[test]
fn law_filter_rows_equal_popcount() {
    let rb = make_batch(vec![("age", i64_col(&[25, 30, 20, 40, 10]))]);
    if let EvalResult::BoolArray(mask) = eval_str("age > 22", &rb).unwrap() {
        let pop = (0..mask.len()).filter(|&i| !mask.is_null(i) && mask.value(i)).count();
        if let EvalResult::RecordBatch(fb) = eval_str("age[?age > 22]", &rb).unwrap() {
            assert_eq!(fb.num_rows(), pop);
        } else {
            panic!("Expected RecordBatch");
        }
    } else {
        panic!("Expected BoolArray");
    }
}

#[test]
fn law_sort_is_stable_permutation() {
    // Two rows share the key 7; their original order (Bob before Dave) is kept.
    let rb = make_batch(vec![
        ("name", str_col(&["Alice", "Bob", "Charlie", "Dave"])),
        ("k", i64_col(&[9, 7, 3, 7])),
    ]);
    if let EvalResult::RecordBatch(sb) = eval_str("sort_by(@, &k)", &rb).unwrap() {
        let keys: Vec<i64> = (0..4).map(|r| i64_at(&sb, "k", r)).collect();
        let names: Vec<String> = (0..4).map(|r| str_at(&sb, "name", r)).collect();
        assert_eq!(keys, vec![3, 7, 7, 9]);
        assert_eq!(names, vec!["Charlie", "Bob", "Dave", "Alice"]);
        // Same multiset of rows.
        let mut orig: Vec<(i64, String)> =
            (0..4).map(|r| (i64_at(&rb, "k", r), str_at(&rb, "name", r))).collect();
        let mut sorted: Vec<(i64, String)> =
            (0..4).map(|r| (i64_at(&sb, "k", r), str_at(&sb, "name", r))).collect();
        orig.sort();
        sorted.sort();
        assert_eq!(orig, sorted);
    } else {
        panic!("Expected RecordBatch");
    }
}

#[test]
fn law_sort_nulls_first() {
    let rb = make_batch(vec![(
        "k",
        Column::Int64(Int64Column { data: vec![Some(5), None, Some(1)] }),
    )]);
    if let EvalResult::RecordBatch(sb) = eval_str("sort_by(@, &k)", &rb).unwrap() {
        let i = sb.names.iter().position(|n| n == "k").unwrap();
        match &sb.cols[i] {
            Column::Int64(c) => {
                assert_eq!(c.data[0], None);
                assert_eq!(c.data[1], Some(1));
                assert_eq!(c.data[2], Some(5));
            },
            _ => panic!("not an int64 column"),
        }
    } else {
        panic!("Expected RecordBatch");
    }
}

#[test]
fn law_reverse_involution_column_and_batch() {
    let rb = make_batch(vec![
        ("v", Column::Int64(Int64Column { data: vec![Some(1), None, Some(3)] })),
        ("s", str_col(&["x", "y", "z"])),
    ]);
    if let EvalResult::Int64Array(arr) = eval_str("reverse(reverse(v))", &rb).unwrap() {
        assert_eq!(arr.data, vec![Some(1), None, Some(3)]);
    } else {
        panic!("Expected Int64Array");
    }
    if let EvalResult::RecordBatch(bb) = eval_str("reverse(reverse(@))", &rb).unwrap() {
        assert_eq!(format!("{:?}", bb), format!("{:?}", rb));
    } else {
        panic!("Expected RecordBatch");
    }
}

#[test]
fn law_not_null_counts() {
    let rb = make_batch(vec![(
        "v",
        Column::Int64(Int64Column { data: vec![Some(1), None, Some(3), None, Some(5)] }),
    )]);
    if let EvalResult::RecordBatch(fb) = eval_str("not_null(v)", &rb).unwrap() {
        assert_eq!(fb.num_rows(), 3);
        let got: Vec<i64> = (0..3).map(|r| i64_at(&fb, "v", r)).collect();
        assert_eq!(got, vec![1, 3, 5]);
    } else {
        panic!("Expected RecordBatch");
    }
}

#[test]
fn law_slice_pointwise() {
    let rb = make_batch(vec![("v", i64_col(&[10, 11, 12, 13, 14, 15]))]);
    if let EvalResult::Int64Array(arr) = eval_str("v[1:5:2]", &rb).unwrap() {
        assert_eq!(arr.data, vec![Some(11), Some(13)]);
    } else {
        panic!("Expected Int64Array");
    }
    // Negative step walks backwards from the end.
    if let EvalResult::Int64Array(arr) = eval_str("v[::-1]", &rb).unwrap() {
        assert_eq!(
            arr.data,
            vec![Some(15), Some(14), Some(13), Some(12), Some(11), Some(10)]
        );
    } else {
        panic!("Expected Int64Array");
    }
    // The index walk itself, pointwise.
    let idxs = slice_array(6, Some(1), Some(5), Some(2)).unwrap();
    assert_eq!(idxs, vec![1, 3]);
}

#[test]
fn law_index_symmetry() {
    let rb = make_batch(vec![("v", i64_col(&[10, 11, 12]))]);
    for i in 0..3i32 {
        let pos = eval_str(&format!("v[{}]", i), &rb).unwrap();
        let neg = eval_str(&format!("v[{}]", i - 3), &rb).unwrap();
        assert_eq!(format!("{:?}", pos), format!("{:?}", neg));
    }
    assert_eq!(normalize_index(1, 3).unwrap(), normalize_index(-2, 3).unwrap());
}

// --- functions with exact expected values ---

#[test]
fn func_length_byte_counts() {
    let rb = make_batch(vec![(
        "s",
        Column::Utf8(StringColumn {
            data: vec![Some("hello".to_string()), None, Some("hi".to_string())],
        }),
    )]);
    if let EvalResult::Int32Array(arr) = eval_str("length(s)", &rb).unwrap() {
        assert_eq!(arr.data, vec![Some(5), Some(0), Some(2)]);
    } else {
        panic!("Expected Int32Array");
    }
    if let EvalResult::IntConst(n) = eval_str("length('abcd')", &rb).unwrap() {
        assert_eq!(n, 4);
    } else {
        panic!("Expected IntConst");
    }
}

#[test]
fn func_length_list_counts() {
    let rb = make_batch(vec![(
        "l",
        Column::List(ListColumn { data: vec![Some(vec![1, 2, 3]), None, Some(vec![7])] }),
    )]);
    if let EvalResult::Int32Array(arr) = eval_str("length(l)", &rb).unwrap() {
        assert_eq!(arr.data, vec![Some(3), Some(0), Some(1)]);
    } else {
        panic!("Expected Int32Array");
    }
}

#[test]
fn func_string_predicates() {
    let rb = make_batch(vec![("s", str_col(&["apple pie", "banana", "grape"]))]);
    if let EvalResult::BoolArray(m) = eval_str("contains(s, 'ap')", &rb).unwrap() {
        assert_eq!(m.data, vec![Some(true), Some(false), Some(true)]);
    } else {
        panic!("Expected BoolArray");
    }
    if let EvalResult::BoolArray(m) = eval_str("starts_with(s, 'ba')", &rb).unwrap() {
        assert_eq!(m.data, vec![Some(false), Some(true), Some(false)]);
    } else {
        panic!("Expected BoolArray");
    }
    if let EvalResult::BoolArray(m) = eval_str("ends_with(s, 'e')", &rb).unwrap() {
        assert_eq!(m.data, vec![Some(true), Some(false), Some(true)]);
    } else {
        panic!("Expected BoolArray");
    }
}

#[test]
fn func_to_string_decimal() {
    let rb = make_batch(vec![(
        "v",
        Column::Int64(Int64Column { data: vec![Some(-205), Some(0), None, Some(9001)] }),
    )]);
    if let EvalResult::StringArray(arr) = eval_str("to_string(v)", &rb).unwrap() {
        let got: Vec<Option<String>> = arr.data.clone();
        assert_eq!(
            got,
            vec![
                Some("-205".to_string()),
                Some("0".to_string()),
                None,
                Some("9001".to_string())
            ]
        );
    } else {
        panic!("Expected StringArray");
    }
}

#[test]
fn func_aggregates_exact() {
    let rb = make_batch(vec![(
        "v",
        Column::Int64(Int64Column { data: vec![Some(4), None, Some(10), Some(1)] }),
    )]);
    match eval_str("min(v)", &rb).unwrap() {
        EvalResult::Int64Const(v) => assert_eq!(v, 1),
        other => panic!("Expected Int64Const, got {:?}", other),
    }
    match eval_str("max(v)", &rb).unwrap() {
        EvalResult::Int64Const(v) => assert_eq!(v, 10),
        other => panic!("Expected Int64Const, got {:?}", other),
    }
    match eval_str("sum(v)", &rb).unwrap() {
        EvalResult::Int64Const(v) => assert_eq!(v, 15),
        other => panic!("Expected Int64Const, got {:?}", other),
    }
    // The average divides by the total row count, nulls included: 15 / 4.
    match eval_str("avg(v)", &rb).unwrap() {
        EvalResult::FloatConst(bits) => assert_eq!(f64::from_bits(bits), 3.75),
        other => panic!("Expected FloatConst, got {:?}", other),
    }
}

#[test]
fn func_abs_exact() {
    let rb = make_batch(vec![(
        "v",
        Column::Int64(Int64Column { data: vec![Some(-4), Some(3), None] }),
    )]);
    if let EvalResult::Int64Array(arr) = eval_str("abs(v)", &rb).unwrap() {
        assert_eq!(arr.data, vec![Some(4), Some(3), None]);
    } else {
        panic!("Expected Int64Array");
    }
}

#[test]
fn func_keys_values_type() {
    let rb = make_batch(vec![
        ("age", i64_col(&[25])),
        ("name", str_col(&["Alice"])),
    ]);
    if let EvalResult::StringArray(arr) = eval_str("keys(x)", &rb).unwrap() {
        assert_eq!(arr.value(0), "age");
        assert_eq!(arr.value(1), "name");
    } else {
        panic!("Expected StringArray");
    }
    match eval_str("values(x)", &rb).unwrap() {
        EvalResult::IntConst(n) => assert_eq!(n, 2),
        other => panic!("Expected IntConst, got {:?}", other),
    }
    match eval_str("type(age)", &rb).unwrap() {
        EvalResult::StringConst(s) => assert_eq!(s, "array<int64>"),
        other => panic!("Expected StringConst, got {:?}", other),
    }
    match eval_str("type(name == 'Alice')", &rb).unwrap() {
        EvalResult::StringConst(s) => assert_eq!(s, "array<boolean>"),
        other => panic!("Expected StringConst, got {:?}", other),
    }
}

#[test]
fn func_flatten_lists() {
    let rb = make_batch(vec![(
        "l",
        Column::List(ListColumn { data: vec![Some(vec![1, 2]), None, Some(vec![3])] }),
    )]);
    if let EvalResult::Int64Array(arr) = eval_str("l[]", &rb).unwrap() {
        assert_eq!(arr.data, vec![Some(1), Some(2), Some(3)]);
    } else {
        panic!("Expected Int64Array");
    }
    // A bare wildcard projection over a list column behaves like flatten.
    if let EvalResult::Int64Array(arr) = eval_str("l[*]", &rb).unwrap() {
        assert_eq!(arr.data, vec![Some(1), Some(2), Some(3)]);
    } else {
        panic!("Expected Int64Array");
    }
}

#[test]
fn func_multi_select_hash_builds_batch() {
    let rb = make_batch(vec![
        ("age", i64_col(&[25, 30])),
        ("name", str_col(&["Alice", "Bob"])),
    ]);
    if let EvalResult::RecordBatch(nb) = eval_str("{years: age, who: name}", &rb).unwrap() {
        assert_eq!(nb.num_rows(), 2);
        assert_eq!(nb.names, vec!["years", "who"]);
        assert_eq!(i64_at(&nb, "years", 1), 30);
        assert_eq!(str_at(&nb, "who", 0), "Alice");
    } else {
        panic!("Expected RecordBatch");
    }
}

#[test]
fn func_pipe_rebinds_context() {
    let rb = make_batch(vec![
        ("age", i64_col(&[25, 30, 20])),
        ("name", str_col(&["Alice", "Bob", "Charlie"])),
    ]);
    if let EvalResult::StringArray(arr) = eval_str("age[?age > 22] | name", &rb).unwrap() {
        assert_eq!(arr.len(), 2);
        assert_eq!(arr.value(0), "Alice");
        assert_eq!(arr.value(1), "Bob");
    } else {
        panic!("Expected StringArray");
    }
}

#[test]
fn float_literals_round_exactly() {
    // The parser's exact decimal rounding agrees with the platform's parser.
    for lit in ["0.1", "3.14", "25.0", "19.99", "4.75", "123.456", "0.015625"] {
        let (_, ast) = parse_jmespath(lit).unwrap();
        match ast {
            arrow_jmespath::JmesPathExpr::ConstFloat(bits) => {
                let expect: f64 = lit.parse().unwrap();
                assert_eq!(bits, expect.to_bits(), "literal {}", lit);
            },
            other => panic!("Expected ConstFloat, got {:?}", other),
        }
    }
    let (_, ast) = parse_jmespath("-2.5").unwrap();
    match ast {
        arrow_jmespath::JmesPathExpr::ConstFloat(bits) => {
            assert_eq!(f64::from_bits(bits), -2.5);
        },
        other => panic!("Expected ConstFloat, got {:?}", other),
    }
}

#[test]
fn float_sort_and_minmax_follow_total_order() {
    let rb = make_batch(vec![(
        "r",
        Column::Float64(Float64Column {
            data: vec![
                Some((4.5f64).to_bits()),
                Some((-1.25f64).to_bits()),
                None,
                Some((4.2f64).to_bits()),
            ],
        }),
    )]);
    match eval_str("min(r)", &rb).unwrap() {
        EvalResult::FloatConst(bits) => assert_eq!(f64::from_bits(bits), -1.25),
        other => panic!("Expected FloatConst, got {:?}", other),
    }
    match eval_str("max(r)", &rb).unwrap() {
        EvalResult::FloatConst(bits) => assert_eq!(f64::from_bits(bits), 4.5),
        other => panic!("Expected FloatConst, got {:?}", other),
    }
    if let EvalResult::RecordBatch(sb) = eval_str("sort_by(@, &r)", &rb).unwrap() {
        let i = sb.names.iter().position(|n| n == "r").unwrap();
        match &sb.cols[i] {
            Column::Float64(c) => {
                assert_eq!(c.data[0], None); // nulls first
                assert_eq!(f64::from_bits(c.data[1].unwrap()), -1.25);
                assert_eq!(f64::from_bits(c.data[2].unwrap()), 4.2);
                assert_eq!(f64::from_bits(c.data[3].unwrap()), 4.5);
            },
            _ => panic!("not a float column"),
        }
    } else {
        panic!("Expected RecordBatch");
    }
}

#[test]
fn struct_column_path_descent() {
    let address = StructColumn {
        names: vec!["city".to_string(), "zip".to_string()],
        children: vec![
            str_col(&["Berlin", "Paris"]),
            Column::Int32(Int32Column { data: vec![Some(10115), Some(75001)] }),
        ],
        rows: 2,
    };
    let rb = make_batch(vec![
        ("name", str_col(&["Alice", "Bob"])),
        ("address", Column::Struct(address)),
    ]);
    if let EvalResult::StringArray(arr) = eval_str("address.city", &rb).unwrap() {
        assert_eq!(arr.value(1), "Paris");
    } else {
        panic!("Expected StringArray");
    }
    let zips = get_int32_column(&rb, "address.zip").unwrap();
    assert_eq!(zips.data, vec![Some(10115), Some(75001)]);
    assert!(get_int32_column(&rb, "name").is_none());
}

#[test]
fn list_column_getter() {
    let rb = make_batch(vec![(
        "l",
        Column::List(ListColumn { data: vec![Some(vec![1, 2]), Some(vec![])] }),
    )]);
    let l = get_list_array(&rb, "l").unwrap();
    assert_eq!(l.data[0], Some(vec![1, 2]));
    assert!(get_list_array(&rb, "missing").is_none());
}

// --- one input per error kind ---

#[test]
fn error_kinds_come_on_their_inputs() {
    let rb = make_batch(vec![
        ("age", i64_col(&[25, 30, 20])),
        ("name", str_col(&["Alice", "Bob", "Cleo"])),
        (
            "opt",
            Column::Int64(Int64Column { data: vec![Some(1), None, Some(3)] }),
        ),
    ]);
    assert!(matches!(
        eval_str("missing", &rb),
        Err(EvalError::UnknownField(_))
    ));
    assert!(matches!(
        eval_str("age.deeper", &rb),
        Err(EvalError::NotAStruct(_))
    ));
    assert!(matches!(
        eval_str("age > name", &rb),
        Err(EvalError::UnsupportedComparison)
    ));
    assert!(matches!(
        eval_str("age && name", &rb),
        Err(EvalError::UnsupportedLogic)
    ));
    assert!(matches!(
        eval_str("age[?name]", &rb),
        Err(EvalError::InvalidPredicate)
    ));
    assert!(matches!(
        eval_str("age | name", &rb),
        Err(EvalError::PipeRequiresBatch)
    ));
    assert!(matches!(
        eval_str("age[*].name", &rb),
        Err(EvalError::ProjectionUnsupported)
    ));
    assert!(matches!(
        eval_str("age[]", &rb),
        Err(EvalError::FlattenUnsupported)
    ));
    assert!(matches!(
        eval_str("{x: sum(age)}", &rb),
        Err(EvalError::ScalarInMultiSelect)
    ));
    assert!(matches!(
        eval_str("age[7]", &rb),
        Err(EvalError::IndexOutOfBounds)
    ));
    assert!(matches!(
        eval_str("age[-4]", &rb),
        Err(EvalError::IndexOutOfBounds)
    ));
    assert!(matches!(eval_str("opt[1]", &rb), Err(EvalError::NullIndex)));
    assert!(matches!(
        eval_str("age[::0]", &rb),
        Err(EvalError::InvalidSlice)
    ));
    assert!(matches!(
        eval_str("frobnicate(age)", &rb),
        Err(EvalError::UnknownFunction(_))
    ));
    assert!(matches!(
        eval_str("length(age, name)", &rb),
        Err(EvalError::ArityMismatch { .. })
    ));
    assert!(matches!(
        eval_str("length(age)", &rb),
        Err(EvalError::ArgumentKindMismatch { .. })
    ));
    assert!(matches!(
        eval_str("sort_by(@, name)", &rb),
        Err(EvalError::ArgumentKindMismatch { .. })
    ));
    assert!(matches!(
        eval_str("&age", &rb),
        Err(EvalError::InvalidExprRefUse)
    ));
    assert!(matches!(
        eval_str("min(not_null(opt))", &rb),
        Err(EvalError::ArgumentKindMismatch { .. })
    ));
}

#[test]
fn error_min_of_all_null_column() {
    let rb = make_batch(vec![(
        "v",
        Column::Int64(Int64Column { data: vec![None, None] }),
    )]);
    assert!(matches!(eval_str("min(v)", &rb), Err(EvalError::KernelError(_))));
    // Sum of the same column is zero, as the aggregation treats it.
    match eval_str("sum(v)", &rb).unwrap() {
        EvalResult::Int64Const(s) => assert_eq!(s, 0),
        other => panic!("Expected Int64Const, got {:?}", other),
    }
}

#[test]
fn group_by_with_duplicate_keys() {
    let rb = make_batch(vec![(
        "g",
        Column::Int32(Int32Column {
            data: vec![Some(3), Some(1), None, Some(3), Some(1), Some(2)],
        }),
    )]);
    if let EvalResult::Int32Array(arr) = eval_str("group_by(@, &g)", &rb).unwrap() {
        assert_eq!(arr.data, vec![Some(1), Some(2), Some(3)]);
    } else {
        panic!("Expected Int32Array");
    }
}

#[test]
fn parse_fixes_the_whole_tree() {
    // The exact tree of a comparison, remainder empty, whitespace ignored.
    let (rest, ast) = parse_jmespath("age > 25").unwrap();
    assert_eq!(rest, "");
    match ast {
        arrow_jmespath::JmesPathExpr::Compare { op: arrow_jmespath::CompareOp::Gt, lhs, rhs } => {
            assert!(matches!(&*lhs, arrow_jmespath::JmesPathExpr::Path(p) if *p == vec!["age"]));
            assert!(matches!(&*rhs, arrow_jmespath::JmesPathExpr::ConstInt(25)));
        },
        other => panic!("Expected Compare, got {:?}", other),
    }
}

#[test]
fn parse_double_bar_is_or_not_pipe() {
    let (_, ast) = parse_jmespath("a || b").unwrap();
    match ast {
        arrow_jmespath::JmesPathExpr::Logic { op: arrow_jmespath::LogicOp::Or, lhs, rhs } => {
            assert!(matches!(&*lhs, arrow_jmespath::JmesPathExpr::Path(p) if *p == vec!["a"]));
            assert!(
                matches!(rhs.as_deref(), Some(arrow_jmespath::JmesPathExpr::Path(p)) if *p == vec!["b"])
            );
        },
        other => panic!("Expected Logic Or, got {:?}", other),
    }
    let (_, ast) = parse_jmespath("a | b").unwrap();
    assert!(matches!(ast, arrow_jmespath::JmesPathExpr::Pipe(..)));
}

#[test]
fn parse_rejects_garbage() {
    assert!(parse_jmespath("").is_err());
    assert!(parse_jmespath("   ").is_err());
    assert!(parse_jmespath("?!").is_err());
    assert!(parse_jmespath("(age").is_err());
    assert!(parse_jmespath("'unterminated").is_err());
    // The syntax error carries the offending offset.
    let err = parse_jmespath("(age").unwrap_err();
    assert_eq!(err.offset, 4);
}

#[test]
fn empty_batch_edge_cases() {
    let rb = make_batch(vec![("v", Column::Int64(Int64Column { data: vec![] }))]);
    match eval_str("sum(v)", &rb).unwrap() {
        EvalResult::Int64Const(s) => assert_eq!(s, 0),
        other => panic!("Expected Int64Const, got {:?}", other),
    }
    match eval_str("avg(v)", &rb).unwrap() {
        EvalResult::FloatConst(bits) => assert_eq!(f64::from_bits(bits), 0.0),
        other => panic!("Expected FloatConst, got {:?}", other),
    }
    if let EvalResult::RecordBatch(fb) = eval_str("v[?v > 0]", &rb).unwrap() {
        assert_eq!(fb.num_rows(), 0);
    } else {
        panic!("Expected RecordBatch");
    }
}
