use arrow_jmespath::{eval_jmespath, parse_jmespath, Batch, Column, EvalResult, Int64Column,
    StringColumn, BoolColumn};

fn i64_col(vals: &[i64]) -> Column {
    Column::Int64(Int64Column { data: vals.iter().map(|v| Some(*v)).collect() })
}

fn str_col(vals: &[&str]) -> Column {
    Column::Utf8(StringColumn { data: vals.iter().map(|v| Some(v.to_string())).collect() })
}

fn bool_col(vals: &[bool]) -> Column {
    Column::Bool(BoolColumn { data: vals.iter().map(|v| Some(*v)).collect() })
}

fn f64_col(vals: &[f64]) -> Column {
    Column::Float64(arrow_jmespath::Float64Column {
        data: vals.iter().map(|v| Some(v.to_bits())).collect(),
    })
}

fn make_batch(fields: Vec<(&str, Column)>) -> Batch {
    let names = fields.iter().map(|(n, _)| n.to_string()).collect();
    let cols = fields.into_iter().map(|(_, c)| c).collect();
    Batch::try_new(names, cols).unwrap()
}

#[test]
fn test_int_comparison_gt() {
    let rb = make_batch(vec![("age", i64_col(&[25, 30, 20]))]);
    let (_, ast) = parse_jmespath("age > 25").unwrap();
    let result = eval_jmespath(&ast, &rb).unwrap();

    if let EvalResult::BoolArray(mask) = result {
        assert_eq!(mask.len(), 3);
        assert_eq!(mask.value(0), false); // 25 > 25 is false
        assert_eq!(mask.value(1), true); // 30 > 25 is true
        assert_eq!(mask.value(2), false); // 20 > 25 is false
    } else {
        panic!("Expected BoolArray");
    }
}

#[test]
fn test_string_comparison_eq() {
    let rb = make_batch(vec![("name", str_col(&["Alice", "Bob", "Charlie"]))]);
    let (_, ast) = parse_jmespath("name == 'Bob'").unwrap();
    let result = eval_jmespath(&ast, &rb).unwrap();

    if let EvalResult::BoolArray(mask) = result {
        assert_eq!(mask.len(), 3);
        assert_eq!(mask.value(0), false);
        assert_eq!(mask.value(1), true);
        assert_eq!(mask.value(2), false);
    } else {
        panic!("Expected BoolArray");
    }
}

#[test]
fn test_float_comparison() {
    let rb = make_batch(vec![("price", f64_col(&[19.99, 29.99, 15.50]))]);
    let (_, ast) = parse_jmespath("price < 25.0").unwrap();
    let result = eval_jmespath(&ast, &rb).unwrap();

    if let EvalResult::BoolArray(mask) = result {
        assert_eq!(mask.len(), 3);
        assert_eq!(mask.value(0), true); // 19.99 < 25.0
        assert_eq!(mask.value(1), false); // 29.99 < 25.0
        assert_eq!(mask.value(2), true); // 15.50 < 25.0
    } else {
        panic!("Expected BoolArray");
    }
}

#[test]
fn test_boolean_comparison() {
    let rb = make_batch(vec![("active", bool_col(&[true, false, true]))]);
    let (_, ast) = parse_jmespath("active == true").unwrap();
    let result = eval_jmespath(&ast, &rb).unwrap();

    if let EvalResult::BoolArray(mask) = result {
        assert_eq!(mask.len(), 3);
        assert_eq!(mask.value(0), true);
        assert_eq!(mask.value(1), false);
        assert_eq!(mask.value(2), true);
    } else {
        panic!("Expected BoolArray");
    }
}

#[test]
fn test_logical_and() {
    let rb = make_batch(vec![
        ("age", i64_col(&[25, 30, 20])),
        ("active", bool_col(&[true, false, true])),
    ]);
    let (_, ast) = parse_jmespath("age > 22 && active == true").unwrap();
    let result = eval_jmespath(&ast, &rb).unwrap();

    if let EvalResult::BoolArray(mask) = result {
        assert_eq!(mask.len(), 3);
        assert_eq!(mask.value(0), true); // 25 > 22 && true
        assert_eq!(mask.value(1), false); // 30 > 22 && false
        assert_eq!(mask.value(2), false); // 20 > 22 && true
    } else {
        panic!("Expected BoolArray");
    }
}

#[test]
fn test_logical_or() {
    let rb = make_batch(vec![("age", i64_col(&[25, 30, 15]))]);
    let (_, ast) = parse_jmespath("age < 20 || age > 28").unwrap();
    let result = eval_jmespath(&ast, &rb).unwrap();

    if let EvalResult::BoolArray(mask) = result {
        assert_eq!(mask.len(), 3);
        assert_eq!(mask.value(0), false); // 25 < 20 || 25 > 28 = false
        assert_eq!(mask.value(1), true); // 30 < 20 || 30 > 28 = true
        assert_eq!(mask.value(2), true); // 15 < 20 || 15 > 28 = true
    } else {
        panic!("Expected BoolArray");
    }
}

#[test]
fn test_logical_not() {
    let rb = make_batch(vec![("active", bool_col(&[true, false]))]);
    let (_, ast) = parse_jmespath("!active").unwrap();
    let result = eval_jmespath(&ast, &rb).unwrap();

    if let EvalResult::BoolArray(mask) = result {
        assert_eq!(mask.len(), 2);
        assert_eq!(mask.value(0), false);
        assert_eq!(mask.value(1), true);
    } else {
        panic!("Expected BoolArray");
    }
}

#[test]
fn test_complex_expression() {
    let rb = make_batch(vec![
        ("age", i64_col(&[25, 30, 20])),
        ("salary", i64_col(&[50000, 60000, 45000])),
        ("name", str_col(&["Alice", "Bob", "Charlie"])),
    ]);
    let (_, ast) = parse_jmespath("(age > 25 && salary < 65000) || name == 'Charlie'").unwrap();
    let result = eval_jmespath(&ast, &rb).unwrap();

    if let EvalResult::BoolArray(mask) = result {
        assert_eq!(mask.len(), 3);
        assert_eq!(mask.value(0), false); // (25 > 25 && 50000 < 65000) || false = false
        assert_eq!(mask.value(1), true); // (30 > 25 && 60000 < 65000) || false = true
        assert_eq!(mask.value(2), true); // (20 > 25 && 45000 < 65000) || true = true
    } else {
        panic!("Expected BoolArray");
    }
}

#[test]
fn test_all_comparison_operators() {
    let rb = make_batch(vec![("value", i64_col(&[10, 20, 30]))]);

    let tests = vec![
        ("value == 20", vec![false, true, false]),
        ("value != 20", vec![true, false, true]),
        ("value > 15", vec![false, true, true]),
        ("value < 25", vec![true, true, false]),
        ("value >= 20", vec![false, true, true]),
        ("value <= 20", vec![true, true, false]),
    ];

    for (expr, expected) in tests {
        let (_, ast) = parse_jmespath(expr).unwrap();
        let result = eval_jmespath(&ast, &rb).unwrap();

        if let EvalResult::BoolArray(mask) = result {
            for (i, &exp) in expected.iter().enumerate() {
                assert_eq!(mask.value(i), exp, "Failed for expression: {} at index {}", expr, i);
            }
        } else {
            panic!("Expected BoolArray for expression: {}", expr);
        }
    }
}

#[test]
fn test_filter_record_batch() {
    let rb = make_batch(vec![
        ("name", str_col(&["Alice", "Bob", "Charlie"])),
        ("age", i64_col(&[25, 30, 20])),
    ]);

    let (_, ast) = parse_jmespath("age > 22").unwrap();
    let result = eval_jmespath(&ast, &rb).unwrap();

    if let EvalResult::BoolArray(mask) = result {
        let filtered = arrow_jmespath::filter_record_batch_fn(&rb, &mask);

        assert_eq!(filtered.num_rows(), 2); // Alice and Bob
        assert_eq!(rb.num_rows(), 3); // Original unchanged
    } else {
        panic!("Expected BoolArray");
    }
}
