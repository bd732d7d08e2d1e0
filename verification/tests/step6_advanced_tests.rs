// Tests for advanced features: @, &, sort_by, group_by.
use arrow_jmespath::{eval_jmespath, parse_jmespath, Batch, Column, EvalError, EvalResult,
    Int64Column, StringColumn, BoolColumn};

fn i64_col(vals: &[i64]) -> Column {
    Column::Int64(Int64Column { data: vals.iter().map(|v| Some(*v)).collect() })
}

fn str_col(vals: &[&str]) -> Column {
    Column::Utf8(StringColumn { data: vals.iter().map(|v| Some(v.to_string())).collect() })
}

fn bool_col(vals: &[bool]) -> Column {
    Column::Bool(BoolColumn { data: vals.iter().map(|v| Some(*v)).collect() })
}

fn make_batch(fields: Vec<(&str, Column)>) -> Batch {
    let names = fields.iter().map(|(n, _)| n.to_string()).collect();
    let cols = fields.into_iter().map(|(_, c)| c).collect();
    Batch::try_new(names, cols).unwrap()
}

fn i64_at(b: &Batch, name: &str, row: usize) -> i64 {
    let i = b.names.iter().position(|n| n == name).unwrap();
    match &b.cols[i] {
        Column::Int64(c) => c.data[row].unwrap(),
        _ => panic!("not an int64 column"),
    }
}

fn str_at(b: &Batch, name: &str, row: usize) -> String {
    let i = b.names.iter().position(|n| n == name).unwrap();
    match &b.cols[i] {
        Column::Utf8(c) => c.data[row].clone().unwrap(),
        _ => panic!("not a string column"),
    }
}

#[test]
fn test_parse_current_node() {
    let result = parse_jmespath("@");
    assert!(result.is_ok(), "Should parse @ successfully");

    let (remaining, _expr) = result.unwrap();
    assert_eq!(remaining, "", "Should consume entire input");
}

#[test]
fn test_parse_expr_ref() {
    let result = parse_jmespath("&age");
    assert!(result.is_ok(), "Should parse &age successfully");

    let (remaining, _expr) = result.unwrap();
    assert_eq!(remaining, "", "Should consume entire input");
}

#[test]
fn test_parse_expr_ref_complex() {
    let result = parse_jmespath("&name.first");
    assert!(result.is_ok(), "Should parse &name.first successfully");
}

#[test]
fn test_current_node_in_function() {
    let result = parse_jmespath("sort_by(@, &age)");
    assert!(result.is_ok(), "Should parse sort_by(@, &age) successfully");
}

#[test]
fn test_sort_by_numeric() {
    let rb = make_batch(vec![
        ("name", str_col(&["Charlie", "Alice", "Bob"])),
        ("age", i64_col(&[30, 25, 35])),
    ]);
    let (_, expr) = parse_jmespath("sort_by(@, &age)").unwrap();
    let result = eval_jmespath(&expr, &rb).unwrap();

    if let EvalResult::RecordBatch(sorted_rb) = result {
        // First element has age 25.
        assert_eq!(i64_at(&sorted_rb, "age", 0), 25);
        assert_eq!(str_at(&sorted_rb, "name", 0), "Alice");

        // Last element has age 35.
        assert_eq!(i64_at(&sorted_rb, "age", 2), 35);
        assert_eq!(str_at(&sorted_rb, "name", 2), "Bob");
    } else {
        panic!("Expected RecordBatch result");
    }
}

#[test]
fn test_sort_by_string() {
    let rb = make_batch(vec![
        ("name", str_col(&["Charlie", "Alice", "Bob"])),
        ("score", i64_col(&[85, 90, 78])),
    ]);
    let (_, expr) = parse_jmespath("sort_by(@, &name)").unwrap();
    let result = eval_jmespath(&expr, &rb).unwrap();

    if let EvalResult::RecordBatch(sorted_rb) = result {
        assert_eq!(str_at(&sorted_rb, "name", 0), "Alice");
        assert_eq!(str_at(&sorted_rb, "name", 1), "Bob");
        assert_eq!(str_at(&sorted_rb, "name", 2), "Charlie");
    } else {
        panic!("Expected RecordBatch result");
    }
}

#[test]
fn test_group_by_string() {
    let rb = make_batch(vec![
        ("product", str_col(&["Laptop", "Mouse", "Desk", "Chair", "Monitor"])),
        ("category", str_col(&[
            "Electronics",
            "Electronics",
            "Furniture",
            "Furniture",
            "Electronics",
        ])),
    ]);
    let (_, expr) = parse_jmespath("group_by(@, &category)").unwrap();
    let result = eval_jmespath(&expr, &rb).unwrap();

    if let EvalResult::StringArray(arr) = result {
        // Two unique categories, sorted alphabetically.
        assert_eq!(arr.len(), 2);
        assert_eq!(arr.value(0), "Electronics");
        assert_eq!(arr.value(1), "Furniture");
    } else {
        panic!("Expected StringArray result");
    }
}

#[test]
fn test_group_by_numeric() {
    let rb = make_batch(vec![
        ("name", str_col(&["Alice", "Bob", "Charlie", "Diana", "Eve"])),
        ("level", i64_col(&[2, 1, 2, 3, 1])),
    ]);
    let (_, expr) = parse_jmespath("group_by(@, &level)").unwrap();
    let result = eval_jmespath(&expr, &rb).unwrap();

    if let EvalResult::Int64Array(arr) = result {
        // Three unique levels, sorted.
        assert_eq!(arr.len(), 3);
        assert_eq!(arr.value(0), 1);
        assert_eq!(arr.value(1), 2);
        assert_eq!(arr.value(2), 3);
    } else {
        panic!("Expected Int64Array result");
    }
}

#[test]
fn test_filter_then_sort() {
    let rb = make_batch(vec![
        ("name", str_col(&["Alice", "Bob", "Charlie", "Diana"])),
        ("age", i64_col(&[30, 25, 35, 28])),
        ("active", bool_col(&[true, false, true, true])),
    ]);

    // First filter active users.
    let (_, filter_expr) = parse_jmespath("active[?active == true]").unwrap();
    let filtered = eval_jmespath(&filter_expr, &rb).unwrap();

    if let EvalResult::RecordBatch(filtered_rb) = filtered {
        // Then sort by age.
        let (_, sort_expr) = parse_jmespath("sort_by(@, &age)").unwrap();
        let sorted = eval_jmespath(&sort_expr, &filtered_rb).unwrap();

        if let EvalResult::RecordBatch(sorted_rb) = sorted {
            // Three active users, sorted by age.
            assert_eq!(sorted_rb.num_rows(), 3);
            assert_eq!(str_at(&sorted_rb, "name", 0), "Diana");
            assert_eq!(i64_at(&sorted_rb, "age", 0), 28);
            assert_eq!(str_at(&sorted_rb, "name", 2), "Charlie");
            assert_eq!(i64_at(&sorted_rb, "age", 2), 35);
        } else {
            panic!("Expected RecordBatch from sort");
        }
    } else {
        panic!("Expected RecordBatch from filter");
    }
}

#[test]
fn test_wildcard_projection_already_works() {
    let rb = make_batch(vec![
        ("name", str_col(&["Alice", "Bob"])),
        ("age", i64_col(&[30, 25])),
    ]);
    let (_, expr) = parse_jmespath("name").unwrap();
    let result = eval_jmespath(&expr, &rb).unwrap();

    if let EvalResult::StringArray(arr) = result {
        assert_eq!(arr.len(), 2);
        assert_eq!(arr.value(0), "Alice");
        assert_eq!(arr.value(1), "Bob");
    } else {
        panic!("Expected StringArray");
    }
}

#[test]
fn test_sort_by_with_empty_recordbatch() {
    let rb2 = make_batch(vec![
        ("name", str_col(&["Alice"])),
        ("age", i64_col(&[30])),
    ]);

    let (_, expr) = parse_jmespath("sort_by(@, &age)").unwrap();
    let result = eval_jmespath(&expr, &rb2).unwrap();

    // Should not fail and return a valid batch.
    assert!(matches!(result, EvalResult::RecordBatch(_)));
}

#[test]
fn test_expr_ref_in_non_function_context_panics() {
    let rb = make_batch(vec![
        ("name", str_col(&["Alice"])),
        ("age", i64_col(&[30])),
    ]);

    let (_, expr) = parse_jmespath("&age").unwrap();

    // Evaluating & outside of a function argument position is an error.
    let result = eval_jmespath(&expr, &rb);
    assert!(matches!(result, Err(EvalError::InvalidExprRefUse)));
}
