// Tests for utility functions: reverse() and not_null().
use arrow_jmespath::{eval_jmespath, parse_jmespath, Batch, Column, EvalResult, Float64Column,
    Int64Column, StringColumn};

fn i64_col(vals: &[i64]) -> Column {
    Column::Int64(Int64Column { data: vals.iter().map(|v| Some(*v)).collect() })
}

fn i64_col_opt(vals: Vec<Option<i64>>) -> Column {
    Column::Int64(Int64Column { data: vals })
}

fn str_col(vals: &[&str]) -> Column {
    Column::Utf8(StringColumn { data: vals.iter().map(|v| Some(v.to_string())).collect() })
}

fn str_col_opt(vals: Vec<Option<&str>>) -> Column {
    Column::Utf8(StringColumn { data: vals.into_iter().map(|v| v.map(|s| s.to_string())).collect() })
}

fn f64_col_opt(vals: Vec<Option<f64>>) -> Column {
    Column::Float64(Float64Column { data: vals.into_iter().map(|v| v.map(|x| x.to_bits())).collect() })
}

fn make_batch(fields: Vec<(&str, Column)>) -> Batch {
    let names = fields.iter().map(|(n, _)| n.to_string()).collect();
    let cols = fields.into_iter().map(|(_, c)| c).collect();
    Batch::try_new(names, cols).unwrap()
}

fn i64_at(b: &Batch, name: &str, row: usize) -> i64 {
    let i = b.names.iter().position(|n| n == name).unwrap();
    match &b.cols[i] {
        Column::Int64(c) => c.data[row].unwrap(),
        _ => panic!("not an int64 column"),
    }
}

fn str_at(b: &Batch, name: &str, row: usize) -> String {
    let i = b.names.iter().position(|n| n == name).unwrap();
    match &b.cols[i] {
        Column::Utf8(c) => c.data[row].clone().unwrap(),
        _ => panic!("not a string column"),
    }
}

fn f64_at(b: &Batch, name: &str, row: usize) -> f64 {
    let i = b.names.iter().position(|n| n == name).unwrap();
    match &b.cols[i] {
        Column::Float64(c) => f64::from_bits(c.data[row].unwrap()),
        _ => panic!("not a float column"),
    }
}

#[test]
fn test_reverse_int_array() {
    let rb = make_batch(vec![("values", i64_col(&[1, 2, 3, 4, 5]))]);
    let (_, expr) = parse_jmespath("reverse(values)").unwrap();
    let result = eval_jmespath(&expr, &rb).unwrap();

    if let EvalResult::Int64Array(arr) = result {
        assert_eq!(arr.len(), 5);
        assert_eq!(arr.value(0), 5);
        assert_eq!(arr.value(1), 4);
        assert_eq!(arr.value(2), 3);
        assert_eq!(arr.value(3), 2);
        assert_eq!(arr.value(4), 1);
    } else {
        panic!("Expected Int64Array");
    }
}

#[test]
fn test_reverse_string_array() {
    let rb = make_batch(vec![("name", str_col(&["Alice", "Bob", "Charlie"]))]);
    let (_, expr) = parse_jmespath("reverse(name)").unwrap();
    let result = eval_jmespath(&expr, &rb).unwrap();

    if let EvalResult::StringArray(arr) = result {
        assert_eq!(arr.len(), 3);
        assert_eq!(arr.value(0), "Charlie");
        assert_eq!(arr.value(1), "Bob");
        assert_eq!(arr.value(2), "Alice");
    } else {
        panic!("Expected StringArray");
    }
}

#[test]
fn test_reverse_recordbatch() {
    let rb = make_batch(vec![
        ("name", str_col(&["Alice", "Bob", "Charlie"])),
        ("age", i64_col(&[30, 25, 35])),
    ]);
    let (_, expr) = parse_jmespath("reverse(@)").unwrap();
    let result = eval_jmespath(&expr, &rb).unwrap();

    if let EvalResult::RecordBatch(reversed_rb) = result {
        // First row is Charlie.
        assert_eq!(str_at(&reversed_rb, "name", 0), "Charlie");
        assert_eq!(i64_at(&reversed_rb, "age", 0), 35);

        // Last row is Alice.
        assert_eq!(str_at(&reversed_rb, "name", 2), "Alice");
        assert_eq!(i64_at(&reversed_rb, "age", 2), 30);
    } else {
        panic!("Expected RecordBatch");
    }
}

#[test]
fn test_reverse_with_sort_by() {
    // Classic use case: descending sort.
    let rb = make_batch(vec![
        ("product", str_col(&["Laptop", "Mouse", "Monitor", "Keyboard"])),
        ("price", i64_col(&[999, 29, 399, 79])),
    ]);

    // Sort ascending, then reverse for descending.
    let (_, expr) = parse_jmespath("reverse(sort_by(@, &price))").unwrap();
    let result = eval_jmespath(&expr, &rb).unwrap();

    if let EvalResult::RecordBatch(sorted_rb) = result {
        // Descending order: 999, 399, 79, 29.
        assert_eq!(i64_at(&sorted_rb, "price", 0), 999);
        assert_eq!(str_at(&sorted_rb, "product", 0), "Laptop");

        assert_eq!(i64_at(&sorted_rb, "price", 1), 399);
        assert_eq!(str_at(&sorted_rb, "product", 1), "Monitor");

        assert_eq!(i64_at(&sorted_rb, "price", 2), 79);
        assert_eq!(str_at(&sorted_rb, "product", 2), "Keyboard");

        assert_eq!(i64_at(&sorted_rb, "price", 3), 29);
        assert_eq!(str_at(&sorted_rb, "product", 3), "Mouse");
    } else {
        panic!("Expected RecordBatch");
    }
}

#[test]
fn test_reverse_empty_array() {
    // A single-element array (an empty one would have no schema).
    let rb = make_batch(vec![("x", i64_col(&[1]))]);

    let (_, expr) = parse_jmespath("reverse(x)").unwrap();
    let result = eval_jmespath(&expr, &rb).unwrap();

    // Should not fail and return the single element.
    if let EvalResult::Int64Array(arr) = result {
        assert_eq!(arr.len(), 1);
        assert_eq!(arr.value(0), 1);
    } else {
        panic!("Expected Int64Array");
    }
}

#[test]
fn test_not_null_filters_nulls() {
    let rb = make_batch(vec![
        ("name", str_col(&["Alice", "Bob", "Charlie", "Diana", "Eve"])),
        (
            "email",
            str_col_opt(vec![
                Some("alice@example.com"),
                None,
                Some("charlie@example.com"),
                None,
                Some("eve@example.com"),
            ]),
        ),
    ]);
    let (_, expr) = parse_jmespath("not_null(email)").unwrap();
    let result = eval_jmespath(&expr, &rb).unwrap();

    if let EvalResult::RecordBatch(filtered_rb) = result {
        // Only three rows remain (Alice, Charlie, Eve).
        assert_eq!(filtered_rb.num_rows(), 3);

        assert_eq!(str_at(&filtered_rb, "name", 0), "Alice");
        assert_eq!(str_at(&filtered_rb, "name", 1), "Charlie");
        assert_eq!(str_at(&filtered_rb, "name", 2), "Eve");
    } else {
        panic!("Expected RecordBatch");
    }
}

#[test]
fn test_not_null_all_values_present() {
    let rb = make_batch(vec![
        ("name", str_col(&["Alice", "Bob", "Charlie"])),
        ("score", i64_col(&[85, 92, 78])),
    ]);
    let (_, expr) = parse_jmespath("not_null(score)").unwrap();
    let result = eval_jmespath(&expr, &rb).unwrap();

    if let EvalResult::RecordBatch(filtered_rb) = result {
        // All rows remain.
        assert_eq!(filtered_rb.num_rows(), 3);
    } else {
        panic!("Expected RecordBatch");
    }
}

#[test]
fn test_not_null_all_nulls() {
    // A mix of null and non-null values.
    let rb = make_batch(vec![
        ("name", str_col(&["Alice", "Bob", "Charlie"])),
        ("optional", i64_col_opt(vec![None, Some(1), None])),
    ]);
    let (_, expr) = parse_jmespath("not_null(optional)").unwrap();
    let result = eval_jmespath(&expr, &rb).unwrap();

    if let EvalResult::RecordBatch(filtered_rb) = result {
        // Only one row remains (Bob).
        assert_eq!(filtered_rb.num_rows(), 1);
    } else {
        panic!("Expected RecordBatch");
    }
}

#[test]
fn test_not_null_with_filter_chain() {
    let rb = make_batch(vec![
        ("name", str_col(&["Alice", "Bob", "Charlie", "Diana"])),
        ("age", i64_col(&[30, 25, 35, 28])),
        (
            "email",
            str_col_opt(vec![
                Some("alice@example.com"),
                None,
                Some("charlie@example.com"),
                None,
            ]),
        ),
    ]);

    // First filter by age, then filter out nulls.
    let (_, age_filter) = parse_jmespath("age[?age > 25]").unwrap();
    let age_filtered = eval_jmespath(&age_filter, &rb).unwrap();

    if let EvalResult::RecordBatch(age_rb) = age_filtered {
        let (_, not_null_expr) = parse_jmespath("not_null(email)").unwrap();
        let result = eval_jmespath(&not_null_expr, &age_rb).unwrap();

        if let EvalResult::RecordBatch(final_rb) = result {
            // Two rows: Alice (30) and Charlie (35);
            // Diana (28 > 25 but null email) is filtered out.
            assert_eq!(final_rb.num_rows(), 2);

            assert_eq!(str_at(&final_rb, "name", 0), "Alice");
            assert_eq!(str_at(&final_rb, "name", 1), "Charlie");
        } else {
            panic!("Expected RecordBatch from not_null");
        }
    } else {
        panic!("Expected RecordBatch from age filter");
    }
}

#[test]
fn test_not_null_string_field() {
    let rb = make_batch(vec![
        ("id", i64_col(&[1, 2, 3, 4])),
        ("comment", str_col_opt(vec![Some("Great!"), None, Some("Good"), None])),
    ]);
    let (_, expr) = parse_jmespath("not_null(comment)").unwrap();
    let result = eval_jmespath(&expr, &rb).unwrap();

    if let EvalResult::RecordBatch(filtered_rb) = result {
        assert_eq!(filtered_rb.num_rows(), 2);

        assert_eq!(i64_at(&filtered_rb, "id", 0), 1);
        assert_eq!(i64_at(&filtered_rb, "id", 1), 3);
    } else {
        panic!("Expected RecordBatch");
    }
}

#[test]
fn test_reverse_and_not_null_combined() {
    let rb = make_batch(vec![
        ("name", str_col(&["Alice", "Bob", "Charlie", "Diana", "Eve"])),
        ("score", i64_col_opt(vec![Some(85), None, Some(92), None, Some(78)])),
    ]);

    // Filter out nulls first.
    let (_, not_null_expr) = parse_jmespath("not_null(score)").unwrap();
    let filtered = eval_jmespath(&not_null_expr, &rb).unwrap();

    if let EvalResult::RecordBatch(filtered_rb) = filtered {
        // Then sort by score.
        let (_, sort_expr) = parse_jmespath("sort_by(@, &score)").unwrap();
        let sorted = eval_jmespath(&sort_expr, &filtered_rb).unwrap();

        if let EvalResult::RecordBatch(sorted_rb) = sorted {
            // Then reverse for descending order.
            let (_, reverse_expr) = parse_jmespath("reverse(@)").unwrap();
            let final_result = eval_jmespath(&reverse_expr, &sorted_rb).unwrap();

            if let EvalResult::RecordBatch(final_rb) = final_result {
                // Charlie (92), Alice (85), Eve (78).
                assert_eq!(final_rb.num_rows(), 3);
                assert_eq!(str_at(&final_rb, "name", 0), "Charlie");
                assert_eq!(i64_at(&final_rb, "score", 0), 92);
                assert_eq!(str_at(&final_rb, "name", 1), "Alice");
                assert_eq!(i64_at(&final_rb, "score", 1), 85);
                assert_eq!(str_at(&final_rb, "name", 2), "Eve");
                assert_eq!(i64_at(&final_rb, "score", 2), 78);
            } else {
                panic!("Expected RecordBatch from reverse");
            }
        } else {
            panic!("Expected RecordBatch from sort");
        }
    } else {
        panic!("Expected RecordBatch from not_null");
    }
}

#[test]
fn test_real_world_use_case() {
    // Product catalog with optional ratings.
    let rb = make_batch(vec![
        (
            "product",
            str_col(&["Laptop", "Mouse", "Monitor", "Keyboard", "Webcam", "Headset"]),
        ),
        ("price", i64_col(&[999, 29, 399, 79, 149, 89])),
        (
            "rating",
            f64_col_opt(vec![Some(4.5), None, Some(4.8), None, Some(4.2), Some(4.7)]),
        ),
    ]);

    // Goal: top-rated products (exclude unrated, sort by rating descending).

    // Step 1: filter out products without ratings.
    let (_, not_null_expr) = parse_jmespath("not_null(rating)").unwrap();
    let rated = eval_jmespath(&not_null_expr, &rb).unwrap();

    if let EvalResult::RecordBatch(rated_rb) = rated {
        // Step 2: sort by rating.
        let (_, sort_expr) = parse_jmespath("sort_by(@, &rating)").unwrap();
        let sorted = eval_jmespath(&sort_expr, &rated_rb).unwrap();

        if let EvalResult::RecordBatch(sorted_rb) = sorted {
            // Step 3: reverse for descending order.
            let (_, reverse_expr) = parse_jmespath("reverse(@)").unwrap();
            let result = eval_jmespath(&reverse_expr, &sorted_rb).unwrap();

            if let EvalResult::RecordBatch(final_rb) = result {
                // Top-rated first: Monitor (4.8), Headset (4.7), Laptop (4.5), Webcam (4.2).
                assert_eq!(final_rb.num_rows(), 4);
                assert_eq!(str_at(&final_rb, "product", 0), "Monitor");
                assert_eq!(f64_at(&final_rb, "rating", 0), 4.8);
                assert_eq!(str_at(&final_rb, "product", 1), "Headset");
                assert_eq!(str_at(&final_rb, "product", 3), "Webcam");
            } else {
                panic!("Expected RecordBatch");
            }
        } else {
            panic!("Expected RecordBatch from sort");
        }
    } else {
        panic!("Expected RecordBatch from not_null");
    }
}
