use parquet_flamegraph::ColumnEntry;
use parquet_flamegraph::FileMetadata;
use parquet_flamegraph::RowGroup;
use parquet_flamegraph::args::Unit;
use parquet_flamegraph::parquet_column_size_to_flamegraph_format;

fn column(path: &[&str], compressed_size: u64) -> ColumnEntry {
    ColumnEntry {
        path: path.iter().map(|s| s.to_string()).collect(),
        compressed_size,
    }
}

#[test]
fn test_builder_nested_paths() {
    let metadata = FileMetadata {
        row_groups: vec![RowGroup {
            columns: vec![
                column(&["a", "key_value", "key"], 69),
                column(&["a", "key_value", "value", "key_value", "key"], 95),
                column(&["a", "key_value", "value", "key_value", "value"], 50),
                column(&["b"], 56),
                column(&["c"], 68),
            ],
        }],
    };
    let result = parquet_column_size_to_flamegraph_format(&metadata, &Unit::Bytes);
    let expected: Vec<String> = vec![
        "a;key_value;key 69".to_string(),
        "a;key_value;value;key_value;key 95".to_string(),
        "a;key_value;value;key_value;value 50".to_string(),
        "b 56".to_string(),
        "c 68".to_string(),
    ];
    assert_eq!(result, expected);
}

#[test]
fn test_builder_multiple_row_groups() {
    let metadata = FileMetadata {
        row_groups: vec![
            RowGroup {
                columns: vec![column(&["a"], 104), column(&["b"], 70)],
            },
            RowGroup {
                columns: vec![column(&["a"], 104), column(&["b"], 70)],
            },
        ],
    };
    let result = parquet_column_size_to_flamegraph_format(&metadata, &Unit::Bytes);
    let expected: Vec<String> = vec![
        "a 104".to_string(),
        "b 70".to_string(),
        "a 104".to_string(),
        "b 70".to_string(),
    ];
    assert_eq!(result, expected);
}

#[test]
fn test_builder_unit_truncation() {
    let metadata = FileMetadata {
        row_groups: vec![RowGroup {
            columns: vec![
                column(&["a"], 2050),
                column(&["b"], 1023),
                column(&["c"], 3 * 1024 * 1024),
            ],
        }],
    };
    let result = parquet_column_size_to_flamegraph_format(&metadata, &Unit::KiloBytes);
    assert_eq!(result, vec!["a 2".to_string(), "b 0".to_string(), "c 3072".to_string()]);
    let result = parquet_column_size_to_flamegraph_format(&metadata, &Unit::MegaBytes);
    assert_eq!(result, vec!["a 0".to_string(), "b 0".to_string(), "c 3".to_string()]);
}

#[test]
fn test_builder_line_count_is_column_count() {
    let metadata = FileMetadata {
        row_groups: vec![
            RowGroup {
                columns: vec![column(&["a"], 1), column(&["b"], 2)],
            },
            RowGroup {
                columns: vec![column(&["a"], 3), column(&["b"], 4), column(&["c"], 5)],
            },
            RowGroup { columns: vec![] },
        ],
    };
    let result = parquet_column_size_to_flamegraph_format(&metadata, &Unit::Bytes);
    assert_eq!(result.len(), 2 + 3 + 0);
}

#[test]
fn test_builder_empty_metadata() {
    let metadata = FileMetadata { row_groups: vec![] };
    let result = parquet_column_size_to_flamegraph_format(&metadata, &Unit::Bytes);
    assert!(result.is_empty());
}

#[test]
fn test_builder_is_pure() {
    let metadata = FileMetadata {
        row_groups: vec![RowGroup {
            columns: vec![column(&["a", "b"], 123), column(&["c"], 456)],
        }],
    };
    let first = parquet_column_size_to_flamegraph_format(&metadata, &Unit::KiloBytes);
    let second = parquet_column_size_to_flamegraph_format(&metadata, &Unit::KiloBytes);
    assert_eq!(first, second);
}

#[test]
fn test_builder_separator_in_field_name() {
    let metadata = FileMetadata {
        row_groups: vec![RowGroup {
            columns: vec![column(&["outer.inner", "leaf"], 7)],
        }],
    };
    let result = parquet_column_size_to_flamegraph_format(&metadata, &Unit::Bytes);
    assert_eq!(result, vec!["outer;inner;leaf 7".to_string()]);
}

#[test]
fn test_builder_large_sizes() {
    let metadata = FileMetadata {
        row_groups: vec![RowGroup {
            columns: vec![column(&["huge"], u64::MAX)],
        }],
    };
    let result = parquet_column_size_to_flamegraph_format(&metadata, &Unit::Bytes);
    assert_eq!(result, vec![format!("huge {}", u64::MAX)]);
    let result = parquet_column_size_to_flamegraph_format(&metadata, &Unit::GigaBytes);
    assert_eq!(result, vec![format!("huge {}", u64::MAX / (1024 * 1024 * 1024))]);
}
