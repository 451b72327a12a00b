use parquet_flamegraph::args::Args;
use parquet_flamegraph::args::ArgsError;
use parquet_flamegraph::args::InputPathError;
use parquet_flamegraph::args::Unit;
use parquet_flamegraph::args::file_name_of;
use parquet_flamegraph::args::is_parquet_path;
use parquet_flamegraph::args::select_input_paths;
use parquet_flamegraph::args::temp_output_file_name;
use parquet_flamegraph::args::fresh_temp_output_file_name;

#[test]
fn test_required_argument() {
    let args = Args::parse_from(&["program_name", "--input-path", "example.parquet"]);
    assert_eq!(args.input_path, "example.parquet");
    assert!(args.output_path.is_none());
}

#[test]
fn test_with_optional_output_path() {
    let args = Args::parse_from(&[
        "program_name",
        "--input-path",
        "example.parquet",
        "--output-path",
        "output.svg",
    ]);
    assert_eq!(args.input_path, "example.parquet");
    assert_eq!(args.output_path, Some("output.svg".to_string()));
}

#[test]
fn test_short_flags() {
    let args = Args::parse_from(&["program_name", "-i", "example.parquet", "-o", "output.svg"]);
    assert_eq!(args.input_path, "example.parquet");
    assert_eq!(args.output_path, Some("output.svg".to_string()));
}

#[test]
fn test_missing_required_argument() {
    let result = Args::try_parse_from(&["program_name"]);
    assert!(result.is_err());
}

#[test]
fn test_help_flag() {
    let result = Args::try_parse_from(&["program_name", "--help"]);
    assert!(result.is_err());
}

#[test]
fn test_parse_error_variants() {
    assert_eq!(
        Args::try_parse_from(&["program_name"]).unwrap_err(),
        ArgsError::MissingInputPath
    );
    assert_eq!(
        Args::try_parse_from(&["program_name", "--input-path"]).unwrap_err(),
        ArgsError::MissingFlagValue
    );
    assert_eq!(
        Args::try_parse_from(&["program_name", "--frobnicate"]).unwrap_err(),
        ArgsError::UnknownArgument
    );
    assert_eq!(
        Args::try_parse_from(&["program_name", "-i", "x.parquet", "-u", "tb"]).unwrap_err(),
        ArgsError::InvalidUnit
    );
    assert_eq!(
        Args::try_parse_from(&["program_name", "-h"]).unwrap_err(),
        ArgsError::HelpRequested
    );
    assert_eq!(
        Args::try_parse_from(&["program_name", "--version"]).unwrap_err(),
        ArgsError::VersionRequested
    );
}

#[test]
fn test_unit_flag() {
    let args = Args::parse_from(&["program_name", "-i", "x.parquet", "--unit", "kb"]);
    assert_eq!(args.unit, Unit::KiloBytes);
    let args = Args::parse_from(&["program_name", "-i", "x.parquet", "-u", "gb"]);
    assert_eq!(args.unit, Unit::GigaBytes);
    let args = Args::parse_from(&["program_name", "-i", "x.parquet"]);
    assert_eq!(args.unit, Unit::Bytes);
}

#[test]
fn test_unit_codes_labels_divisors() {
    assert_eq!(Unit::of_code("b"), Some(Unit::Bytes));
    assert_eq!(Unit::of_code("kb"), Some(Unit::KiloBytes));
    assert_eq!(Unit::of_code("mb"), Some(Unit::MegaBytes));
    assert_eq!(Unit::of_code("gb"), Some(Unit::GigaBytes));
    assert_eq!(Unit::of_code("bytes"), None);
    assert_eq!(Unit::Bytes.label(), "Bytes");
    assert_eq!(Unit::KiloBytes.label(), "KB");
    assert_eq!(Unit::MegaBytes.label(), "MB");
    assert_eq!(Unit::GigaBytes.label(), "GB");
    assert_eq!(Unit::Bytes.divisor(), 1);
    assert_eq!(Unit::KiloBytes.divisor(), 1024);
    assert_eq!(Unit::MegaBytes.divisor(), 1024 * 1024);
    assert_eq!(Unit::GigaBytes.divisor(), 1024 * 1024 * 1024);
    assert_eq!(Unit::default(), Unit::Bytes);
}

#[test]
fn test_input_file_name() {
    let args = Args {
        input_path: "./resources/example.parquet".to_string(),
        output_path: None,
        unit: Unit::Bytes,
    };
    assert_eq!(args.input_file_name(), Some("example.parquet".to_string()));

    assert_eq!(file_name_of("example.parquet"), Some("example.parquet".to_string()));
    assert_eq!(file_name_of("a/b/c.parquet"), Some("c.parquet".to_string()));
    assert_eq!(file_name_of("a/dir/"), Some("dir".to_string()));
    assert_eq!(file_name_of("/"), None);
    assert_eq!(file_name_of(""), None);
    assert_eq!(file_name_of("a/.."), None);
    assert_eq!(file_name_of(".."), None);
    // `.` components are skipped, as std's Path::file_name skips them
    assert_eq!(file_name_of("a/."), Some("a".to_string()));
    assert_eq!(file_name_of("foo.txt/."), Some("foo.txt".to_string()));
    assert_eq!(file_name_of("foo.txt/.//"), Some("foo.txt".to_string()));
    assert_eq!(file_name_of("."), None);
    assert_eq!(file_name_of("./"), None);
    // a name that merely ends in a dot is itself the file name
    assert_eq!(file_name_of("ab."), Some("ab.".to_string()));
}

#[test]
fn test_is_parquet_path() {
    assert!(is_parquet_path("example.parquet"));
    assert!(is_parquet_path("./dir/nested_maps.snappy.parquet"));
    assert!(is_parquet_path("x.parquet/."));
    assert!(!is_parquet_path("not_a_parquet.txt"));
    assert!(!is_parquet_path(".parquet"));
    assert!(!is_parquet_path("parquet"));
    assert!(!is_parquet_path("dir/"));
}

#[test]
fn test_select_input_paths_directory() {
    let entries = vec![
        "./d/nested_maps.snappy_002.parquet".to_string(),
        "./d/readme.txt".to_string(),
        "./d/nested_maps.snappy_001.parquet".to_string(),
    ];
    let result = select_input_paths("./d", true, &entries).unwrap();
    assert_eq!(
        result,
        vec![
            "./d/nested_maps.snappy_002.parquet".to_string(),
            "./d/nested_maps.snappy_001.parquet".to_string(),
        ]
    );
}

#[test]
fn test_select_input_paths_empty_directory() {
    let entries = vec!["./d/readme.txt".to_string()];
    let err = select_input_paths("./resources/directory_no_parquet", true, &entries).unwrap_err();
    assert_eq!(
        err,
        InputPathError::NoParquetFilesFound {
            directory: "./resources/directory_no_parquet".to_string()
        }
    );
    assert_eq!(
        err.message(),
        "No parquet file found under ./resources/directory_no_parquet directory"
    );
}

#[test]
fn test_select_input_paths_single_file() {
    let no_entries: Vec<String> = Vec::new();
    let result = select_input_paths("./resources/example.parquet", false, &no_entries).unwrap();
    assert_eq!(result, vec!["./resources/example.parquet".to_string()]);

    let result = select_input_paths("x.parquet/.", false, &no_entries).unwrap();
    assert_eq!(result, vec!["x.parquet/.".to_string()]);

    let err = select_input_paths("./resources/not_a_parquet.txt", false, &no_entries).unwrap_err();
    assert_eq!(err, InputPathError::NotAParquetFile);
    assert_eq!(err.message(), "The file is not a .parquet file");
}

#[test]
fn test_output_file_name() {
    assert_eq!(
        temp_output_file_name("some-id"),
        "flamegraph_parquet-some-id.svg"
    );
    let fresh = fresh_temp_output_file_name();
    assert_eq!(fresh.chars().count(), 59);
    assert!(fresh.starts_with("flamegraph_parquet-"));
    assert!(fresh.ends_with(".svg"));
    assert_ne!(fresh, fresh_temp_output_file_name());

    let args = Args {
        input_path: "example.parquet".to_string(),
        output_path: Some("out.svg".to_string()),
        unit: Unit::Bytes,
    };
    assert_eq!(args.output_file_path(), "out.svg");
    let args = Args {
        input_path: "example.parquet".to_string(),
        output_path: None,
        unit: Unit::Bytes,
    };
    assert!(args.output_file_path().starts_with("flamegraph_parquet-"));
}
