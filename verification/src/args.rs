//! Command-line level concerns: the display unit, the parsed arguments, and
//! the rules for picking input and output paths.

use vstd::prelude::*;
use vstd::string::StrSliceExecFns;
use vstd::string::StringExecFns;

use crate::text::str_eq;

verus! {

/// A path with trailing `/` separators and trailing `.` components removed:
/// `a/b//`, `a/b/.` and `a/b/./.` all end in the component `b`. A final `.`
/// counts as a component only when it stands alone, after a separator or as
/// the whole path; a name that merely ends in a dot, such as `ab.`, is kept.
pub open spec fn spec_strip_trailing(s: Seq<char>) -> Seq<char>
    decreases s.len(),
{
    if s.len() == 0 {
        s
    } else if s.last() == '/' {
        spec_strip_trailing(s.drop_last())
    } else if s.last() == '.' && (s.len() == 1 || s[s.len() - 2] == '/') {
        spec_strip_trailing(s.drop_last())
    } else {
        s
    }
}

/// The characters after the last `/` of a path.
pub open spec fn spec_last_component(s: Seq<char>) -> Seq<char>
    decreases s.len(),
{
    if s.len() == 0 {
        s
    } else if s.last() == '/' {
        Seq::empty()
    } else {
        spec_last_component(s.drop_last()) + seq![s.last()]
    }
}

/// The file name a path points at: its last component, trailing separators
/// and `.` components ignored; none when that component is empty or `..`.
pub open spec fn spec_file_name(s: Seq<char>) -> Option<Seq<char>> {
    let c = spec_last_component(spec_strip_trailing(s));
    if c.len() == 0 || c == ".."@ {
        None
    } else {
        Some(c)
    }
}

/// Whether a path names a parquet file: its file name ends in the `.parquet`
/// extension, with a non-empty stem before it.
pub open spec fn spec_is_parquet_path(s: Seq<char>) -> bool {
    match spec_file_name(s) {
        Some(f) => f.len() > 8 && f.subrange(f.len() - 8, f.len() as int) == ".parquet"@,
        None => false,
    }
}

/// The file name a path points at, if any.
pub fn file_name_of(path: &str) -> (r: Option<String>)
    ensures
        match r {
            Some(f) => spec_file_name(path@) == Some(f@),
            None => spec_file_name(path@) is None,
        },
{
    let n: usize = path.unicode_len();
    proof {
        assert(path@.take(n as int) =~= path@);
    }
    let mut end: usize = n;
    while end > 0 && (path.get_char(end - 1) == '/' || (path.get_char(end - 1) == '.' && (end == 1
        || path.get_char(end - 2) == '/')))
        invariant
            n == path@.len(),
            end <= n,
            spec_strip_trailing(path@) == spec_strip_trailing(path@.take(end as int)),
        decreases end,
    {
        proof {
            assert(path@.take(end as int).drop_last() =~= path@.take(end - 1));
        }
        end -= 1;
    }
    let ghost t = path@.take(end as int);
    proof {
        assert(spec_strip_trailing(t) == t);
    }
    let mut start: usize = end;
    while start > 0 && path.get_char(start - 1) != '/'
        invariant
            n == path@.len(),
            start <= end <= n,
            t == path@.take(end as int),
            spec_last_component(t) == spec_last_component(path@.take(start as int))
                + path@.subrange(start as int, end as int),
        decreases start,
    {
        proof {
            assert(path@.take(start as int).drop_last() =~= path@.take(start - 1));
            assert(spec_last_component(path@.take(start - 1)) + seq![path@[start - 1]]
                + path@.subrange(start as int, end as int) =~= spec_last_component(
                path@.take(start - 1),
            ) + path@.subrange(start - 1, end as int));
        }
        start -= 1;
    }
    proof {
        assert(spec_last_component(t) =~= path@.subrange(start as int, end as int));
    }
    let name: &str = path.substring_char(start, end);
    if name.unicode_len() == 0 {
        return None;
    }
    if str_eq(name, "..") {
        return None;
    }
    Some(name.to_owned())
}

/// Whether a path names a parquet file.
pub fn is_parquet_path(path: &str) -> (r: bool)
    ensures
        r == spec_is_parquet_path(path@),
{
    match file_name_of(path) {
        None => false,
        Some(f) => {
            let name: &str = f.as_str();
            let m: usize = name.unicode_len();
            if m <= 8 {
                false
            } else {
                let tail: &str = name.substring_char(m - 8, m);
                str_eq(tail, ".parquet")
            }
        },
    }
}

/// The display unit for compressed sizes. A column's byte count is divided by
/// the unit's divisor, truncating toward zero.
#[derive(Clone, Copy, Debug, PartialEq, Eq, PartialOrd, Ord, Structural)]
pub enum Unit {
    Bytes,
    KiloBytes,
    MegaBytes,
    GigaBytes,
}

/// The divisor a unit scales byte counts by.
pub open spec fn spec_unit_divisor(u: Unit) -> u64 {
    match u {
        Unit::Bytes => 1,
        Unit::KiloBytes => 1024,
        Unit::MegaBytes => 1048576,
        Unit::GigaBytes => 1073741824,
    }
}

impl Unit {
    /// The number of bytes that make one of this unit.
    pub fn divisor(&self) -> (d: u64)
        ensures
            d == spec_unit_divisor(*self),
            d >= 1,
    {
        match *self {
            Unit::Bytes => 1,
            Unit::KiloBytes => 1024,
            Unit::MegaBytes => 1048576,
            Unit::GigaBytes => 1073741824,
        }
    }
}

impl Default for Unit {
    /// Sizes are shown in plain bytes unless a unit is chosen.
    fn default() -> (u: Self)
        ensures
            u == Unit::Bytes,
    {
        Unit::Bytes
    }
}

/// The short label a unit is shown under, e.g. as the count label of the
/// rendered flame graph.
pub open spec fn spec_unit_label(u: Unit) -> Seq<char> {
    match u {
        Unit::Bytes => "Bytes"@,
        Unit::KiloBytes => "KB"@,
        Unit::MegaBytes => "MB"@,
        Unit::GigaBytes => "GB"@,
    }
}

/// The unit named by a command-line value, if any.
pub open spec fn spec_unit_of_code(s: Seq<char>) -> Option<Unit> {
    if s == "b"@ {
        Some(Unit::Bytes)
    } else if s == "kb"@ {
        Some(Unit::KiloBytes)
    } else if s == "mb"@ {
        Some(Unit::MegaBytes)
    } else if s == "gb"@ {
        Some(Unit::GigaBytes)
    } else {
        None
    }
}

impl Unit {
    /// The unit's display label.
    pub fn label(&self) -> (r: String)
        ensures
            r@ == spec_unit_label(*self),
    {
        match *self {
            Unit::Bytes => String::from_str("Bytes"),
            Unit::KiloBytes => String::from_str("KB"),
            Unit::MegaBytes => String::from_str("MB"),
            Unit::GigaBytes => String::from_str("GB"),
        }
    }

    /// The unit named by a command-line value, if any.
    pub fn of_code(s: &str) -> (r: Option<Unit>)
        ensures
            r == spec_unit_of_code(s@),
    {
        if str_eq(s, "b") {
            Some(Unit::Bytes)
        } else if str_eq(s, "kb") {
            Some(Unit::KiloBytes)
        } else if str_eq(s, "mb") {
            Some(Unit::MegaBytes)
        } else if str_eq(s, "gb") {
            Some(Unit::GigaBytes)
        } else {
            None
        }
    }
}

/// Why a command line was rejected.
#[derive(Clone, Copy, Debug, PartialEq, Eq, Structural)]
pub enum ArgsError {
    /// The required `--input-path` flag was never given.
    MissingInputPath,
    /// A flag that takes a value stood last on the line.
    MissingFlagValue,
    /// An argument that is none of the known flags.
    UnknownArgument,
    /// The value of `--unit` names no known unit.
    InvalidUnit,
    /// `--help` was asked for; the caller should print usage and stop.
    HelpRequested,
    /// `--version` was asked for; the caller should print it and stop.
    VersionRequested,
}

/// The arguments of one run: where to read, where to write, and the unit
/// sizes are displayed in.
#[derive(Clone, Debug)]
pub struct Args {
    /// Path to a single columnar file, or to a directory of them.
    pub input_path: String,
    /// Path the rendered flame graph is written to; a fresh temporary file
    /// when omitted.
    pub output_path: Option<String>,
    /// The display unit; plain bytes by default.
    pub unit: Unit,
}

/// The fields of an accepted command line, at the specification level.
pub struct SpecArgs {
    pub input_path: Seq<char>,
    pub output_path: Option<Seq<char>>,
    pub unit: Unit,
}

/// What parsing a command line yields.
pub enum SpecParseOutcome {
    Accepted(SpecArgs),
    Rejected(ArgsError),
}

/// One scan step over the arguments after the program name. A flag and its
/// value are two arguments; a `--flag=value` form is an unknown argument.
/// Flags may repeat; the last occurrence wins. An unknown argument, a flag
/// missing its value, or an unknown unit code rejects the line; `--help` and
/// `--version` stop it.
pub open spec fn spec_scan(
    rest: Seq<Seq<char>>,
    input: Option<Seq<char>>,
    output: Option<Seq<char>>,
    unit: Unit,
) -> SpecParseOutcome
    decreases rest.len(),
{
    if rest.len() == 0 {
        match input {
            Some(i) => SpecParseOutcome::Accepted(
                SpecArgs { input_path: i, output_path: output, unit },
            ),
            None => SpecParseOutcome::Rejected(ArgsError::MissingInputPath),
        }
    } else {
        let a = rest[0];
        if a == "--help"@ || a == "-h"@ {
            SpecParseOutcome::Rejected(ArgsError::HelpRequested)
        } else if a == "--version"@ || a == "-V"@ {
            SpecParseOutcome::Rejected(ArgsError::VersionRequested)
        } else if a == "--input-path"@ || a == "-i"@ {
            if rest.len() == 1 {
                SpecParseOutcome::Rejected(ArgsError::MissingFlagValue)
            } else {
                spec_scan(rest.skip(2), Some(rest[1]), output, unit)
            }
        } else if a == "--output-path"@ || a == "-o"@ {
            if rest.len() == 1 {
                SpecParseOutcome::Rejected(ArgsError::MissingFlagValue)
            } else {
                spec_scan(rest.skip(2), input, Some(rest[1]), unit)
            }
        } else if a == "--unit"@ || a == "-u"@ {
            if rest.len() == 1 {
                SpecParseOutcome::Rejected(ArgsError::MissingFlagValue)
            } else {
                match spec_unit_of_code(rest[1]) {
                    Some(u) => spec_scan(rest.skip(2), input, output, u),
                    None => SpecParseOutcome::Rejected(ArgsError::InvalidUnit),
                }
            }
        } else {
            SpecParseOutcome::Rejected(ArgsError::UnknownArgument)
        }
    }
}

/// What parsing a full command line (program name first) yields.
pub open spec fn spec_parse(args: Seq<Seq<char>>) -> SpecParseOutcome {
    spec_scan(
        if args.len() == 0 {
            args
        } else {
            args.skip(1)
        },
        None,
        None,
        Unit::Bytes,
    )
}

/// Why no input files could be selected.
#[derive(Clone, Debug, PartialEq, Eq)]
pub enum InputPathError {
    /// The input path is a directory holding no parquet file.
    NoParquetFilesFound { directory: String },
    /// The input path names a single file without the parquet extension.
    NotAParquetFile,
}

/// The message an input selection error is reported with.
pub open spec fn spec_input_path_error_message(e: InputPathError) -> Seq<char> {
    match e {
        InputPathError::NoParquetFilesFound { directory } => "No parquet file found under "@
            + directory@ + " directory"@,
        InputPathError::NotAParquetFile => "The file is not a .parquet file"@,
    }
}

impl InputPathError {
    /// The message this error is reported with.
    pub fn message(&self) -> (r: String)
        ensures
            r@ == spec_input_path_error_message(*self),
    {
        match self {
            InputPathError::NoParquetFilesFound { directory } => {
                let mut m = String::from_str("No parquet file found under ");
                m.append(directory.as_str());
                m.append(" directory");
                m
            },
            InputPathError::NotAParquetFile => String::from_str("The file is not a .parquet file"),
        }
    }
}

/// The entries of a directory that name parquet files, in the order they were
/// listed.
pub open spec fn spec_parquet_entries(entries: Seq<Seq<char>>) -> Seq<Seq<char>>
    decreases entries.len(),
{
    if entries.len() == 0 {
        Seq::empty()
    } else {
        spec_parquet_entries(entries.drop_last()) + if spec_is_parquet_path(entries.last()) {
            seq![entries.last()]
        } else {
            Seq::empty()
        }
    }
}

/// Chooses the files one run reads. For a directory, every listed entry with
/// the parquet extension, in listing order, and an error when there is none;
/// for a single path, that file, which must carry the parquet extension.
pub fn select_input_paths(
    input_path: &str,
    is_directory: bool,
    directory_entries: &Vec<String>,
) -> (r: Result<Vec<String>, InputPathError>)
    ensures
        is_directory ==> match r {
            Ok(v) => v.deep_view() == spec_parquet_entries(directory_entries.deep_view())
                && v@.len() > 0,
            Err(e) => spec_parquet_entries(directory_entries.deep_view()).len() == 0 && (
            e matches InputPathError::NoParquetFilesFound { directory } && directory@
                == input_path@),
        },
        !is_directory ==> match r {
            Ok(v) => spec_is_parquet_path(input_path@) && v.deep_view() == seq![input_path@],
            Err(e) => !spec_is_parquet_path(input_path@) && e == InputPathError::NotAParquetFile,
        },
{
    if is_directory {
        let ghost dv = directory_entries.deep_view();
        let n: usize = directory_entries.len();
        let mut found: Vec<String> = Vec::new();
        let mut i: usize = 0;
        while i < n
            invariant
                n == directory_entries@.len(),
                dv == directory_entries.deep_view(),
                i <= n,
                found.deep_view() == spec_parquet_entries(dv.take(i as int)),
            decreases n - i,
        {
            let entry = &directory_entries[i];
            proof {
                assert(dv.take(i + 1).drop_last() =~= dv.take(i as int));
                assert(dv.take(i + 1).last() == entry@);
            }
            if is_parquet_path(entry.as_str()) {
                let ghost pre = found.deep_view();
                found.push(entry.clone());
                proof {
                    assert(found.deep_view() =~= pre.push(entry@));
                    assert(found.deep_view() =~= spec_parquet_entries(dv.take(i + 1)));
                }
            } else {
                proof {
                    assert(found.deep_view() =~= spec_parquet_entries(dv.take(i + 1)));
                }
            }
            i += 1;
        }
        proof {
            assert(dv.take(n as int) =~= dv);
            assert(found@.len() == found.deep_view().len());
        }
        if found.len() == 0 {
            Err(InputPathError::NoParquetFilesFound { directory: input_path.to_owned() })
        } else {
            Ok(found)
        }
    } else {
        if is_parquet_path(input_path) {
            let mut v: Vec<String> = Vec::new();
            v.push(input_path.to_owned());
            proof {
                assert(v.deep_view() =~= seq![input_path@]);
            }
            Ok(v)
        } else {
            Err(InputPathError::NotAParquetFile)
        }
    }
}

/// Relies on uuid::Uuid::new_v4 and the Display form of a Uuid: a fresh
/// random UUID rendered hyphenated, which is 36 ASCII characters.
#[verifier::external_body]
fn fresh_uuid_string() -> (r: String)
    ensures
        r@.len() == 36,
{
    uuid::Uuid::new_v4().to_string()
}

/// The name of the temporary output file for one run, built around the given
/// identifier.
pub fn temp_output_file_name(id: &str) -> (r: String)
    ensures
        r@ == "flamegraph_parquet-"@ + id@ + ".svg"@,
{
    let mut s = String::from_str("flamegraph_parquet-");
    s.append(id);
    s.append(".svg");
    s
}

/// A temporary output file name no other run will pick: a fixed prefix and
/// extension around a fresh 36-character identifier.
pub fn fresh_temp_output_file_name() -> (r: String)
    ensures
        r@.len() == 59,
        r@.subrange(0, 19) == "flamegraph_parquet-"@,
        r@.subrange(55, 59) == ".svg"@,
{
    let id = fresh_uuid_string();
    let r = temp_output_file_name(id.as_str());
    proof {
        reveal_strlit("flamegraph_parquet-");
        reveal_strlit(".svg");
        assert(r@.subrange(0, 19) =~= "flamegraph_parquet-"@);
        assert(r@.subrange(55, 59) =~= ".svg"@);
    }
    r
}

impl Args {
    /// The file name of the input path, if it has one.
    pub fn input_file_name(&self) -> (r: Option<String>)
        ensures
            match r {
                Some(f) => spec_file_name(self.input_path@) == Some(f@),
                None => spec_file_name(self.input_path@) is None,
            },
    {
        file_name_of(self.input_path.as_str())
    }

    /// The path the flame graph is written to: the one asked for, or a fresh
    /// temporary file name when none was.
    pub fn output_file_path(&self) -> (r: String)
        ensures
            match self.output_path {
                Some(p) => r@ == p@,
                None => r@.len() == 59 && r@.subrange(0, 19) == "flamegraph_parquet-"@
                    && r@.subrange(55, 59) == ".svg"@,
            },
    {
        match &self.output_path {
            Some(p) => p.clone(),
            None => fresh_temp_output_file_name(),
        }
    }

    /// Parses a command line, the program name first. Returns exactly what
    /// `spec_parse` says of it.
    pub fn try_parse_from(args: &[&str]) -> (r: Result<Args, ArgsError>)
        ensures
            match r {
                Ok(a) => spec_parse(args.deep_view()) == SpecParseOutcome::Accepted(
                    SpecArgs {
                        input_path: a.input_path@,
                        output_path: a.output_path.deep_view(),
                        unit: a.unit,
                    },
                ),
                Err(e) => spec_parse(args.deep_view()) == SpecParseOutcome::Rejected(e),
            },
    {
        let ghost v = args.deep_view();
        let n: usize = args.len();
        let mut input: Option<String> = None;
        let mut output: Option<String> = None;
        let mut unit: Unit = Unit::Bytes;
        if n == 0 {
            return Err(ArgsError::MissingInputPath);
        }
        let mut i: usize = 1;
        while i < n
            invariant
                n == v.len(),
                n == args@.len(),
                v == args.deep_view(),
                1 <= i <= n,
                spec_scan(v.skip(i as int), input.deep_view(), output.deep_view(), unit)
                    == spec_parse(v),
            decreases n - i,
        {
            proof {
                assert(v.skip(i as int).len() == n - i);
                assert(v.skip(i as int)[0] == v[i as int]);
                assert(v[i as int] == args@[i as int]@);
            }
            let a: &str = args[i];
            if str_eq(a, "--help") || str_eq(a, "-h") {
                return Err(ArgsError::HelpRequested);
            } else if str_eq(a, "--version") || str_eq(a, "-V") {
                return Err(ArgsError::VersionRequested);
            } else if str_eq(a, "--input-path") || str_eq(a, "-i") {
                if i + 1 == n {
                    return Err(ArgsError::MissingFlagValue);
                }
                proof {
                    assert(v.skip(i as int)[1] == v[i + 1]);
                    assert(v.skip(i as int).skip(2) =~= v.skip(i + 2));
                }
                input = Some(args[i + 1].to_owned());
                i += 2;
            } else if str_eq(a, "--output-path") || str_eq(a, "-o") {
                if i + 1 == n {
                    return Err(ArgsError::MissingFlagValue);
                }
                proof {
                    assert(v.skip(i as int)[1] == v[i + 1]);
                    assert(v.skip(i as int).skip(2) =~= v.skip(i + 2));
                }
                output = Some(args[i + 1].to_owned());
                i += 2;
            } else if str_eq(a, "--unit") || str_eq(a, "-u") {
                if i + 1 == n {
                    return Err(ArgsError::MissingFlagValue);
                }
                proof {
                    assert(v.skip(i as int)[1] == v[i + 1]);
                    assert(v.skip(i as int).skip(2) =~= v.skip(i + 2));
                }
                match Unit::of_code(args[i + 1]) {
                    Some(u) => {
                        unit = u;
                    },
                    None => {
                        return Err(ArgsError::InvalidUnit);
                    },
                }
                i += 2;
            } else {
                return Err(ArgsError::UnknownArgument);
            }
        }
        proof {
            assert(v.skip(n as int).len() == 0);
        }
        match input {
            Some(p) => Ok(Args { input_path: p, output_path: output, unit }),
            None => Err(ArgsError::MissingInputPath),
        }
    }

    /// Parses a command line that is known to be well formed.
    pub fn parse_from(args: &[&str]) -> (a: Args)
        requires
            spec_parse(args.deep_view()) is Accepted,
        ensures
            spec_parse(args.deep_view()) == SpecParseOutcome::Accepted(
                SpecArgs {
                    input_path: a.input_path@,
                    output_path: a.output_path.deep_view(),
                    unit: a.unit,
                },
            ),
    {
        match Args::try_parse_from(args) {
            Ok(a) => a,
            Err(_) => vstd::pervasive::unreached(),
        }
    }
}

} // verus!
