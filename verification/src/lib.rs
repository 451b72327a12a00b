//! Turns the storage-cost metadata of a columnar file — ordered row groups of
//! column chunks, each with a nested field path and a compressed byte size —
//! into the line protocol a flame-graph renderer consumes: one record
//! `<path> <value>` per column chunk, path segments joined by `;`, the value
//! the compressed size truncated to a chosen display unit.

use vstd::prelude::*;
use vstd::string::StrSliceExecFns;
use vstd::string::StringExecFns;

pub mod args;
pub mod text;

use crate::args::Unit;
use crate::args::spec_unit_divisor;
use crate::text::push_char;
use crate::text::push_decimal;
use crate::text::spec_decimal;

verus! {

/// The size metadata of one column chunk: the nested field path, root first,
/// and the compressed size in bytes.
pub struct ColumnEntry {
    pub path: Vec<String>,
    pub compressed_size: u64,
}

/// The column chunks of one row group, in declaration order.
pub struct RowGroup {
    pub columns: Vec<ColumnEntry>,
}

/// The row groups of one file, in physical layout order.
pub struct FileMetadata {
    pub row_groups: Vec<RowGroup>,
}

/// A field-path character as it appears in a stack line: the metadata format's
/// own path separator `.` becomes the renderer's hierarchy separator `;`,
/// every other character is kept. No escaping: a field name that already
/// contains either separator is mapped lossily.
pub open spec fn spec_sanitize_char(c: char) -> char {
    if c == '.' {
        ';'
    } else {
        c
    }
}

/// A path segment with every `.` replaced by `;`.
pub open spec fn spec_sanitized(seg: Seq<char>) -> Seq<char> {
    seg.map_values(|c: char| spec_sanitize_char(c))
}

/// Path segments joined by the hierarchy separator `;`, each segment
/// sanitized.
pub open spec fn spec_joined_path(path: Seq<Seq<char>>) -> Seq<char>
    decreases path.len(),
{
    if path.len() == 0 {
        Seq::empty()
    } else if path.len() == 1 {
        spec_sanitized(path[0])
    } else {
        spec_joined_path(path.drop_last()) + seq![';'] + spec_sanitized(path.last())
    }
}

/// The stack line of one column chunk: joined path, one space, then the
/// compressed size divided by the unit's divisor, truncating toward zero.
pub open spec fn spec_column_line(c: ColumnEntry, u: Unit) -> Seq<char> {
    spec_joined_path(c.path.deep_view()) + seq![' '] + spec_decimal(
        (c.compressed_size / spec_unit_divisor(u)) as nat,
    )
}

/// The stack lines of one row group, in column declaration order.
pub open spec fn spec_group_lines(g: RowGroup, u: Unit) -> Seq<Seq<char>> {
    Seq::new(g.columns@.len(), |i: int| spec_column_line(g.columns@[i], u))
}

/// The stack lines of a sequence of row groups: each group's lines in order,
/// group after group. Identical paths in different groups stay separate
/// lines; nothing is merged or reordered.
pub open spec fn spec_lines_of_groups(gs: Seq<RowGroup>, u: Unit) -> Seq<Seq<char>>
    decreases gs.len(),
{
    if gs.len() == 0 {
        Seq::empty()
    } else {
        spec_lines_of_groups(gs.drop_last(), u) + spec_group_lines(gs.last(), u)
    }
}

/// The whole output of the builder for one file.
pub open spec fn spec_file_lines(m: FileMetadata, u: Unit) -> Seq<Seq<char>> {
    spec_lines_of_groups(m.row_groups@, u)
}

/// The total column-chunk count over a sequence of row groups.
pub open spec fn spec_column_count(gs: Seq<RowGroup>) -> nat
    decreases gs.len(),
{
    if gs.len() == 0 {
        0
    } else {
        spec_column_count(gs.drop_last()) + gs.last().columns@.len()
    }
}

/// The builder emits exactly one line per column chunk: the output length is
/// the sum of the row groups' column counts.
pub proof fn lemma_output_length(gs: Seq<RowGroup>, u: Unit)
    ensures
        spec_lines_of_groups(gs, u).len() == spec_column_count(gs),
    decreases gs.len(),
{
    if gs.len() > 0 {
        lemma_output_length(gs.drop_last(), u);
    }
}

/// Order fidelity: the line for column `c` of row group `g` stands exactly at
/// position (columns of all earlier row groups) + `c` of the output. Equal
/// paths in different row groups therefore stay distinct lines, in row-group
/// order, then column order; the builder never sorts, merges or drops.
pub proof fn lemma_order_fidelity(gs: Seq<RowGroup>, u: Unit, g: int, c: int)
    requires
        0 <= g < gs.len(),
        0 <= c < gs[g].columns@.len(),
    ensures
        spec_column_count(gs.take(g)) + c < spec_lines_of_groups(gs, u).len(),
        spec_lines_of_groups(gs, u)[spec_column_count(gs.take(g)) + c as int] == spec_column_line(
            gs[g].columns@[c],
            u,
        ),
    decreases gs.len(),
{
    lemma_output_length(gs, u);
    if g == gs.len() - 1 {
        assert(gs.drop_last() =~= gs.take(g));
        lemma_output_length(gs.drop_last(), u);
        assert(spec_lines_of_groups(gs, u)[spec_column_count(gs.take(g)) + c as int]
            == spec_group_lines(gs.last(), u)[c]);
    } else {
        lemma_order_fidelity(gs.drop_last(), u, g, c);
        assert(gs.drop_last().take(g) =~= gs.take(g));
        lemma_output_length(gs.drop_last(), u);
    }
}

/// The builder is pure: its output is a function of the metadata and the unit
/// alone, so any two results that meet its contract on the same inputs are
/// identical.
pub proof fn lemma_builder_deterministic(
    m: FileMetadata,
    u: Unit,
    r1: Seq<Seq<char>>,
    r2: Seq<Seq<char>>,
)
    requires
        r1 == spec_file_lines(m, u),
        r2 == spec_file_lines(m, u),
    ensures
        r1 == r2,
{
}

/// Metadata with no row groups yields an empty output sequence.
pub proof fn lemma_empty_metadata(m: FileMetadata, u: Unit)
    requires
        m.row_groups@.len() == 0,
    ensures
        spec_file_lines(m, u) == Seq::<Seq<char>>::empty(),
{
}

/// Appends a path segment to `s`, replacing `.` by `;`.
fn push_sanitized_segment(s: &mut String, seg: &String)
    ensures
        final(s)@ == old(s)@ + spec_sanitized(seg@),
{
    let slice: &str = seg.as_str();
    let n: usize = slice.unicode_len();
    let mut i: usize = 0;
    while i < n
        invariant
            n == seg@.len(),
            slice@ == seg@,
            i <= n,
            s@ == old(s)@ + spec_sanitized(seg@.take(i as int)),
        decreases n - i,
    {
        let c = slice.get_char(i);
        if c == '.' {
            push_char(s, ';');
        } else {
            push_char(s, c);
        }
        proof {
            assert(spec_sanitized(seg@.take(i + 1)) =~= spec_sanitized(seg@.take(i as int))
                + seq![spec_sanitize_char(seg@[i as int])]);
            assert(s@ =~= old(s)@ + spec_sanitized(seg@.take(i + 1)));
        }
        i += 1;
    }
    proof {
        assert(seg@.take(n as int) =~= seg@);
    }
}

/// Appends the joined, sanitized path to `s`.
fn push_joined_path(s: &mut String, path: &Vec<String>)
    ensures
        final(s)@ == old(s)@ + spec_joined_path(path.deep_view()),
{
    let n: usize = path.len();
    let mut i: usize = 0;
    while i < n
        invariant
            n == path@.len(),
            i <= n,
            s@ == old(s)@ + spec_joined_path(path.deep_view().take(i as int)),
        decreases n - i,
    {
        if i > 0 {
            s.append(";");
            proof {
                reveal_strlit(";");
                assert((";")@ =~= seq![';']);
            }
        }
        push_sanitized_segment(s, &path[i]);
        proof {
            let pv = path.deep_view();
            assert(pv.take(i + 1).drop_last() =~= pv.take(i as int));
            assert(pv.take(i + 1).last() == pv[i as int]);
            assert(pv[i as int] == path@[i as int]@);
            assert(s@ =~= old(s)@ + spec_joined_path(pv.take(i + 1)));
        }
        i += 1;
    }
    proof {
        assert(path.deep_view().take(n as int) =~= path.deep_view());
    }
}

/// Builds the flame-graph line protocol for one file's metadata: one record
/// `<path> <value>` per column chunk, in row-group order and, within a row
/// group, in column declaration order. Duplicate paths are kept as separate
/// lines; aggregation is the renderer's job. The value is the compressed
/// size divided by the unit's divisor, truncating toward zero. Never fails,
/// and an empty metadata tree yields an empty sequence.
pub fn parquet_column_size_to_flamegraph_format(metadata: &FileMetadata, unit: &Unit) -> (r: Vec<
    String,
>)
    ensures
        r.deep_view() == spec_file_lines(*metadata, *unit),
        r@.len() == spec_column_count(metadata.row_groups@),
{
    let divisor: u64 = unit.divisor();
    let mut out: Vec<String> = Vec::new();
    let groups: usize = metadata.row_groups.len();
    let mut g: usize = 0;
    while g < groups
        invariant
            groups == metadata.row_groups@.len(),
            g <= groups,
            divisor == spec_unit_divisor(*unit),
            divisor >= 1,
            out.deep_view() == spec_lines_of_groups(metadata.row_groups@.take(g as int), *unit),
        decreases groups - g,
    {
        let row_group = &metadata.row_groups[g];
        let cols: usize = row_group.columns.len();
        let mut c: usize = 0;
        while c < cols
            invariant
                groups == metadata.row_groups@.len(),
                g < groups,
                row_group == metadata.row_groups@[g as int],
                cols == row_group.columns@.len(),
                c <= cols,
                divisor == spec_unit_divisor(*unit),
                divisor >= 1,
                out.deep_view() == spec_lines_of_groups(metadata.row_groups@.take(g as int), *unit)
                    + spec_group_lines(*row_group, *unit).take(c as int),
            decreases cols - c,
        {
            let column = &row_group.columns[c];
            let mut line = String::new();
            push_joined_path(&mut line, &column.path);
            line.append(" ");
            push_decimal(&mut line, column.compressed_size / divisor);
            proof {
                reveal_strlit(" ");
                assert((" ")@ =~= seq![' ']);
                assert(line@ =~= spec_column_line(*column, *unit));
            }
            let ghost pre_dv = out.deep_view();
            out.push(line);
            proof {
                assert(out.deep_view() =~= pre_dv.push(line@));
                assert(spec_group_lines(*row_group, *unit).take(c + 1)
                    =~= spec_group_lines(*row_group, *unit).take(c as int).push(
                    spec_column_line(*column, *unit),
                ));
                assert(out.deep_view() =~= spec_lines_of_groups(
                    metadata.row_groups@.take(g as int),
                    *unit,
                ) + spec_group_lines(*row_group, *unit).take(c + 1));
            }
            c += 1;
        }
        proof {
            let gs = metadata.row_groups@;
            assert(spec_group_lines(*row_group, *unit).take(cols as int) =~= spec_group_lines(
                *row_group,
                *unit,
            ));
            assert(gs.take(g + 1).drop_last() =~= gs.take(g as int));
            assert(gs.take(g + 1).last() == gs[g as int]);
            assert(out.deep_view() =~= spec_lines_of_groups(gs.take(g + 1), *unit));
        }
        g += 1;
    }
    proof {
        assert(metadata.row_groups@.take(groups as int) =~= metadata.row_groups@);
        lemma_output_length(metadata.row_groups@, *unit);
        assert(out@.len() == out.deep_view().len());
    }
    out
}

} // verus!
