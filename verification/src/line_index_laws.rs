//! What holds of every line index, whatever rows it was built from.

use vstd::prelude::*;
use crate::line_index::{
    bucket, AddressRange, emissions, index_of_programs, index_with, insert_range_in, lookup_in, row_emits,
    row_opens, with_range, Emission, IndexModel, RowView, Tentative,
};
use crate::paths::basename;

verus! {

/// Every range of `m` has its low end below its high end.
pub open spec fn all_proper(m: IndexModel) -> bool {
    forall|k: (Seq<char>, u64), i: int|
        m.contains_key(k) && 0 <= i < m[k].len() ==> (#[trigger] m[k][i]).low < m[k][i].high
}

/// Whether `row` closes a range that starts at `start`.
pub open spec fn closes(row: RowView, start: u64) -> bool {
    if row.end_sequence {
        row.address > start
    } else {
        row.address >= start
    }
}

/// No row of the run, unless it ends a sequence, lies at the very address
/// at which the row before it opened a range.
pub open spec fn advancing(previous: Option<Tentative>, rows: Seq<RowView>) -> bool
    decreases rows.len(),
{
    if rows.len() == 0 {
        true
    } else {
        &&& previous matches Some(p) ==> rows[0].end_sequence || rows[0].address != p.start
        &&& advancing(row_opens(rows[0]), rows.drop_first())
    }
}

/// The ranges that a run of rows emits are never reversed, and each has its
/// low end below its high end where the run is advancing. (A row at the
/// address of the row before it closes a range that holds nothing.)
pub proof fn lemma_emitted_ranges(previous: Option<Tentative>, rows: Seq<RowView>)
    ensures
        forall|i: int|
            0 <= i < emissions(previous, rows).len() ==> (#[trigger] emissions(
                previous,
                rows,
            )[i]).range.low <= emissions(previous, rows)[i].range.high,
        advancing(previous, rows) ==> forall|i: int|
            0 <= i < emissions(previous, rows).len() ==> (#[trigger] emissions(
                previous,
                rows,
            )[i]).range.low < emissions(previous, rows)[i].range.high,
    decreases rows.len(),
{
    if rows.len() > 0 {
        let rest = emissions(row_opens(rows[0]), rows.drop_first());
        let all = emissions(previous, rows);
        lemma_emitted_ranges(row_opens(rows[0]), rows.drop_first());
        assert forall|i: int| 0 <= i < all.len() implies (#[trigger] all[i]).range.low
            <= all[i].range.high && (advancing(previous, rows) ==> all[i].range.low
            < all[i].range.high) by {
            match row_emits(previous, rows[0]) {
                Some(e) => {
                    if i > 0 {
                        assert(all[i] == rest[i - 1]);
                    }
                },
                None => {},
            }
        }
    }
}

proof fn lemma_with_range_proper(m: IndexModel, file: Seq<char>, line: u64, low: u64, high: u64)
    requires
        all_proper(m),
        low < high,
    ensures
        all_proper(with_range(m, file, line, AddressRange { low, high })),
{
    let r = AddressRange { low, high };
    let after = with_range(m, file, line, r);
    assert forall|k: (Seq<char>, u64), i: int|
        after.contains_key(k) && 0 <= i < after[k].len() implies (#[trigger] after[k][i]).low
        < after[k][i].high by {
        if k == (file, line) {
            if i < bucket(m, file, line).len() {
                assert(after[k][i] == m[k][i]);
            }
        } else {
            assert(after[k][i] == m[k][i]);
        }
    }
}

/// Inserting ranges that have their low end below their high end into an
/// index of such ranges gives an index of such ranges.
pub proof fn lemma_index_stays_proper(m: IndexModel, es: Seq<Emission>)
    requires
        all_proper(m),
        forall|i: int| 0 <= i < es.len() ==> (#[trigger] es[i]).range.low < es[i].range.high,
    ensures
        all_proper(index_with(m, es)),
    decreases es.len(),
{
    if es.len() > 0 {
        let e = es[0];
        lemma_with_range_proper(m, e.file, e.line, e.range.low, e.range.high);
        let under_path = with_range(m, e.file, e.line, e.range);
        match basename(e.file) {
            Some(name) => {
                lemma_with_range_proper(under_path, name, e.line, e.range.low, e.range.high);
            },
            None => {},
        }
        let rest = es.drop_first();
        assert forall|i: int| 0 <= i < rest.len() implies (#[trigger] rest[i]).range.low
            < rest[i].range.high by {
            assert(rest[i] == es[i + 1]);
        }
        lemma_index_stays_proper(insert_range_in(m, e.file, e.line, e.range), rest);
    }
}

/// Every range of the index built from an advancing line program has its
/// low end below its high end.
pub proof fn lemma_consumed_ranges_proper(m: IndexModel, rows: Seq<RowView>)
    requires
        all_proper(m),
        advancing(None, rows),
    ensures
        all_proper(index_with(m, emissions(None, rows))),
{
    lemma_emitted_ranges(None, rows);
    lemma_index_stays_proper(m, emissions(None, rows));
}

/// A range that was inserted is found: a lookup of the file at the line,
/// under the path or under its final name, gives ranges of which it is the
/// last.
pub proof fn lemma_inserted_is_found(m: IndexModel, file: Seq<char>, line: u64, range: AddressRange)
    ensures
        lookup_in(insert_range_in(m, file, line, range), file, line).len() > 0,
        lookup_in(insert_range_in(m, file, line, range), file, line).last() == range,
        basename(file) matches Some(name) ==> lookup_in(
            insert_range_in(m, file, line, range),
            name,
            line,
        ).len() > 0 && lookup_in(insert_range_in(m, file, line, range), name, line).last()
            == range,
{
}

/// Whether a range emitted for `e` lands under the key `(file, line)`: the
/// line is the same, and `file` is the path of `e` or its final name.
pub open spec fn lands_under(e: Emission, file: Seq<char>, line: u64) -> bool {
    e.line == line && (e.file == file || basename(e.file) == Some(file))
}

/// Whether a lookup of `path` reaches what was inserted for `file`: they are
/// the same, or one is the final name of the other, or both have the same
/// final name.
pub open spec fn names_match(path: Seq<char>, file: Seq<char>) -> bool {
    ||| path == file
    ||| basename(file) == Some(path)
    ||| basename(path) == Some(file)
    ||| (basename(path) is Some && basename(path) == basename(file))
}

/// Whether the emission at `i` is for `line` and for a file that a lookup
/// of `path` reaches.
pub open spec fn reached_at(es: Seq<Emission>, i: int, path: Seq<char>, line: u64) -> bool {
    0 <= i < es.len() && es[i].line == line && names_match(path, es[i].file)
}

spec fn lands_at(es: Seq<Emission>, i: int, file: Seq<char>, line: u64) -> bool {
    0 <= i < es.len() && lands_under(es[i], file, line)
}

proof fn lemma_insert_bucket(m: IndexModel, e: Emission, file: Seq<char>, line: u64)
    ensures
        bucket(insert_range_in(m, e.file, e.line, e.range), file, line).len() > 0 <==> bucket(
            m,
            file,
            line,
        ).len() > 0 || lands_under(e, file, line),
{
}

proof fn lemma_bucket_filled(m: IndexModel, es: Seq<Emission>, file: Seq<char>, line: u64)
    ensures
        bucket(index_with(m, es), file, line).len() > 0 <==> bucket(m, file, line).len() > 0 || (
        exists|i: int| lands_at(es, i, file, line)),
    decreases es.len(),
{
    if es.len() > 0 {
        let e = es[0];
        let m1 = insert_range_in(m, e.file, e.line, e.range);
        let rest = es.drop_first();
        lemma_insert_bucket(m, e, file, line);
        lemma_bucket_filled(m1, rest, file, line);
        if exists|i: int| lands_at(rest, i, file, line) {
            let i = choose|i: int| lands_at(rest, i, file, line);
            assert(rest[i] == es[i + 1]);
            assert(lands_at(es, i + 1, file, line));
        }
        if lands_under(e, file, line) {
            assert(lands_at(es, 0, file, line));
        }
        if exists|i: int| lands_at(es, i, file, line) {
            let i = choose|i: int| lands_at(es, i, file, line);
            if i > 0 {
                assert(rest[i - 1] == es[i]);
                assert(lands_at(rest, i - 1, file, line));
            }
        }
    } else {
        assert(forall|i: int| !lands_at(es, i, file, line));
    }
}

/// A lookup in the index built from `es` finds something exactly when a
/// range was emitted at that line for a file that the lookup reaches.
pub proof fn lemma_lookup_finds_emissions(es: Seq<Emission>, path: Seq<char>, line: u64)
    ensures
        lookup_in(index_with(IndexModel::empty(), es), path, line).len() > 0 <==> exists|i: int|
            reached_at(es, i, path, line),
{
    let m = index_with(IndexModel::empty(), es);
    lemma_bucket_filled(IndexModel::empty(), es, path, line);
    let exact = bucket(m, path, line).len() > 0;
    if exact {
        let i = choose|i: int| lands_at(es, i, path, line);
        assert(reached_at(es, i, path, line));
    }
    match basename(path) {
        Some(name) => {
            lemma_bucket_filled(IndexModel::empty(), es, name, line);
            if bucket(m, name, line).len() > 0 {
                let i = choose|i: int| lands_at(es, i, name, line);
                assert(reached_at(es, i, path, line));
            }
        },
        None => {},
    }
    if exists|i: int| reached_at(es, i, path, line) {
        let i = choose|i: int| reached_at(es, i, path, line);
        let file = es[i].file;
        if path == file || basename(file) == Some(path) {
            assert(lands_at(es, i, path, line));
        } else {
            let name = basename(path)->0;
            assert(lands_at(es, i, name, line));
        }
    }
}

/// Whether the row at `j` opens a range that the row after it closes.
pub open spec fn row_closed_at(rows: Seq<RowView>, j: int) -> bool {
    &&& 0 <= j
    &&& j + 1 < rows.len()
    &&& !rows[j].end_sequence
    &&& closes(rows[j + 1], rows[j].address)
}

/// The range that the row at `j` opens and the row after it closes, under
/// the file and line of the row at `j`.
pub open spec fn emission_of_row(rows: Seq<RowView>, j: int) -> Emission {
    Emission {
        file: rows[j].file,
        line: rows[j].line,
        range: AddressRange { low: rows[j].address, high: rows[j + 1].address },
    }
}

proof fn lemma_emissions_unfold(rows: Seq<RowView>)
    ensures
        rows.len() < 2 ==> emissions(None, rows).len() == 0,
        rows.len() >= 2 ==> emissions(None, rows) == (if row_closed_at(rows, 0) {
            seq![emission_of_row(rows, 0)]
        } else {
            Seq::empty()
        }) + emissions(None, rows.drop_first()),
{
    if rows.len() >= 1 {
        let tail = rows.drop_first();
        assert(emissions(None, rows) == emissions(row_opens(rows[0]), tail));
        if tail.len() >= 1 {
            assert(emissions(None, tail) == emissions(row_opens(tail[0]), tail.drop_first()));
            assert(tail[0] == rows[1]);
            let front = if row_closed_at(rows, 0) {
                seq![emission_of_row(rows, 0)]
            } else {
                Seq::empty()
            };
            assert(emissions(None, rows) =~= front + emissions(None, tail));
        }
    }
}

/// Every range that a line program emits comes from a row that opens a
/// range which the next row closes: for the emission at `i`, the place `j`
/// of that row.
pub proof fn lemma_emission_has_row(rows: Seq<RowView>, i: int) -> (j: int)
    requires
        0 <= i < emissions(None, rows).len(),
    ensures
        row_closed_at(rows, j),
        emissions(None, rows)[i] == emission_of_row(rows, j),
    decreases rows.len(),
{
    lemma_emissions_unfold(rows);
    let tail = rows.drop_first();
    lemma_emissions_unfold(tail);
    if row_closed_at(rows, 0) && i == 0 {
        0
    } else {
        let shift: int = if row_closed_at(rows, 0) {
            1
        } else {
            0
        };
        let j = lemma_emission_has_row(tail, i - shift);
        assert(tail[j] == rows[j + 1] && tail[j + 1] == rows[j + 2]);
        j + 1
    }
}

/// Every row that opens a range which the next row closes has that range
/// emitted: for the row at `j`, the place `i` of the emission.
pub proof fn lemma_row_has_emission(rows: Seq<RowView>, j: int) -> (i: int)
    requires
        row_closed_at(rows, j),
    ensures
        0 <= i < emissions(None, rows).len(),
        emissions(None, rows)[i] == emission_of_row(rows, j),
    decreases rows.len(),
{
    lemma_emissions_unfold(rows);
    if j == 0 {
        0
    } else {
        let tail = rows.drop_first();
        let shift: int = if row_closed_at(rows, 0) {
            1
        } else {
            0
        };
        assert(tail[j - 1] == rows[j] && tail[j] == rows[j + 1]);
        let i = lemma_row_has_emission(tail, j - 1);
        i + shift
    }
}

/// Whether the row at `j` of `rows` is at `line`, names a file that a
/// lookup of `path` reaches, and opens a range that the next row closes.
pub open spec fn row_answers(rows: Seq<RowView>, j: int, path: Seq<char>, line: u64) -> bool {
    row_closed_at(rows, j) && rows[j].line == line && names_match(path, rows[j].file)
}

/// A lookup in the index of one line program finds something exactly when
/// the program has a row at that line, for a file that the lookup reaches,
/// whose range the next row closes.
pub proof fn lemma_lookup_finds_rows(rows: Seq<RowView>, path: Seq<char>, line: u64)
    ensures
        lookup_in(index_with(IndexModel::empty(), emissions(None, rows)), path, line).len() > 0
            <==> exists|j: int| row_answers(rows, j, path, line),
{
    let es = emissions(None, rows);
    lemma_lookup_finds_emissions(es, path, line);
    if exists|i: int| reached_at(es, i, path, line) {
        let i = choose|i: int| reached_at(es, i, path, line);
        let j = lemma_emission_has_row(rows, i);
        assert(row_answers(rows, j, path, line));
    }
    if exists|j: int| row_answers(rows, j, path, line) {
        let j = choose|j: int| row_answers(rows, j, path, line);
        let i = lemma_row_has_emission(rows, j);
        assert(reached_at(es, i, path, line));
    }
}

/// The ranges that the line programs emit, program after program.
pub open spec fn all_emissions(programs: Seq<Seq<RowView>>) -> Seq<Emission>
    decreases programs.len(),
{
    if programs.len() == 0 {
        Seq::empty()
    } else {
        emissions(None, programs[0]) + all_emissions(programs.drop_first())
    }
}

proof fn lemma_index_with_concat(m: IndexModel, a: Seq<Emission>, b: Seq<Emission>)
    ensures
        index_with(m, a + b) == index_with(index_with(m, a), b),
    decreases a.len(),
{
    if a.len() == 0 {
        assert(a + b == b);
    } else {
        assert((a + b).drop_first() == a.drop_first() + b);
        lemma_index_with_concat(
            insert_range_in(m, a[0].file, a[0].line, a[0].range),
            a.drop_first(),
            b,
        );
    }
}

/// The index of several line programs is the index of all that they emit.
pub proof fn lemma_programs_index(m: IndexModel, programs: Seq<Seq<RowView>>)
    ensures
        index_of_programs(m, programs) == index_with(m, all_emissions(programs)),
    decreases programs.len(),
{
    if programs.len() > 0 {
        let first = emissions(None, programs[0]);
        lemma_index_with_concat(m, first, all_emissions(programs.drop_first()));
        lemma_programs_index(index_with(m, first), programs.drop_first());
    }
}

/// The program and place from which the emission at `i` of all comes.
proof fn lemma_all_emissions_source(programs: Seq<Seq<RowView>>, i: int) -> (at: (int, int))
    requires
        0 <= i < all_emissions(programs).len(),
    ensures
        0 <= at.0 < programs.len(),
        0 <= at.1 < emissions(None, programs[at.0]).len(),
        all_emissions(programs)[i] == emissions(None, programs[at.0])[at.1],
    decreases programs.len(),
{
    let first = emissions(None, programs[0]);
    if i < first.len() {
        (0, i)
    } else {
        let tail = programs.drop_first();
        let (p, k) = lemma_all_emissions_source(tail, i - first.len());
        assert(tail[p] == programs[p + 1]);
        (p + 1, k)
    }
}

/// The place among all emissions of the emission at `k` of program `p`.
proof fn lemma_all_emissions_place(programs: Seq<Seq<RowView>>, p: int, k: int) -> (i: int)
    requires
        0 <= p < programs.len(),
        0 <= k < emissions(None, programs[p]).len(),
    ensures
        0 <= i < all_emissions(programs).len(),
        all_emissions(programs)[i] == emissions(None, programs[p])[k],
    decreases programs.len(),
{
    let first = emissions(None, programs[0]);
    if p == 0 {
        k
    } else {
        let tail = programs.drop_first();
        assert(tail[p - 1] == programs[p]);
        let i = lemma_all_emissions_place(tail, p - 1, k);
        i + first.len()
    }
}

/// A lookup in the index of a binary finds something exactly when one of
/// its line programs has a row at that line, for a file that the lookup
/// reaches, whose range the next row closes.
pub proof fn lemma_lookup_finds_program_rows(
    programs: Seq<Seq<RowView>>,
    path: Seq<char>,
    line: u64,
)
    ensures
        lookup_in(index_of_programs(IndexModel::empty(), programs), path, line).len() > 0
            <==> exists|p: int, j: int|
            0 <= p < programs.len() && #[trigger] row_answers(programs[p], j, path, line),
{
    let es = all_emissions(programs);
    lemma_programs_index(IndexModel::empty(), programs);
    lemma_lookup_finds_emissions(es, path, line);
    if exists|i: int| reached_at(es, i, path, line) {
        let i = choose|i: int| reached_at(es, i, path, line);
        let (p, k) = lemma_all_emissions_source(programs, i);
        let j = lemma_emission_has_row(programs[p], k);
        assert(row_answers(programs[p], j, path, line));
    }
    if exists|p: int, j: int|
        0 <= p < programs.len() && #[trigger] row_answers(programs[p], j, path, line) {
        let (p, j) = choose|p: int, j: int|
            0 <= p < programs.len() && #[trigger] row_answers(programs[p], j, path, line);
        let k = lemma_row_has_emission(programs[p], j);
        let i = lemma_all_emissions_place(programs, p, k);
        assert(reached_at(es, i, path, line));
    }
}

} // verus!
