//! The line index: from a source file and line to the address ranges that
//! the line programs of the debug information give for it.

use std::collections::HashMap;
use vstd::prelude::*;
use vstd::std_specs::hash::*;
use crate::paths::{basename, basename_of, joined_path, line_file_path};
use crate::text::text_of;

verus! {

broadcast use vstd::std_specs::hash::group_hash_axioms;

/// A half-open range of addresses, `[low, high)`.
#[derive(Debug, Clone, Copy, PartialEq, Eq, Structural)]
pub struct AddressRange {
    pub low: u64,
    pub high: u64,
}

/// A key of the index: a file path, or the final name of one, and a
/// line number counted from 1.
#[derive(Debug, Clone, PartialEq, Eq, Hash)]
pub struct FileLine {
    pub file: String,
    pub line: u64,
}

impl View for FileLine {
    type V = (Seq<char>, u64);

    open spec fn view(&self) -> (Seq<char>, u64) {
        (self.file@, self.line)
    }
}

/// The ranges recorded for one file at one line.
pub struct FileBucket {
    file: String,
    ranges: Vec<AddressRange>,
}

/// What the index holds, as a map from `(file, line)` to the ranges in the
/// order in which they were inserted. A key without ranges is not in it.
pub type IndexModel = Map<(Seq<char>, u64), Seq<AddressRange>>;

/// The ranges that `m` holds for `(file, line)`; none when the key is absent.
pub open spec fn bucket(m: IndexModel, file: Seq<char>, line: u64) -> Seq<AddressRange> {
    if m.contains_key((file, line)) {
        m[(file, line)]
    } else {
        Seq::empty()
    }
}

/// `m` after `range` is appended to the ranges of `(file, line)`.
pub open spec fn with_range(m: IndexModel, file: Seq<char>, line: u64, range: AddressRange) -> IndexModel {
    m.insert((file, line), bucket(m, file, line).push(range))
}

/// `m` after `range` is inserted for `file` at `line`: under the path
/// itself and, where the final name of the path differs from it, under that
/// name too.
pub open spec fn insert_range_in(m: IndexModel, file: Seq<char>, line: u64, range: AddressRange) -> IndexModel {
    let under_path = with_range(m, file, line, range);
    match basename(file) {
        Some(name) if name != file => with_range(under_path, name, line, range),
        _ => under_path,
    }
}

/// What a lookup of `file` at `line` gives: the ranges under the exact key
/// or, when there are none and the final name of `file` differs from it, the
/// ranges under that name.
pub open spec fn lookup_in(m: IndexModel, file: Seq<char>, line: u64) -> Seq<AddressRange> {
    let exact = bucket(m, file, line);
    if exact.len() > 0 {
        exact
    } else {
        match basename(file) {
            Some(name) if name != file => bucket(m, name, line),
            _ => Seq::empty(),
        }
    }
}

/// The ranges of the first bucket of `list` that is named `file`.
pub closed spec fn ranges_in(list: Seq<FileBucket>, file: Seq<char>) -> Seq<AddressRange>
    decreases list.len(),
{
    if list.len() == 0 {
        Seq::empty()
    } else if list[0].file@ == file {
        list[0].ranges@
    } else {
        ranges_in(list.drop_first(), file)
    }
}

proof fn lemma_ranges_in_miss(list: Seq<FileBucket>, file: Seq<char>)
    requires
        forall|k: int| 0 <= k < list.len() ==> list[k].file@ != file,
    ensures
        ranges_in(list, file) == Seq::<AddressRange>::empty(),
    decreases list.len(),
{
    if list.len() > 0 {
        lemma_ranges_in_miss(list.drop_first(), file);
    }
}

proof fn lemma_ranges_in_hit(list: Seq<FileBucket>, file: Seq<char>, i: int)
    requires
        0 <= i < list.len(),
        list[i].file@ == file,
        forall|k: int| 0 <= k < i ==> list[k].file@ != file,
    ensures
        ranges_in(list, file) == list[i].ranges@,
    decreases list.len(),
{
    if i > 0 {
        lemma_ranges_in_hit(list.drop_first(), file, i - 1);
    }
}

/// Replacing the bucket at `i` by one of the same name changes the ranges
/// of that name only, and only where `i` is the first bucket of that name.
proof fn lemma_ranges_in_update(list: Seq<FileBucket>, i: int, b: FileBucket, file: Seq<char>)
    requires
        0 <= i < list.len(),
        b.file@ == list[i].file@,
        forall|k: int| 0 <= k < i ==> list[k].file@ != b.file@,
    ensures
        ranges_in(list.update(i, b), file) == if file == b.file@ {
            b.ranges@
        } else {
            ranges_in(list, file)
        },
    decreases list.len(),
{
    let after = list.update(i, b);
    if i == 0 {
        assert(after.drop_first() == list.drop_first());
    } else {
        assert(after.drop_first() == list.drop_first().update(i - 1, b));
        lemma_ranges_in_update(list.drop_first(), i - 1, b, file);
    }
}

/// A bucket pushed behind a list that has none of its name adds that name.
proof fn lemma_ranges_in_push(list: Seq<FileBucket>, b: FileBucket, file: Seq<char>)
    requires
        forall|k: int| 0 <= k < list.len() ==> list[k].file@ != b.file@,
    ensures
        ranges_in(list.push(b), file) == if file == b.file@ {
            b.ranges@
        } else {
            ranges_in(list, file)
        },
    decreases list.len(),
{
    let after = list.push(b);
    if list.len() == 0 {
        assert(after.drop_first() == list);
    } else {
        assert(after.drop_first() == list.drop_first().push(b));
        lemma_ranges_in_push(list.drop_first(), b, file);
    }
}


/// The name under which a row without a file name is indexed.
pub open spec fn unknown_file() -> Seq<char> {
    "<unknown>"@
}

/// One row of a line program, as the state machine of the program gives it:
/// the address, whether the row ends a sequence, the name and directory of
/// the file it names (each missing where the program has none that can be
/// read), and the line (missing where the row has none).
#[derive(Debug, Clone)]
pub struct LineRow {
    pub address: u64,
    pub end_sequence: bool,
    pub file_name: Option<String>,
    pub directory: Option<String>,
    pub line: Option<u64>,
}

/// What the index reads of a row: its address, whether it ends a sequence,
/// the path of its file and its line (0 where the row has none).
pub struct RowView {
    pub address: u64,
    pub end_sequence: bool,
    pub file: Seq<char>,
    pub line: u64,
}

impl View for LineRow {
    type V = RowView;

    open spec fn view(&self) -> RowView {
        RowView {
            address: self.address,
            end_sequence: self.end_sequence,
            file: match joined_path(text_of(self.file_name), text_of(self.directory)) {
                Some(path) => path,
                None => unknown_file(),
            },
            line: match self.line {
                Some(line) => line,
                None => 0,
            },
        }
    }
}

/// The views of the rows of one line program.
pub open spec fn rows_view(rows: Seq<LineRow>) -> Seq<RowView> {
    rows.map_values(|r: LineRow| r@)
}

/// The row that opened a range which the next row will close.
pub struct Tentative {
    pub file: Seq<char>,
    pub line: u64,
    pub start: u64,
}

/// A range together with the key under which it is inserted.
pub struct Emission {
    pub file: Seq<char>,
    pub line: u64,
    pub range: AddressRange,
}

/// The range that `row` closes. A row that ends a sequence closes the open
/// range only if it lies above the start; any other row closes it unless it
/// lies below the start.
pub open spec fn row_emits(previous: Option<Tentative>, row: RowView) -> Option<Emission> {
    match previous {
        None => None,
        Some(p) => {
            let closes = if row.end_sequence {
                row.address > p.start
            } else {
                row.address >= p.start
            };
            if closes {
                Some(
                    Emission {
                        file: p.file,
                        line: p.line,
                        range: AddressRange { low: p.start, high: row.address },
                    },
                )
            } else {
                None
            }
        },
    }
}

/// The range that `row` opens: none at the end of a sequence, else one for
/// the row's file and line that starts at its address.
pub open spec fn row_opens(row: RowView) -> Option<Tentative> {
    if row.end_sequence {
        None
    } else {
        Some(Tentative { file: row.file, line: row.line, start: row.address })
    }
}

/// The ranges that a run of rows emits, in order, when it starts with
/// `previous` open.
pub open spec fn emissions(previous: Option<Tentative>, rows: Seq<RowView>) -> Seq<Emission>
    decreases rows.len(),
{
    if rows.len() == 0 {
        Seq::empty()
    } else {
        let rest = emissions(row_opens(rows[0]), rows.drop_first());
        match row_emits(previous, rows[0]) {
            Some(e) => seq![e] + rest,
            None => rest,
        }
    }
}

/// `m` after each of `es` is inserted, in order.
pub open spec fn index_with(m: IndexModel, es: Seq<Emission>) -> IndexModel
    decreases es.len(),
{
    if es.len() == 0 {
        m
    } else {
        index_with(insert_range_in(m, es[0].file, es[0].line, es[0].range), es.drop_first())
    }
}

/// `m` after the rows of each line program are consumed, program by program.
/// No range stays open from one program to the next.
pub open spec fn index_of_programs(m: IndexModel, programs: Seq<Seq<RowView>>) -> IndexModel
    decreases programs.len(),
{
    if programs.len() == 0 {
        m
    } else {
        index_of_programs(index_with(m, emissions(None, programs[0])), programs.drop_first())
    }
}

/// The views of the rows of each line program.
pub open spec fn programs_view(programs: Seq<Vec<LineRow>>) -> Seq<Seq<RowView>> {
    programs.map_values(|p: Vec<LineRow>| rows_view(p@))
}

/// The open range that the loop below carries from row to row.
spec fn tentative_of(previous: Option<(FileLine, u64)>) -> Option<Tentative> {
    match previous {
        Some((fl, start)) => Some(Tentative { file: fl.file@, line: fl.line, start }),
        None => None,
    }
}

proof fn lemma_index_with_first(m: IndexModel, e: Emission, rest: Seq<Emission>)
    ensures
        index_with(m, seq![e] + rest) == index_with(
            insert_range_in(m, e.file, e.line, e.range),
            rest,
        ),
{
    let es = seq![e] + rest;
    assert(es.drop_first() == rest);
}

/// The index of source lines.
pub struct LineIndex {
    lines: HashMap<u64, Vec<FileBucket>>,
}

impl LineIndex {
    /// The ranges stored for `(file, line)`.
    pub closed spec fn stored(&self, file: Seq<char>, line: u64) -> Seq<AddressRange> {
        if self.lines@.contains_key(line) {
            ranges_in(self.lines@[line]@, file)
        } else {
            Seq::empty()
        }
    }

    proof fn lemma_bucket_is_stored(&self, file: Seq<char>, line: u64)
        ensures
            bucket(self@, file, line) == self.stored(file, line),
    {
        assert(bucket(self@, file, line) =~= self.stored(file, line));
    }

    /// An index without entries.
    pub fn new() -> (index: LineIndex)
        ensures
            index@ == IndexModel::empty(),
    {
        let index = LineIndex { lines: HashMap::new() };
        assert(index@ =~= IndexModel::empty());
        index
    }

    /// Copies the ranges stored for `(file, line)`.
    fn ranges_for(&self, file: &String, line: u64) -> (out: Vec<AddressRange>)
        ensures
            out@ == bucket(self@, file@, line),
    {
        let mut out: Vec<AddressRange> = Vec::new();
        proof {
            self.lemma_bucket_is_stored(file@, line);
        }
        match self.lines.get(&line) {
            None => {},
            Some(list) => {
                let mut i: usize = 0;
                while i < list.len()
                    invariant
                        i <= list.len(),
                        out@.len() == 0,
                        self.stored(file@, line) == ranges_in(list@, file@),
                        bucket(self@, file@, line) == self.stored(file@, line),
                        forall|k: int| 0 <= k < i ==> list@[k].file@ != file@,
                    decreases list.len() - i,
                {
                    if list[i].file == *file {
                        proof {
                            lemma_ranges_in_hit(list@, file@, i as int);
                        }
                        let found = &list[i].ranges;
                        assert(out@ == found@.take(0));
                        let mut j: usize = 0;
                        while j < found.len()
                            invariant
                                j <= found.len(),
                                out@ == found@.take(j as int),
                            decreases found.len() - j,
                        {
                            out.push(found[j]);
                            j += 1;
                        }
                        assert(found@.take(found.len() as int) == found@);
                        return out;
                    }
                    i += 1;
                }
                proof {
                    lemma_ranges_in_miss(list@, file@);
                }
            },
        }
        out
    }

    /// Appends `range` to the ranges of `(file, line)`.
    fn append(&mut self, file: String, line: u64, range: AddressRange)
        ensures
            final(self)@ == with_range(old(self)@, file@, line, range),
    {
        let ghost before = *self;
        let mut list: Vec<FileBucket> = match self.lines.remove(&line) {
            Some(list) => list,
            None => Vec::new(),
        };
        let ghost list0 = list@;
        assert(forall|f: Seq<char>| before.stored(f, line) == ranges_in(list0, f));
        let mut i: usize = 0;
        let mut found = false;
        while !found && i < list.len()
            invariant
                i <= list.len(),
                list@ == list0,
                forall|k: int| 0 <= k < i ==> list@[k].file@ != file@,
                found ==> i < list.len() && list@[i as int].file@ == file@,
            decreases list.len() - i + if found { 0int } else { 1int },
        {
            if list[i].file == file {
                found = true;
            } else {
                i += 1;
            }
        }
        if found {
            proof {
                lemma_ranges_in_hit(list0, file@, i as int);
            }
            list[i].ranges.push(range);
            proof {
                assert(list@ == list0.update(i as int, list@[i as int]));
                assert forall|f: Seq<char>| ranges_in(list@, f) == if f == file@ {
                    ranges_in(list0, file@).push(range)
                } else {
                    ranges_in(list0, f)
                } by {
                    lemma_ranges_in_update(list0, i as int, list@[i as int], f);
                }
            }
        } else {
            proof {
                lemma_ranges_in_miss(list0, file@);
            }
            let mut ranges: Vec<AddressRange> = Vec::new();
            ranges.push(range);
            let fresh = FileBucket { file, ranges };
            list.push(fresh);
            proof {
                assert(fresh.ranges@ == Seq::<AddressRange>::empty().push(range));
                assert forall|f: Seq<char>| ranges_in(list@, f) == if f == file@ {
                    ranges_in(list0, file@).push(range)
                } else {
                    ranges_in(list0, f)
                } by {
                    lemma_ranges_in_push(list0, fresh, f);
                }
            }
        }
        let ghost list1 = list@;
        self.lines.insert(line, list);
        proof {
            let after = *self;
            assert forall|f: Seq<char>, l: u64| after.stored(f, l) == if f == file@ && l == line {
                before.stored(f, l).push(range)
            } else {
                before.stored(f, l)
            } by {
                if l == line {
                    assert(after.stored(f, l) == ranges_in(list1, f));
                }
            }
            before.lemma_bucket_is_stored(file@, line);
            assert(after@ =~= with_range(before@, file@, line, range));
        }
    }

    /// Inserts `range` for the key `fl`: under its path and, where the final
    /// name of the path differs from it, under that name as well.
    pub fn insert_range(&mut self, fl: FileLine, range: AddressRange)
        ensures
            final(self)@ == insert_range_in(old(self)@, fl@.0, fl@.1, range),
    {
        let name = basename_of(fl.file.as_str());
        let line = fl.line;
        match name {
            Some(name) => {
                let differs = name != fl.file;
                self.append(fl.file, line, range);
                if differs {
                    self.append(name, line, range);
                }
            },
            None => {
                self.append(fl.file, line, range);
            },
        }
    }

    /// The ranges for `file` at `line`: those under the exact key, else those
    /// under the final name of `file`. Empty when the index has neither.
    pub fn lookup(&self, file: &str, line: u64) -> (ranges: Vec<AddressRange>)
        ensures
            ranges@ == lookup_in(self@, file@, line),
    {
        let key = file.to_owned();
        let exact = self.ranges_for(&key, line);
        if exact.len() > 0 {
            return exact;
        }
        match basename_of(file) {
            Some(name) => {
                if name != key {
                    self.ranges_for(&name, line)
                } else {
                    exact
                }
            },
            None => exact,
        }
    }

    /// Consumes the rows of one line program. Each row closes the range that
    /// the row before it opened, and opens one of its own unless it ends a
    /// sequence; the range still open after the last row is dropped.
    pub fn consume_line_program(&mut self, rows: &[LineRow])
        ensures
            final(self)@ == index_with(old(self)@, emissions(None, rows_view(rows@))),
    {
        let ghost start_model = self@;
        let ghost all = rows_view(rows@);
        let mut previous: Option<(FileLine, u64)> = None;
        let mut i: usize = 0;
        proof {
            assert(all.skip(0) == all);
        }
        while i < rows.len()
            invariant
                i <= rows.len(),
                all == rows_view(rows@),
                index_with(self@, emissions(tentative_of(previous), all.skip(i as int)))
                    == index_with(start_model, emissions(None, all)),
            decreases rows.len() - i,
        {
            let row = &rows[i];
            let ghost opened = tentative_of(previous);
            let ghost rest = emissions(row_opens(row@), all.skip(i as int + 1));
            proof {
                assert(all.skip(i as int)[0] == row@);
                assert(all.skip(i as int).drop_first() == all.skip(i as int + 1));
                match row_emits(opened, row@) {
                    Some(e) => {
                        lemma_index_with_first(self@, e, rest);
                    },
                    None => {},
                }
            }
            let address = row.address;
            if row.end_sequence {
                match previous {
                    Some((fl, start)) => {
                        if address > start {
                            self.insert_range(fl, AddressRange { low: start, high: address });
                        }
                    },
                    None => {},
                }
                previous = None;
            } else {
                let name: Option<&str> = match &row.file_name {
                    Some(n) => Some(n.as_str()),
                    None => None,
                };
                let dir: Option<&str> = match &row.directory {
                    Some(d) => Some(d.as_str()),
                    None => None,
                };
                let file = match line_file_path(name, dir) {
                    Some(path) => path,
                    None => "<unknown>".to_owned(),
                };
                let line = match row.line {
                    Some(line) => line,
                    None => 0,
                };
                match previous {
                    Some((fl, start)) => {
                        if address >= start {
                            self.insert_range(fl, AddressRange { low: start, high: address });
                        }
                    },
                    None => {},
                }
                previous = Some((FileLine { file, line }, address));
            }
            i += 1;
        }
    }

    /// The index of the line programs of a binary, one list of rows for each
    /// compilation unit that has a line program.
    pub fn new_from_dwarf(programs: &[Vec<LineRow>]) -> (index: LineIndex)
        ensures
            index@ == index_of_programs(IndexModel::empty(), programs_view(programs@)),
    {
        let mut index = LineIndex::new();
        let ghost all = programs_view(programs@);
        let mut i: usize = 0;
        proof {
            assert(all.skip(0) == all);
        }
        while i < programs.len()
            invariant
                i <= programs.len(),
                all == programs_view(programs@),
                index_of_programs(index@, all.skip(i as int)) == index_of_programs(
                    IndexModel::empty(),
                    all,
                ),
            decreases programs.len() - i,
        {
            proof {
                assert(all.skip(i as int)[0] == rows_view(programs@[i as int]@));
                assert(all.skip(i as int).drop_first() == all.skip(i as int + 1));
            }
            index.consume_line_program(programs[i].as_slice());
            i += 1;
        }
        index
    }
}

impl View for LineIndex {
    type V = IndexModel;

    open spec fn view(&self) -> IndexModel {
        Map::new(
            |k: (Seq<char>, u64)| self.stored(k.0, k.1).len() > 0,
            |k: (Seq<char>, u64)| self.stored(k.0, k.1),
        )
    }
}

} // verus!
