//! The line programs of a binary, read out of its DWARF sections.

use gimli::Reader;
use object::{Object, ObjectSection};
use vstd::prelude::*;
use vstd::string::StringExecFns;
use crate::line_index::{
    index_of_programs, programs_view, rows_view, IndexModel, LineIndex, LineRow, RowView,
};
use crate::macho::{object_of, read_object};

verus! {

/// The contents of the section `name` that `object` finds in `data`: none
/// where the file has no such section, and the message with which the file
/// or the section is refused.
pub uninterp spec fn object_section_of(data: Seq<u8>, name: Seq<char>) -> Result<
    Option<Seq<u8>>,
    Seq<char>,
>;

/// The view of what reading a section gives.
pub open spec fn section_view(r: Result<Option<Vec<u8>>, String>) -> Result<
    Option<Seq<u8>>,
    Seq<char>,
> {
    match r {
        Ok(Some(d)) => Ok(Some(d@)),
        Ok(None) => Ok(None),
        Err(m) => Err(m@),
    }
}

/// `object::File::parse`, `section_by_name` and `uncompressed_data`: the
/// contents of the section `name` of the object file in `data`.
#[verifier::external_body]
fn object_section(data: &[u8], name: &str) -> (section: Result<Option<Vec<u8>>, String>)
    ensures
        section_view(section) == object_section_of(data@, name@),
{
    let file = object::File::parse(data).map_err(|e| e.to_string())?;
    file.section_by_name(name).map(
        |s| s.uncompressed_data().map(|d| d.into_owned()).map_err(|e| e.to_string()),
    ).transpose()
}

/// The contents of a section as the reader of DWARF gets them: nothing for
/// a section that the file does not have.
pub open spec fn section_or_empty(data: Seq<u8>, name: Seq<char>) -> Result<Seq<u8>, Seq<char>> {
    match object_section_of(data, name) {
        Ok(Some(d)) => Ok(d),
        Ok(None) => Ok(Seq::empty()),
        Err(m) => Err(m),
    }
}

/// The view of a result that holds bytes or a message.
pub open spec fn bytes_view(r: Result<Vec<u8>, String>) -> Result<Seq<u8>, Seq<char>> {
    match r {
        Ok(d) => Ok(d@),
        Err(m) => Err(m@),
    }
}

/// The contents of the section `name` of the object file in `data`, empty
/// where the file has no such section.
pub fn load_section_vec(data: &[u8], name: &str) -> (section: Result<Vec<u8>, String>)
    ensures
        bytes_view(section) == section_or_empty(data@, name@),
{
    match object_section(data, name) {
        Ok(Some(d)) => Ok(d),
        Ok(None) => Ok(Vec::new()),
        Err(m) => Err(m),
    }
}

/// What reading one compilation unit and its line program gives: the rows
/// of the program, nothing where the unit has no line program, or the
/// reader's message where the unit or the program cannot be read.
pub type UnitRows = Result<Option<Seq<RowView>>, Seq<char>>;

/// The compilation units of a binary, as `gimli` has read them (the
/// reader's message in place of one that it refused), and the rows of the
/// line program that was run last.
#[verifier::external_body]
pub struct DwarfUnits {
    dwarf: gimli::Dwarf<gimli::EndianRcSlice<gimli::RunTimeEndian>>,
    units: Vec<Result<gimli::Unit<gimli::EndianRcSlice<gimli::RunTimeEndian>>, String>>,
    header: Option<gimli::LineProgramHeader<gimli::EndianRcSlice<gimli::RunTimeEndian>>>,
    rows: Vec<gimli::LineRow>,
    current: usize,
}

/// What reading each of the units and running its line program gives, in
/// the order of the units. A unit that cannot be read is the last.
pub uninterp spec fn unit_rows_in(units: DwarfUnits) -> Seq<UnitRows>;

/// The rows of the line program that was run last, in order.
pub uninterp spec fn kept_rows(units: DwarfUnits) -> Seq<RowView>;

/// What `gimli` finds in the DWARF sections of the object file in `data`,
/// read with the given byte order: for each compilation unit what reading
/// it and running its line program gives; or the message with which a
/// section is refused.
pub uninterp spec fn dwarf_units_of(data: Seq<u8>, little_endian: bool) -> Result<
    Seq<UnitRows>,
    Seq<char>,
>;

/// `gimli::Dwarf::load`, `Dwarf::units`, `DebugInfoUnitHeadersIter::next`
/// and `Dwarf::unit`: the compilation units of the object file in `data`, up
/// to the first whose header cannot be read, and how many they are. Each
/// section is loaded by `load_section_vec`; no line program is run yet.
#[verifier::external_body]
fn open_units(data: &[u8], little_endian: bool) -> (opened: Result<(DwarfUnits, usize), String>)
    ensures
        match opened {
            Ok((units, count)) => dwarf_units_of(data@, little_endian) == Ok::<
                Seq<UnitRows>,
                Seq<char>,
            >(unit_rows_in(units)) && count == unit_rows_in(units).len(),
            Err(m) => dwarf_units_of(data@, little_endian) == Err::<Seq<UnitRows>, Seq<char>>(m@),
        },
{
    let endian = if little_endian { gimli::RunTimeEndian::Little } else { gimli::RunTimeEndian::Big };
    let dwarf = gimli::Dwarf::load(|id| {
        load_section_vec(data, id.name()).map(|v| gimli::EndianRcSlice::new(v.into(), endian))
    })?;
    let (mut units, mut headers) = (Vec::new(), dwarf.units());
    while let Some(header) = headers.next().transpose() {
        units.push(header.and_then(|h| dwarf.unit(h)).map_err(|e| e.to_string()));
    }
    let count = units.len();
    Ok((DwarfUnits { dwarf, units, header: None, rows: Vec::new(), current: 0 }, count))
}

/// `IncompleteLineProgram::rows` and `LineRows::next_row`: runs the line
/// program of the unit at `index` and keeps its rows. Gives the number of
/// rows, nothing where the unit has no line program, and the reader's
/// message where the unit could not be read or the program cannot be run.
#[verifier::external_body]
fn load_rows(units: &mut DwarfUnits, index: usize) -> (count: Result<Option<usize>, String>)
    requires
        index < unit_rows_in(*old(units)).len(),
    ensures
        unit_rows_in(*final(units)) == unit_rows_in(*old(units)),
        match count {
            Ok(Some(n)) => unit_rows_in(*old(units))[index as int] == Ok::<
                Option<Seq<RowView>>,
                Seq<char>,
            >(Some(kept_rows(*final(units)))) && n == kept_rows(*final(units)).len(),
            Ok(None) => unit_rows_in(*old(units))[index as int] == Ok::<
                Option<Seq<RowView>>,
                Seq<char>,
            >(None),
            Err(m) => unit_rows_in(*old(units))[index as int] == Err::<
                Option<Seq<RowView>>,
                Seq<char>,
            >(m@),
        },
{
    let unit = units.units[index].as_ref().map_err(|m| m.clone())?;
    let Some(program) = unit.line_program.clone() else { return Ok(None) };
    let mut rows = program.rows();
    units.rows.clear();
    while let Some((_, row)) = rows.next_row().map_err(|e| e.to_string())? {
        units.rows.push(*row);
    }
    units.header = Some(rows.header().clone());
    units.current = index;
    Ok(Some(units.rows.len()))
}

/// `LineRow::file`, `FileEntry::path_name`, `FileEntry::directory` and
/// `Dwarf::attr_string`: the row at `index` of the rows that are kept, with
/// the name and the directory of its file where they can be read.
#[verifier::external_body]
fn row_at(units: &DwarfUnits, index: usize) -> (row: LineRow)
    requires
        index < kept_rows(*units).len(),
    ensures
        row@ == kept_rows(*units)[index as int],
{
    let (row, unit, header) = (&units.rows[index], &units.units[units.current], units.header.as_ref());
    let text = |a| Some(units.dwarf.attr_string(unit.as_ref().ok()?, a).ok()?.to_string_lossy().ok()?.into_owned());
    let entry = header.and_then(|h| row.file(h));
    LineRow {
        address: row.address(),
        end_sequence: row.end_sequence(),
        file_name: entry.and_then(|e| text(e.path_name())),
        directory: entry.and_then(|e| text(e.directory(header?)?)),
        line: row.line().map(u64::from),
    }
}

/// The view of what reading one line program gives.
pub open spec fn unit_rows_view(r: Result<Option<Vec<LineRow>>, String>) -> UnitRows {
    match r {
        Ok(Some(rows)) => Ok(Some(rows_view(rows@))),
        Ok(None) => Ok(None),
        Err(m) => Err(m@),
    }
}

/// The rows of the line program of the unit at `index`.
fn unit_rows(units: &mut DwarfUnits, index: usize) -> (rows: Result<Option<Vec<LineRow>>, String>)
    requires
        index < unit_rows_in(*old(units)).len(),
    ensures
        unit_rows_in(*final(units)) == unit_rows_in(*old(units)),
        unit_rows_view(rows) == unit_rows_in(*old(units))[index as int],
{
    let count = match load_rows(units, index) {
        Ok(Some(n)) => n,
        Ok(None) => {
            return Ok(None);
        },
        Err(m) => {
            return Err(m);
        },
    };
    let mut rows: Vec<LineRow> = Vec::new();
    let mut i: usize = 0;
    while i < count
        invariant
            i <= count,
            count == kept_rows(*units).len(),
            rows@.len() == i,
            forall|k: int| 0 <= k < i ==> (#[trigger] rows@[k])@ == kept_rows(*units)[k],
        decreases count - i,
    {
        rows.push(row_at(units, i));
        i += 1;
    }
    proof {
        assert(rows_view(rows@) =~= kept_rows(*units));
    }
    Ok(Some(rows))
}

/// The line programs among what was read of the units from `from` on, in
/// order: units without a line program are passed over, and the first unit
/// or program that cannot be read fails them all.
pub open spec fn programs_from(units: Seq<UnitRows>, from: int) -> Result<
    Seq<Seq<RowView>>,
    Seq<char>,
>
    decreases units.len() - from,
{
    if from < 0 || from >= units.len() {
        Ok(Seq::empty())
    } else {
        match units[from] {
            Err(m) => Err(m),
            Ok(found) => match programs_from(units, from + 1) {
                Err(m) => Err(m),
                Ok(rest) => match found {
                    Some(rows) => Ok(seq![rows] + rest),
                    None => Ok(rest),
                },
            },
        }
    }
}

/// The message for a file that is no object file.
pub open spec fn unparsable(message: Seq<char>) -> Seq<char> {
    "failed to parse Mach-O for DWARF line index: "@ + message
}

/// The line programs of the binary in `data`: one list of rows for each
/// compilation unit that has a line program.
pub open spec fn line_programs_of(data: Seq<u8>) -> Result<Seq<Seq<RowView>>, Seq<char>> {
    match object_of(data) {
        Err(m) => Err(unparsable(m)),
        Ok(summary) => match dwarf_units_of(data, summary.little_endian) {
            Err(m) => Err(m),
            Ok(units) => programs_from(units, 0),
        },
    }
}

/// The view of a result that holds line programs or a message.
pub open spec fn programs_result_view(r: Result<Vec<Vec<LineRow>>, String>) -> Result<
    Seq<Seq<RowView>>,
    Seq<char>,
> {
    match r {
        Ok(programs) => Ok(programs_view(programs@)),
        Err(m) => Err(m@),
    }
}

/// The programs that were read before the unit at `from`, with those from
/// there on.
spec fn with_rest(done: Seq<Seq<RowView>>, units: Seq<UnitRows>, from: int) -> Result<
    Seq<Seq<RowView>>,
    Seq<char>,
> {
    match programs_from(units, from) {
        Ok(rest) => Ok(done + rest),
        Err(m) => Err(m),
    }
}

/// Reads the line programs of the binary in `data`.
pub fn read_line_programs(data: &[u8]) -> (programs: Result<Vec<Vec<LineRow>>, String>)
    ensures
        programs_result_view(programs) == line_programs_of(data@),
{
    let little_endian = match read_object(data) {
        Ok(summary) => summary.little_endian,
        Err(m) => {
            let mut message = "failed to parse Mach-O for DWARF line index: ".to_owned();
            message.append(m.as_str());
            return Err(message);
        },
    };
    let (mut units, count) = match open_units(data, little_endian) {
        Ok(opened) => opened,
        Err(m) => {
            return Err(m);
        },
    };
    let ghost all = unit_rows_in(units);
    let mut programs: Vec<Vec<LineRow>> = Vec::new();
    let mut i: usize = 0;
    proof {
        assert(Seq::<Seq<RowView>>::empty() + programs_from(all, 0)->Ok_0 == programs_from(
            all,
            0,
        )->Ok_0);
        assert(programs_view(programs@) =~= Seq::<Seq<RowView>>::empty());
    }
    while i < count
        invariant
            i <= count,
            count == all.len(),
            all == unit_rows_in(units),
            line_programs_of(data@) == programs_from(all, 0),
            with_rest(programs_view(programs@), all, i as int) == programs_from(all, 0),
        decreases count - i,
    {
        let ghost done = programs_view(programs@);
        match unit_rows(&mut units, i) {
            Err(m) => {
                return Err(m);
            },
            Ok(None) => {},
            Ok(Some(rows)) => {
                let ghost view = rows_view(rows@);
                programs.push(rows);
                proof {
                    assert(programs_view(programs@) =~= done.push(view));
                    match programs_from(all, i as int + 1) {
                        Ok(rest) => {
                            assert(done.push(view) + rest =~= done + (seq![view] + rest));
                        },
                        Err(_) => {},
                    }
                }
            },
        }
        i += 1;
    }
    proof {
        assert(programs_view(programs@) + Seq::<Seq<RowView>>::empty() == programs_view(
            programs@,
        ));
    }
    Ok(programs)
}

impl LineIndex {
    /// The index of the line programs of the binary in `data`.
    pub fn from_binary(data: &[u8]) -> (index: Result<LineIndex, String>)
        ensures
            match index {
                Ok(i) => line_programs_of(data@) matches Ok(programs) && i@ == index_of_programs(
                    IndexModel::empty(),
                    programs,
                ),
                Err(m) => line_programs_of(data@) == Err::<Seq<Seq<RowView>>, Seq<char>>(m@),
            },
    {
        match read_line_programs(data) {
            Ok(programs) => Ok(LineIndex::new_from_dwarf(programs.as_slice())),
            Err(m) => Err(m),
        }
    }
}

} // verus!
