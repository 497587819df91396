use ios_lldb_dap::line_index::{AddressRange, FileLine, LineIndex};

#[test]
fn line_index_lookup_returns_ranges() {
    let mut index = LineIndex::new();
    index.insert_range(
        FileLine {
            file: "/tmp/main.rs".into(),
            line: 10,
        },
        AddressRange {
            low: 0x10,
            high: 0x20,
        },
    );
    assert_eq!(
        index.lookup("/tmp/main.rs", 10),
        vec![AddressRange {
            low: 0x10,
            high: 0x20
        }]
    );
    assert!(index.lookup("/tmp/main.rs", 11).is_empty());
}

fn row(address: u64, file: &str, line: u64) -> ios_lldb_dap::line_index::LineRow {
    ios_lldb_dap::line_index::LineRow {
        address,
        end_sequence: false,
        file_name: Some(file.to_string()),
        directory: Some("/src/".to_string()),
        line: Some(line),
    }
}

fn end(address: u64) -> ios_lldb_dap::line_index::LineRow {
    ios_lldb_dap::line_index::LineRow {
        address,
        end_sequence: true,
        file_name: None,
        directory: None,
        line: None,
    }
}

fn range(low: u64, high: u64) -> AddressRange {
    AddressRange { low, high }
}

#[test]
fn ranges_are_inserted_under_path_and_final_name() {
    let mut index = LineIndex::new();
    index.insert_range(FileLine { file: "/tmp/foo.rs".into(), line: 42 }, range(0x100, 0x104));
    assert_eq!(index.lookup("/tmp/foo.rs", 42), vec![range(0x100, 0x104)]);
    assert_eq!(index.lookup("foo.rs", 42), vec![range(0x100, 0x104)]);
    assert_eq!(index.lookup("/elsewhere/foo.rs", 42), vec![range(0x100, 0x104)]);
    assert!(index.lookup("/tmp/foo.rs", 43).is_empty());
    assert!(index.lookup("/tmp/bar.rs", 42).is_empty());
    assert!(index.lookup("", 42).is_empty());
}

#[test]
fn a_name_without_directory_is_inserted_once() {
    let mut index = LineIndex::new();
    index.insert_range(FileLine { file: "foo.rs".into(), line: 1 }, range(1, 2));
    assert_eq!(index.lookup("foo.rs", 1), vec![range(1, 2)]);
}

#[test]
fn ranges_of_a_key_stay_in_insertion_order() {
    let mut index = LineIndex::new();
    index.insert_range(FileLine { file: "/a/x.rs".into(), line: 7 }, range(0x30, 0x40));
    index.insert_range(FileLine { file: "/b/x.rs".into(), line: 7 }, range(0x10, 0x20));
    index.insert_range(FileLine { file: "/a/x.rs".into(), line: 7 }, range(0x10, 0x38));
    assert_eq!(index.lookup("/a/x.rs", 7), vec![range(0x30, 0x40), range(0x10, 0x38)]);
    assert_eq!(
        index.lookup("x.rs", 7),
        vec![range(0x30, 0x40), range(0x10, 0x20), range(0x10, 0x38)]
    );
}

#[test]
fn each_row_closes_the_range_of_the_row_before_it() {
    let mut index = LineIndex::new();
    index.consume_line_program(&[
        row(0x10, "a.rs", 1),
        row(0x14, "a.rs", 2),
        row(0x20, "b.rs", 9),
        end(0x24),
    ]);
    assert_eq!(index.lookup("/src/a.rs", 1), vec![range(0x10, 0x14)]);
    assert_eq!(index.lookup("/src/a.rs", 2), vec![range(0x14, 0x20)]);
    assert_eq!(index.lookup("b.rs", 9), vec![range(0x20, 0x24)]);
}

#[test]
fn a_row_below_the_open_range_closes_nothing() {
    let mut index = LineIndex::new();
    index.consume_line_program(&[row(0x20, "a.rs", 1), row(0x10, "a.rs", 2), end(0x18)]);
    assert!(index.lookup("a.rs", 1).is_empty());
    assert_eq!(index.lookup("a.rs", 2), vec![range(0x10, 0x18)]);
}

#[test]
fn the_end_of_a_sequence_must_lie_above_the_start() {
    let mut index = LineIndex::new();
    index.consume_line_program(&[row(0x20, "a.rs", 1), end(0x20), row(0x30, "a.rs", 2), end(0x2f)]);
    assert!(index.lookup("a.rs", 1).is_empty());
    assert!(index.lookup("a.rs", 2).is_empty());
}

#[test]
fn a_row_at_the_same_address_closes_an_empty_range() {
    let mut index = LineIndex::new();
    index.consume_line_program(&[row(0x20, "a.rs", 1), row(0x20, "a.rs", 2), end(0x28)]);
    assert_eq!(index.lookup("a.rs", 1), vec![range(0x20, 0x20)]);
    assert_eq!(index.lookup("a.rs", 2), vec![range(0x20, 0x28)]);
}

#[test]
fn the_range_left_open_at_the_end_is_dropped() {
    let mut index = LineIndex::new();
    index.consume_line_program(&[row(0x10, "a.rs", 1)]);
    assert!(index.lookup("a.rs", 1).is_empty());
    index.consume_line_program(&[row(0x20, "a.rs", 2), end(0x30)]);
    assert!(index.lookup("a.rs", 1).is_empty());
    assert_eq!(index.lookup("a.rs", 2), vec![range(0x20, 0x30)]);
}

#[test]
fn rows_without_file_or_line_are_indexed_as_unknown_at_line_zero() {
    let mut index = LineIndex::new();
    let mut nameless = row(0x10, "a.rs", 1);
    nameless.file_name = None;
    nameless.line = None;
    index.consume_line_program(&[nameless, end(0x18)]);
    assert_eq!(index.lookup("<unknown>", 0), vec![range(0x10, 0x18)]);
}

#[test]
fn the_index_of_a_binary_is_built_program_by_program() {
    let programs = vec![
        vec![row(0x10, "a.rs", 1), end(0x14)],
        vec![],
        vec![row(0x40, "a.rs", 1), row(0x44, "c.rs", 3)],
    ];
    let index = LineIndex::new_from_dwarf(&programs);
    assert_eq!(index.lookup("/src/a.rs", 1), vec![range(0x10, 0x14), range(0x40, 0x44)]);
    assert!(index.lookup("c.rs", 3).is_empty());
}
