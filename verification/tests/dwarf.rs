use ios_lldb_dap::dwarf::{load_section_vec, read_line_programs};
use ios_lldb_dap::line_index::{AddressRange, LineIndex};

/// A small ELF executable: two C functions in `/src/main.c`, compiled with
/// DWARF 4 line information and linked at 0x1000.
const BINARY: [u8; 1144] = [
    0x7f, 0x45, 0x4c, 0x46, 0x02, 0x01, 0x01, 0x00, 0x00, 0x00, 0x00, 0x00, 0x00, 0x00, 0x00, 0x00,
    0x02, 0x00, 0x3e, 0x00, 0x01, 0x00, 0x00, 0x00, 0x00, 0x10, 0x00, 0x00, 0x00, 0x00, 0x00, 0x00,
    0x40, 0x00, 0x00, 0x00, 0x00, 0x00, 0x00, 0x00, 0xb8, 0x02, 0x00, 0x00, 0x00, 0x00, 0x00, 0x00,
    0x00, 0x00, 0x00, 0x00, 0x40, 0x00, 0x38, 0x00, 0x01, 0x00, 0x40, 0x00, 0x07, 0x00, 0x06, 0x00,
    0x01, 0x00, 0x00, 0x00, 0x05, 0x00, 0x00, 0x00, 0x00, 0x00, 0x00, 0x00, 0x00, 0x00, 0x00, 0x00,
    0x80, 0x0f, 0x00, 0x00, 0x00, 0x00, 0x00, 0x00, 0x80, 0x0f, 0x00, 0x00, 0x00, 0x00, 0x00, 0x00,
    0xa8, 0x00, 0x00, 0x00, 0x00, 0x00, 0x00, 0x00, 0xa8, 0x00, 0x00, 0x00, 0x00, 0x00, 0x00, 0x00,
    0x10, 0x00, 0x00, 0x00, 0x00, 0x00, 0x00, 0x00, 0x00, 0x00, 0x00, 0x00, 0x00, 0x00, 0x00, 0x00,
    0x55, 0x48, 0x89, 0xe5, 0x89, 0x7d, 0xfc, 0x8b, 0x45, 0xfc, 0x83, 0xc0, 0x01, 0x5d, 0xc3, 0x55,
    0x48, 0x89, 0xe5, 0x48, 0x83, 0xec, 0x08, 0x89, 0x7d, 0xfc, 0x8b, 0x45, 0xfc, 0x89, 0xc7, 0xe8,
    0xdc, 0xff, 0xff, 0xff, 0x01, 0xc0, 0xc9, 0xc3, 0x89, 0x00, 0x00, 0x00, 0x04, 0x00, 0x00, 0x00,
    0x00, 0x00, 0x08, 0x01, 0x00, 0x00, 0x00, 0x00, 0x0c, 0x7b, 0x00, 0x00, 0x00, 0x82, 0x00, 0x00,
    0x00, 0x00, 0x10, 0x00, 0x00, 0x00, 0x00, 0x00, 0x00, 0x28, 0x00, 0x00, 0x00, 0x00, 0x00, 0x00,
    0x00, 0x00, 0x00, 0x00, 0x00, 0x02, 0x67, 0x00, 0x01, 0x05, 0x05, 0x5b, 0x00, 0x00, 0x00, 0x0f,
    0x10, 0x00, 0x00, 0x00, 0x00, 0x00, 0x00, 0x19, 0x00, 0x00, 0x00, 0x00, 0x00, 0x00, 0x00, 0x01,
    0x9c, 0x5b, 0x00, 0x00, 0x00, 0x03, 0x79, 0x00, 0x01, 0x05, 0x0b, 0x5b, 0x00, 0x00, 0x00, 0x02,
    0x91, 0x6c, 0x00, 0x04, 0x04, 0x05, 0x69, 0x6e, 0x74, 0x00, 0x05, 0x66, 0x00, 0x01, 0x01, 0x05,
    0x5b, 0x00, 0x00, 0x00, 0x00, 0x10, 0x00, 0x00, 0x00, 0x00, 0x00, 0x00, 0x0f, 0x00, 0x00, 0x00,
    0x00, 0x00, 0x00, 0x00, 0x01, 0x9c, 0x03, 0x78, 0x00, 0x01, 0x01, 0x0b, 0x5b, 0x00, 0x00, 0x00,
    0x02, 0x91, 0x6c, 0x00, 0x00, 0x01, 0x11, 0x01, 0x25, 0x0e, 0x13, 0x0b, 0x03, 0x0e, 0x1b, 0x0e,
    0x11, 0x01, 0x12, 0x07, 0x10, 0x17, 0x00, 0x00, 0x02, 0x2e, 0x01, 0x3f, 0x19, 0x03, 0x08, 0x3a,
    0x0b, 0x3b, 0x0b, 0x39, 0x0b, 0x27, 0x19, 0x49, 0x13, 0x11, 0x01, 0x12, 0x07, 0x40, 0x18, 0x96,
    0x42, 0x19, 0x01, 0x13, 0x00, 0x00, 0x03, 0x05, 0x00, 0x03, 0x08, 0x3a, 0x0b, 0x3b, 0x0b, 0x39,
    0x0b, 0x49, 0x13, 0x02, 0x18, 0x00, 0x00, 0x04, 0x24, 0x00, 0x0b, 0x0b, 0x3e, 0x0b, 0x03, 0x08,
    0x00, 0x00, 0x05, 0x2e, 0x01, 0x3f, 0x19, 0x03, 0x08, 0x3a, 0x0b, 0x3b, 0x0b, 0x39, 0x0b, 0x27,
    0x19, 0x49, 0x13, 0x11, 0x01, 0x12, 0x07, 0x40, 0x18, 0x97, 0x42, 0x19, 0x00, 0x00, 0x00, 0x49,
    0x00, 0x00, 0x00, 0x04, 0x00, 0x1e, 0x00, 0x00, 0x00, 0x01, 0x01, 0x01, 0xfb, 0x0e, 0x0d, 0x00,
    0x01, 0x01, 0x01, 0x01, 0x00, 0x00, 0x00, 0x01, 0x00, 0x00, 0x01, 0x00, 0x6d, 0x61, 0x69, 0x6e,
    0x2e, 0x63, 0x00, 0x00, 0x00, 0x00, 0x00, 0x05, 0x0e, 0x00, 0x09, 0x02, 0x00, 0x10, 0x00, 0x00,
    0x00, 0x00, 0x00, 0x00, 0x01, 0x05, 0x0c, 0x75, 0x05, 0x01, 0x67, 0x05, 0x0e, 0x30, 0x05, 0x0a,
    0xad, 0x05, 0x0f, 0x9e, 0x05, 0x01, 0x2f, 0x02, 0x02, 0x00, 0x01, 0x01, 0x47, 0x4e, 0x55, 0x20,
    0x43, 0x31, 0x37, 0x20, 0x31, 0x32, 0x2e, 0x32, 0x2e, 0x30, 0x20, 0x2d, 0x6d, 0x74, 0x75, 0x6e,
    0x65, 0x3d, 0x67, 0x65, 0x6e, 0x65, 0x72, 0x69, 0x63, 0x20, 0x2d, 0x6d, 0x61, 0x72, 0x63, 0x68,
    0x3d, 0x78, 0x38, 0x36, 0x2d, 0x36, 0x34, 0x20, 0x2d, 0x67, 0x20, 0x2d, 0x67, 0x64, 0x77, 0x61,
    0x72, 0x66, 0x2d, 0x34, 0x20, 0x2d, 0x4f, 0x30, 0x20, 0x2d, 0x66, 0x6e, 0x6f, 0x2d, 0x61, 0x73,
    0x79, 0x6e, 0x63, 0x68, 0x72, 0x6f, 0x6e, 0x6f, 0x75, 0x73, 0x2d, 0x75, 0x6e, 0x77, 0x69, 0x6e,
    0x64, 0x2d, 0x74, 0x61, 0x62, 0x6c, 0x65, 0x73, 0x20, 0x2d, 0x66, 0x6e, 0x6f, 0x2d, 0x70, 0x69,
    0x63, 0x20, 0x2d, 0x66, 0x63, 0x66, 0x2d, 0x70, 0x72, 0x6f, 0x74, 0x65, 0x63, 0x74, 0x69, 0x6f,
    0x6e, 0x3d, 0x6e, 0x6f, 0x6e, 0x65, 0x00, 0x6d, 0x61, 0x69, 0x6e, 0x2e, 0x63, 0x00, 0x2f, 0x73,
    0x72, 0x63, 0x00, 0x00, 0x2e, 0x73, 0x68, 0x73, 0x74, 0x72, 0x74, 0x61, 0x62, 0x00, 0x2e, 0x74,
    0x65, 0x78, 0x74, 0x00, 0x2e, 0x64, 0x65, 0x62, 0x75, 0x67, 0x5f, 0x69, 0x6e, 0x66, 0x6f, 0x00,
    0x2e, 0x64, 0x65, 0x62, 0x75, 0x67, 0x5f, 0x61, 0x62, 0x62, 0x72, 0x65, 0x76, 0x00, 0x2e, 0x64,
    0x65, 0x62, 0x75, 0x67, 0x5f, 0x6c, 0x69, 0x6e, 0x65, 0x00, 0x2e, 0x64, 0x65, 0x62, 0x75, 0x67,
    0x5f, 0x73, 0x74, 0x72, 0x00, 0x00, 0x00, 0x00, 0x00, 0x00, 0x00, 0x00, 0x00, 0x00, 0x00, 0x00,
    0x00, 0x00, 0x00, 0x00, 0x00, 0x00, 0x00, 0x00, 0x00, 0x00, 0x00, 0x00, 0x00, 0x00, 0x00, 0x00,
    0x00, 0x00, 0x00, 0x00, 0x00, 0x00, 0x00, 0x00, 0x00, 0x00, 0x00, 0x00, 0x00, 0x00, 0x00, 0x00,
    0x00, 0x00, 0x00, 0x00, 0x00, 0x00, 0x00, 0x00, 0x00, 0x00, 0x00, 0x00, 0x00, 0x00, 0x00, 0x00,
    0x00, 0x00, 0x00, 0x00, 0x00, 0x00, 0x00, 0x00, 0x0b, 0x00, 0x00, 0x00, 0x01, 0x00, 0x00, 0x00,
    0x06, 0x00, 0x00, 0x00, 0x00, 0x00, 0x00, 0x00, 0x00, 0x10, 0x00, 0x00, 0x00, 0x00, 0x00, 0x00,
    0x80, 0x00, 0x00, 0x00, 0x00, 0x00, 0x00, 0x00, 0x28, 0x00, 0x00, 0x00, 0x00, 0x00, 0x00, 0x00,
    0x00, 0x00, 0x00, 0x00, 0x00, 0x00, 0x00, 0x00, 0x01, 0x00, 0x00, 0x00, 0x00, 0x00, 0x00, 0x00,
    0x00, 0x00, 0x00, 0x00, 0x00, 0x00, 0x00, 0x00, 0x11, 0x00, 0x00, 0x00, 0x01, 0x00, 0x00, 0x00,
    0x00, 0x00, 0x00, 0x00, 0x00, 0x00, 0x00, 0x00, 0x00, 0x00, 0x00, 0x00, 0x00, 0x00, 0x00, 0x00,
    0xa8, 0x00, 0x00, 0x00, 0x00, 0x00, 0x00, 0x00, 0x8d, 0x00, 0x00, 0x00, 0x00, 0x00, 0x00, 0x00,
    0x00, 0x00, 0x00, 0x00, 0x00, 0x00, 0x00, 0x00, 0x01, 0x00, 0x00, 0x00, 0x00, 0x00, 0x00, 0x00,
    0x00, 0x00, 0x00, 0x00, 0x00, 0x00, 0x00, 0x00, 0x1d, 0x00, 0x00, 0x00, 0x01, 0x00, 0x00, 0x00,
    0x00, 0x00, 0x00, 0x00, 0x00, 0x00, 0x00, 0x00, 0x00, 0x00, 0x00, 0x00, 0x00, 0x00, 0x00, 0x00,
    0x35, 0x01, 0x00, 0x00, 0x00, 0x00, 0x00, 0x00, 0x6a, 0x00, 0x00, 0x00, 0x00, 0x00, 0x00, 0x00,
    0x00, 0x00, 0x00, 0x00, 0x00, 0x00, 0x00, 0x00, 0x01, 0x00, 0x00, 0x00, 0x00, 0x00, 0x00, 0x00,
    0x00, 0x00, 0x00, 0x00, 0x00, 0x00, 0x00, 0x00, 0x2b, 0x00, 0x00, 0x00, 0x01, 0x00, 0x00, 0x00,
    0x00, 0x00, 0x00, 0x00, 0x00, 0x00, 0x00, 0x00, 0x00, 0x00, 0x00, 0x00, 0x00, 0x00, 0x00, 0x00,
    0x9f, 0x01, 0x00, 0x00, 0x00, 0x00, 0x00, 0x00, 0x4d, 0x00, 0x00, 0x00, 0x00, 0x00, 0x00, 0x00,
    0x00, 0x00, 0x00, 0x00, 0x00, 0x00, 0x00, 0x00, 0x01, 0x00, 0x00, 0x00, 0x00, 0x00, 0x00, 0x00,
    0x00, 0x00, 0x00, 0x00, 0x00, 0x00, 0x00, 0x00, 0x37, 0x00, 0x00, 0x00, 0x01, 0x00, 0x00, 0x00,
    0x30, 0x00, 0x00, 0x00, 0x00, 0x00, 0x00, 0x00, 0x00, 0x00, 0x00, 0x00, 0x00, 0x00, 0x00, 0x00,
    0xec, 0x01, 0x00, 0x00, 0x00, 0x00, 0x00, 0x00, 0x87, 0x00, 0x00, 0x00, 0x00, 0x00, 0x00, 0x00,
    0x00, 0x00, 0x00, 0x00, 0x00, 0x00, 0x00, 0x00, 0x01, 0x00, 0x00, 0x00, 0x00, 0x00, 0x00, 0x00,
    0x01, 0x00, 0x00, 0x00, 0x00, 0x00, 0x00, 0x00, 0x01, 0x00, 0x00, 0x00, 0x03, 0x00, 0x00, 0x00,
    0x00, 0x00, 0x00, 0x00, 0x00, 0x00, 0x00, 0x00, 0x00, 0x00, 0x00, 0x00, 0x00, 0x00, 0x00, 0x00,
    0x73, 0x02, 0x00, 0x00, 0x00, 0x00, 0x00, 0x00, 0x42, 0x00, 0x00, 0x00, 0x00, 0x00, 0x00, 0x00,
    0x00, 0x00, 0x00, 0x00, 0x00, 0x00, 0x00, 0x00, 0x01, 0x00, 0x00, 0x00, 0x00, 0x00, 0x00, 0x00,
    0x00, 0x00, 0x00, 0x00, 0x00, 0x00, 0x00, 0x00,
];

fn range(low: u64, high: u64) -> AddressRange {
    AddressRange { low, high }
}

#[test]
fn line_programs_are_read_out_of_a_binary() {
    let programs = read_line_programs(&BINARY).unwrap();
    assert_eq!(programs.len(), 1);
    let rows: Vec<(u64, bool, Option<u64>)> = programs[0]
        .iter()
        .map(|r| (r.address, r.end_sequence, r.line))
        .collect();
    assert_eq!(
        rows,
        vec![
            (0x1000, false, Some(1)),
            (0x1007, false, Some(2)),
            (0x100d, false, Some(3)),
            (0x100f, false, Some(5)),
            (0x101a, false, Some(6)),
            (0x1024, false, Some(6)),
            (0x1026, false, Some(7)),
            (0x1028, true, Some(7)),
        ]
    );
    for row in &programs[0] {
        assert_eq!(row.file_name.as_deref(), Some("main.c"));
        assert_eq!(row.directory.as_deref(), Some("/src"));
    }
}

#[test]
fn the_line_index_of_a_binary_answers_for_its_lines() {
    let index = LineIndex::from_binary(&BINARY).unwrap();
    assert_eq!(index.lookup("/src/main.c", 1), vec![range(0x1000, 0x1007)]);
    assert_eq!(index.lookup("/src/main.c", 2), vec![range(0x1007, 0x100d)]);
    assert_eq!(index.lookup("/src/main.c", 5), vec![range(0x100f, 0x101a)]);
    assert_eq!(
        index.lookup("main.c", 6),
        vec![range(0x101a, 0x1024), range(0x1024, 0x1026)]
    );
    assert_eq!(index.lookup("/elsewhere/main.c", 7), vec![range(0x1026, 0x1028)]);
    assert!(index.lookup("/src/main.c", 4).is_empty());
    assert!(index.lookup("/src/other.c", 1).is_empty());
}

#[test]
fn sections_that_are_not_there_read_as_empty() {
    let line = load_section_vec(&BINARY, ".debug_line").unwrap();
    assert!(!line.is_empty());
    assert_eq!(load_section_vec(&BINARY, ".debug_types").unwrap(), Vec::<u8>::new());
    assert!(load_section_vec(b"no object file", ".debug_line").is_err());
}

#[test]
fn a_binary_without_debug_information_has_an_empty_index() {
    let mut bare = BINARY[..64].to_vec();
    bare[40..48].copy_from_slice(&0u64.to_le_bytes());
    bare[56..64].copy_from_slice(&[0, 0, 64, 0, 0, 0, 0, 0]);
    bare[32..40].copy_from_slice(&0u64.to_le_bytes());
    let programs = read_line_programs(&bare).unwrap();
    assert!(programs.is_empty());
    let index = LineIndex::from_binary(&bare).unwrap();
    assert!(index.lookup("/src/main.c", 1).is_empty());
}

#[test]
fn what_is_no_object_file_has_no_line_programs() {
    let err = read_line_programs(b"no object file").unwrap_err();
    assert!(
        err.starts_with("failed to parse Mach-O for DWARF line index: "),
        "{err}"
    );
    assert!(LineIndex::from_binary(b"").is_err());
}

fn with_byte_in_section(name: &str, offset: usize, value: u8) -> Vec<u8> {
    let section = load_section_vec(&BINARY, name).unwrap();
    let at = BINARY
        .windows(section.len())
        .position(|w| w == section.as_slice())
        .unwrap();
    let mut changed = BINARY.to_vec();
    changed[at + offset] = value;
    changed
}

#[test]
fn a_unit_that_cannot_be_read_fails_the_reading() {
    let broken = with_byte_in_section(".debug_info", 4, 0x63);
    let err = read_line_programs(&broken).unwrap_err();
    assert!(!err.is_empty());
    assert!(!err.starts_with("failed to parse Mach-O"), "{err}");
    assert!(LineIndex::from_binary(&broken).is_err());
}

#[test]
fn a_line_program_that_cannot_be_read_fails_the_reading() {
    let broken = with_byte_in_section(".debug_line", 4, 0x63);
    let err = read_line_programs(&broken).unwrap_err();
    assert!(!err.is_empty());
    assert!(!err.starts_with("failed to parse Mach-O"), "{err}");
    assert!(LineIndex::from_binary(&broken).is_err());
}
