use ios_lldb_dap::macho::{
    extract_macho_uuid, find_text_vmaddr, text_vmaddr_among, RawSegment, SymbolError,
};
use ios_lldb_dap::symbols::{slide_of, Image, SymbolContext};

const TEST_UUID: [u8; 16] = [
    0x01, 0x02, 0x03, 0x04, 0x05, 0x06, 0x07, 0x08, 0x11, 0x12, 0x13, 0x14, 0x21, 0x22, 0x23, 0x24,
];

fn build_test_macho(vmaddr: u64, uuid: [u8; 16]) -> Vec<u8> {
    let mut commands = Vec::new();
    commands.push(build_segment_command(b"__TEXT", vmaddr));
    commands.push(build_uuid_command(uuid));
    build_header(&commands)
}

fn build_header(commands: &[Vec<u8>]) -> Vec<u8> {
    let sizeofcmds: u32 = commands.iter().map(|c| c.len() as u32).sum();
    let ncmds = commands.len() as u32;
    let mut buf = Vec::new();
    buf.extend_from_slice(&0xfeedfacfu32.to_le_bytes());
    buf.extend_from_slice(&0x0100000cu32.to_le_bytes());
    buf.extend_from_slice(&0u32.to_le_bytes());
    buf.extend_from_slice(&0x2u32.to_le_bytes());
    buf.extend_from_slice(&ncmds.to_le_bytes());
    buf.extend_from_slice(&sizeofcmds.to_le_bytes());
    buf.extend_from_slice(&0u32.to_le_bytes());
    buf.extend_from_slice(&0u32.to_le_bytes());
    for cmd in commands {
        buf.extend_from_slice(cmd);
    }
    while buf.len() % 8 != 0 {
        buf.push(0);
    }
    buf
}

fn build_segment_command(name: &[u8], vmaddr: u64) -> Vec<u8> {
    let mut buf = Vec::new();
    let cmdsize = 72u32;
    buf.extend_from_slice(&0x19u32.to_le_bytes());
    buf.extend_from_slice(&cmdsize.to_le_bytes());
    let mut segname = [0u8; 16];
    segname[..name.len()].copy_from_slice(name);
    buf.extend_from_slice(&segname);
    buf.extend_from_slice(&vmaddr.to_le_bytes());
    buf.extend_from_slice(&0x1000u64.to_le_bytes());
    buf.extend_from_slice(&0u64.to_le_bytes());
    buf.extend_from_slice(&0x1000u64.to_le_bytes());
    buf.extend_from_slice(&7u32.to_le_bytes());
    buf.extend_from_slice(&5u32.to_le_bytes());
    buf.extend_from_slice(&0u32.to_le_bytes());
    buf.extend_from_slice(&0u32.to_le_bytes());
    buf
}

fn build_uuid_command(uuid: [u8; 16]) -> Vec<u8> {
    let mut buf = Vec::new();
    buf.extend_from_slice(&0x1bu32.to_le_bytes());
    buf.extend_from_slice(&24u32.to_le_bytes());
    buf.extend_from_slice(&uuid);
    buf
}

fn test_context(vmaddr_text: u64, slide: i64) -> SymbolContext {
    SymbolContext::for_testing(Image {
        name: "test".into(),
        path: "/tmp/test".into(),
        uuid: None,
        vmaddr_text,
        slide,
    })
}

#[test]
fn text_vmaddr_detected() {
    let macho = build_test_macho(0x1000, TEST_UUID);
    let vmaddr = find_text_vmaddr(&macho).unwrap();
    assert_eq!(vmaddr, 0x1000);
}

#[test]
fn uuid_is_extracted() {
    let macho = build_test_macho(0x2000, TEST_UUID);
    let uuid = extract_macho_uuid(&macho).unwrap().unwrap();
    assert_eq!(uuid, TEST_UUID);
}

#[test]
fn translate_remote_pc_applies_slide() {
    let mut ctx = test_context(0x1000, 0);
    ctx.set_slide(0x4000);
    let translated = ctx.translate_remote_pc(0x9000);
    assert_eq!(translated, 0x5000);
}

#[test]
fn local_to_remote_applies_slide() {
    let mut ctx = test_context(0x0, 0x2000);
    let remote = ctx.local_to_remote(0x1000);
    assert_eq!(remote, 0x3000);
    ctx.set_slide(-0x2000);
    let remote = ctx.local_to_remote(0x3000);
    assert_eq!(remote, 0x1000);
}

#[test]
fn translation_wraps_around() {
    let ctx = test_context(0, 0x10);
    assert_eq!(ctx.translate_remote_pc(0x8), u64::MAX - 7);
    assert_eq!(ctx.local_to_remote(u64::MAX), 0xf);
    let ctx = test_context(0, i64::MIN);
    assert_eq!(ctx.local_to_remote(0), 0x8000_0000_0000_0000);
    assert_eq!(ctx.translate_remote_pc(0), 0x8000_0000_0000_0000);
}

#[test]
fn translation_round_trips() {
    for slide in [0i64, 1, -1, 0x2000, -0x2000, i64::MAX, i64::MIN] {
        let ctx = test_context(0, slide);
        for pc in [0u64, 1, 0x1040, u64::MAX, 0x8000_0000_0000_0000] {
            assert_eq!(ctx.local_to_remote(ctx.translate_remote_pc(pc)), pc);
            assert_eq!(ctx.translate_remote_pc(ctx.local_to_remote(pc)), pc);
        }
    }
}

#[test]
fn slide_is_the_distance_to_the_observed_base() {
    assert_eq!(slide_of(0x1000, 0x3000), 0x2000);
    assert_eq!(slide_of(0x3000, 0x1000), -0x2000);
    assert_eq!(slide_of(5, 5), 0);
    assert_eq!(slide_of(0, u64::MAX), -1);
    assert_eq!(slide_of(0, 0x8000_0000_0000_0000), i64::MIN);
    assert_eq!(slide_of(1, 0x8000_0000_0000_0000), i64::MAX);
}

#[test]
fn text_is_preferred_over_the_first_segment() {
    let macho = build_header(&[
        build_segment_command(b"__PAGEZERO", 0),
        build_segment_command(b"__TEXT", 0x1_0000_0000),
        build_segment_command(b"__DATA", 0x1_0000_4000),
    ]);
    assert_eq!(find_text_vmaddr(&macho).unwrap(), 0x1_0000_0000);
}

#[test]
fn first_segment_stands_in_for_a_missing_text() {
    let macho = build_header(&[
        build_segment_command(b"__DATA", 0x4000),
        build_segment_command(b"__LINKEDIT", 0x8000),
    ]);
    assert_eq!(find_text_vmaddr(&macho).unwrap(), 0x4000);
}

#[test]
fn a_file_without_segments_has_no_text() {
    let macho = build_header(&[build_uuid_command(TEST_UUID)]);
    assert!(matches!(find_text_vmaddr(&macho), Err(SymbolError::NoSegments)));
}

#[test]
fn a_file_without_uuid_has_none() {
    let macho = build_header(&[build_segment_command(b"__TEXT", 0x1000)]);
    assert_eq!(extract_macho_uuid(&macho).unwrap(), None);
}

#[test]
fn what_is_no_object_file_is_refused() {
    assert!(matches!(
        find_text_vmaddr(b"not an object file"),
        Err(SymbolError::Unparsable(_))
    ));
    assert!(matches!(
        extract_macho_uuid(b"not an object file"),
        Err(SymbolError::LoadCommands(_))
    ));
    assert!(matches!(
        SymbolContext::new("/tmp/app", b""),
        Err(SymbolError::Unparsable(_))
    ));
}

fn minimal_elf() -> Vec<u8> {
    let mut elf = vec![0u8; 64];
    elf[..4].copy_from_slice(b"\x7fELF");
    elf[4] = 2;
    elf[5] = 1;
    elf[6] = 1;
    elf[16] = 2;
    elf[18] = 62;
    elf[20] = 1;
    elf[52] = 64;
    elf[58] = 64;
    elf
}

#[test]
fn an_object_file_of_another_format_is_refused() {
    match find_text_vmaddr(&minimal_elf()) {
        Err(SymbolError::NotMachO(format)) => assert_eq!(format, "Elf"),
        other => panic!("unexpected {:?}", other),
    }
    assert!(matches!(
        SymbolContext::new("/bin/ls", &minimal_elf()),
        Err(SymbolError::NotMachO(_))
    ));
    assert_eq!(extract_macho_uuid(&minimal_elf()).unwrap(), None);
}

#[test]
fn segment_names_are_read_in_order() {
    let segments = vec![
        RawSegment { address: 1, name: Ok(None) },
        RawSegment { address: 2, name: Ok(Some("__DATA".into())) },
        RawSegment { address: 3, name: Ok(Some("__TEXT".into())) },
        RawSegment { address: 4, name: Err("unreadable".into()) },
    ];
    assert_eq!(text_vmaddr_among(&segments).unwrap(), 3);
    let segments = vec![
        RawSegment { address: 1, name: Err("unreadable".into()) },
        RawSegment { address: 3, name: Ok(Some("__TEXT".into())) },
    ];
    match text_vmaddr_among(&segments) {
        Err(SymbolError::SegmentName(m)) => assert_eq!(m, "unreadable"),
        other => panic!("unexpected {:?}", other),
    }
    assert!(matches!(text_vmaddr_among(&[]), Err(SymbolError::NoSegments)));
}

#[test]
fn a_context_is_made_of_a_mach_o_file() {
    let macho = build_test_macho(0x1000, TEST_UUID);
    let ctx = SymbolContext::new("/Applications/Demo.app/Demo", &macho).unwrap();
    assert_eq!(ctx.main.name, "Demo");
    assert_eq!(ctx.main.path, "/Applications/Demo.app/Demo");
    assert_eq!(ctx.main.uuid, Some(TEST_UUID));
    assert_eq!(ctx.main.vmaddr_text, 0x1000);
    assert_eq!(ctx.main.slide, 0);
}

#[test]
fn symbol_errors_read_as_lines() {
    assert_eq!(SymbolError::NoSegments.message(), "no segments found");
    assert_eq!(
        SymbolError::SegmentName("bad name".into()).message(),
        "failed to read segment name: bad name"
    );
    assert_eq!(
        SymbolError::NotMachO("Elf".into()).message(),
        "expected Mach-O binary, found Elf"
    );
    assert_eq!(
        SymbolError::Unparsable("too short".into()).message(),
        "failed to parse Mach-O: too short"
    );
    assert_eq!(
        SymbolError::LoadCommands("truncated".into()).message(),
        "failed to read Mach-O load commands: truncated"
    );
}
