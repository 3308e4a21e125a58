use probe_run::elf::{ElfImage, ElfSection, Segment, Symbols};
use probe_run::program::{candidates, gather, load, open, to_words, LoadError, Program};
use probe_run::symbols::Name;

/// A section of a file with 32-bit fields: name, type, address and bytes.
struct Part {
    name: &'static str,
    kind: u32,
    address: u32,
    bytes: Vec<u8>,
}

fn part(name: &'static str, kind: u32, address: u32, bytes: Vec<u8>) -> Part {
    Part { name, kind, address, bytes }
}

fn words(values: &[u32]) -> Vec<u8> {
    values.iter().flat_map(|value| value.to_le_bytes().to_vec()).collect()
}

/// An ELF file with 32-bit fields: the null section, the parts, and the names of the sections; and a
/// program header (type, virtual and physical address) for each segment.
fn elf(parts: &[Part], segments: &[(u32, u32, u32)]) -> Vec<u8> {
    let mut file = vec![0; 52];
    for (kind, virt, phys) in segments {
        file.extend_from_slice(&words(&[*kind, 0, *virt, *phys, 0, 0, 0, 0]));
    }
    let mut names = vec![0];
    let mut headers = words(&[0; 10]);
    for part in parts {
        while file.len() % 4 != 0 {
            file.push(0);
        }
        let (name, offset, size) = (names.len() as u32, file.len() as u32, part.bytes.len() as u32);
        headers.extend_from_slice(&words(&[
            name, part.kind, 0, part.address, offset, size, 0, 0, 0, 0,
        ]));
        names.extend_from_slice(part.name.as_bytes());
        names.push(0);
        file.extend_from_slice(&part.bytes);
    }
    let name = names.len() as u32;
    names.extend_from_slice(b".shstrtab\0");
    let (offset, size) = (file.len() as u32, names.len() as u32);
    headers.extend_from_slice(&words(&[name, 3, 0, 0, offset, size, 0, 0, 0, 0]));
    file.extend_from_slice(&names);
    while file.len() % 4 != 0 {
        file.push(0);
    }
    let table = file.len() as u32;
    file.extend_from_slice(&headers);
    let count = parts.len() as u16 + 2;
    file[..7].copy_from_slice(&[0x7f, 0x45, 0x4c, 0x46, 1, 1, 1]);
    file[28..32].copy_from_slice(&52u32.to_le_bytes());
    file[32..36].copy_from_slice(&table.to_le_bytes());
    file[42..44].copy_from_slice(&32u16.to_le_bytes());
    file[44..46].copy_from_slice(&(segments.len() as u16).to_le_bytes());
    file[46..48].copy_from_slice(&40u16.to_le_bytes());
    file[48..50].copy_from_slice(&count.to_le_bytes());
    file[50..52].copy_from_slice(&(count - 1).to_le_bytes());
    file
}

/// An entry of a symbol table.
fn entry(name: u32, value: u32, size: u32, shndx: u16) -> Vec<u8> {
    let mut bytes = words(&[name, value, size]);
    bytes.extend_from_slice(&[0, 0]);
    bytes.extend_from_slice(&shndx.to_le_bytes());
    bytes
}

fn section(name: &str, address: u64, bytes: Vec<u8>) -> ElfSection {
    ElfSection {
        name: Name::Text(name.to_string()),
        address,
        size: bytes.len() as u64,
        data: Some(bytes),
        symbols: Symbols::Other,
    }
}

fn vector_table(address: u64) -> ElfSection {
    section(".vector_table", address, words(&[0x2000_4000, 0x401]))
}

fn image(sections: Vec<ElfSection>, segments: Vec<Segment>) -> ElfImage {
    ElfImage { sections, complete: true, segments, segments_complete: true }
}

fn program_of(image: &ElfImage) -> Program {
    gather(image, &candidates()).unwrap().unwrap()
}

fn error_of(image: &ElfImage) -> String {
    gather(image, &candidates()).unwrap().unwrap_err().message()
}

#[test]
fn program_is_loaded_from_a_file() {
    let mut symtab = entry(0, 0, 0, 0);
    symtab.extend_from_slice(&entry(1, 0x411, 0x10, 2));
    symtab.extend_from_slice(&entry(6, 0x2000_0100, 0x30, 4));
    let file = elf(
        &[
            part(".vector_table", 1, 0, words(&[0x2000_4000, 0x411])),
            part(".text", 1, 0x400, words(&[1, 2, 3])),
            part(".rodata", 1, 0x500, words(&[4])),
            part(".data", 1, 0x2000_0000, words(&[5, 6])),
            part(".bss", 8, 0x2000_0008, vec![]),
            part(".uninit", 1, 0x2000_0010, words(&[7])),
            part(".debug_frame", 1, 0, vec![1, 2, 3]),
            part(".symtab", 2, 0, symtab),
            part(".strtab", 3, 0, b"\0main\0_SEGGER_RTT\0".to_vec()),
        ],
        &[(1, 0, 0), (1, 0x2000_0000, 0x504)],
    );
    let program = load(&file).unwrap().unwrap();
    assert_eq!(program.registers.sp, 0x2000_4000);
    assert_eq!(program.registers.pc, 0x411);
    assert_eq!(program.registers.vtor, 0);
    let loaded: Vec<(u32, Vec<u32>)> =
        program.sections.iter().map(|section| (section.start, section.data.clone())).collect();
    assert_eq!(
        loaded,
        vec![(0, vec![0x2000_4000, 0x411]), (0x400, vec![1, 2, 3]), (0x500, vec![4])]
    );
    let data = program.dotdata.unwrap();
    assert_eq!((data.phys, data.virt, data.data), (0x504, 0x2000_0000, vec![5, 6]));
    assert_eq!(program.debug_frame, Some(vec![1, 2, 3]));
    assert_eq!(program.range_names, Some(vec![(0x410..0x420, "main".to_string())]));
    assert_eq!(program.rtt_addr, Some(0x2000_0100));
}

#[test]
fn file_that_is_not_elf_is_an_error() {
    match load(&vec![1, 2, 3]) {
        Some(Err(error)) => {
            assert!(matches!(error, LoadError::NotElf(_)));
            assert_eq!(error.message(), "File is shorter than the first ELF header part");
        }
        _ => panic!("loaded"),
    }
}

#[test]
fn file_with_a_cut_header_cannot_be_used() {
    let file = elf(&[], &[]);
    assert!(load(&file[..40].to_vec()).is_none());
}

#[test]
fn file_with_missing_section_headers_cannot_be_used() {
    let mut file = elf(&[part(".text", 1, 0, words(&[7]))], &[]);
    file[48..50].copy_from_slice(&9u16.to_le_bytes());
    assert!(load(&file).is_none());
}

#[test]
fn bytes_become_little_endian_words() {
    assert_eq!(to_words(&[0x78, 0x56, 0x34, 0x12, 1, 0, 0, 0]), vec![0x1234_5678, 1]);
    assert_eq!(to_words(&[1, 0, 0, 0, 9, 9, 9]), vec![1]);
    assert!(to_words(&[1, 2, 3]).is_empty());
}

#[test]
fn bytes_are_those_of_their_words() {
    let bytes: Vec<u8> = (0..64).map(|i| (i * 37 + 11) as u8).collect();
    let words = to_words(&bytes);
    for i in 0..bytes.len() {
        assert_eq!(bytes[i], words[i / 4].to_le_bytes()[i % 4]);
    }
}

#[test]
fn empty_and_nameless_sections_are_skipped() {
    let mut nameless = section("", 1, vec![1, 2, 3]);
    nameless.name = Name::Missing;
    let program = program_of(&image(
        vec![nameless, vector_table(0), section(".text", 3, vec![])],
        vec![],
    ));
    assert_eq!(program.sections.len(), 1);
    assert!(program.dotdata.is_none());
    assert!(program.debug_frame.is_none());
    assert!(program.range_names.is_none());
    assert!(program.rtt_addr.is_none());
}

#[test]
fn unaligned_sections_are_an_error() {
    let size = image(vec![vector_table(0), section(".rodata", 0x400, vec![1, 2, 3])], vec![]);
    assert_eq!(error_of(&size), "section `.rodata` is not 4-byte aligned");
    let start = image(vec![section(".text", 0x402, words(&[1])), vector_table(0)], vec![]);
    assert_eq!(error_of(&start), "section `.text` is not 4-byte aligned");
}

#[test]
fn addresses_beyond_the_target_are_an_error() {
    let beyond = image(vec![vector_table(0), section(".text", 0x1_0000_0000, words(&[1]))], vec![]);
    assert_eq!(error_of(&beyond), "out of range integral type conversion attempted");
    let load = |virtual_addr, physical_addr| Segment { load: true, virtual_addr, physical_addr };
    for segment in vec![load(0x1_0000_0000, 0), load(0x2000_0000, 0x1_0000_0000)] {
        let data = section(".data", 0x2000_0000, words(&[1]));
        assert_eq!(
            error_of(&image(vec![vector_table(0), data], vec![segment])),
            "out of range integral type conversion attempted"
        );
    }
}

#[test]
fn data_without_a_segment_is_an_error() {
    let segments = vec![
        Segment { load: false, virtual_addr: 0x2000_0000, physical_addr: 1 },
        Segment { load: true, virtual_addr: 0x2000_0004, physical_addr: 2 },
    ];
    let data = section(".data", 0x2000_0000, words(&[1]));
    assert_eq!(
        error_of(&image(vec![vector_table(0), data], segments)),
        "couldn't extract `.data` physical address from the ELF"
    );
}

#[test]
fn first_matching_segment_gives_the_physical_address() {
    let load = |virtual_addr, physical_addr| Segment { load: true, virtual_addr, physical_addr };
    let data = section(".data", 0x2000_0000, words(&[1]));
    let program = program_of(&image(
        vec![vector_table(0), data],
        vec![load(0, 0), load(0x2000_0000, 0x800), load(0x2000_0000, 0x900)],
    ));
    let data = program.dotdata.unwrap();
    assert_eq!((data.phys, data.virt), (0x800, 0x2000_0000));
    assert_eq!(program.sections.len(), 1);
}

#[test]
fn missing_vector_table_is_an_error() {
    let image = image(vec![section(".text", 0, words(&[1]))], vec![]);
    assert_eq!(error_of(&image), "`.vector_table` section is missing");
}

#[test]
fn last_vector_table_counts() {
    let second = section(".vector_table", 0x2000_0000, words(&[1, 2, 3]));
    let program = program_of(&image(vec![vector_table(0), second], vec![]));
    assert_eq!(program.sections.len(), 2);
    assert_eq!(program.registers.sp, 1);
    assert_eq!(program.registers.pc, 2);
    assert_eq!(program.registers.vtor, 0x2000_0000);
}

#[test]
fn unreadable_parts_cannot_be_used() {
    let short = section(".vector_table", 0, words(&[1]));
    assert!(gather(&image(vec![short], vec![]), &candidates()).is_none());

    let mut unnamed = section("", 0, vec![]);
    unnamed.name = Name::Unreadable;
    assert!(gather(&image(vec![unnamed, vector_table(0)], vec![]), &candidates()).is_none());

    let mut frames = section(".debug_frame", 0, vec![]);
    frames.data = None;
    assert!(gather(&image(vec![vector_table(0), frames], vec![]), &candidates()).is_none());

    let mut symtab = section(".symtab", 0, vec![]);
    symtab.symbols = Symbols::Unreadable;
    assert!(gather(&image(vec![vector_table(0), symtab], vec![]), &candidates()).is_none());

    let mut text = section(".text", 0, words(&[1]));
    text.data = None;
    assert!(gather(&image(vec![vector_table(0), text], vec![]), &candidates()).is_none());

    let mut cut = image(vec![vector_table(0), section(".text", 0, words(&[1]))], vec![]);
    cut.complete = false;
    assert!(gather(&cut, &candidates()).is_none());

    let data = section(".data", 0x2000_0000, words(&[1]));
    let mut cut = image(vec![vector_table(0), data], vec![]);
    cut.segments_complete = false;
    assert!(gather(&cut, &candidates()).is_none());
}

#[test]
fn error_comes_before_what_cannot_be_read() {
    let unaligned = section(".text", 2, words(&[1]));
    let mut unnamed = section("", 0, vec![]);
    unnamed.name = Name::Unreadable;
    assert_eq!(
        error_of(&image(vec![unaligned, unnamed], vec![])),
        "section `.text` is not 4-byte aligned"
    );
}

#[test]
fn only_candidates_are_loaded() {
    assert_eq!(candidates(), vec![".vector_table", ".text", ".rodata", ".data"]);
    let sections = vec![
        vector_table(0),
        section(".bss", 0x2000_0000, words(&[1])),
        section(".uninit", 0x2000_0000, words(&[1])),
        section(".init", 0x2000_0001, words(&[1])),
    ];
    assert_eq!(program_of(&image(sections, vec![])).sections.len(), 1);
    let sections = vec![vector_table(0), section(".init", 0x400, words(&[8]))];
    let program =
        gather(&image(sections, vec![]), &vec![".vector_table", ".init"]).unwrap().unwrap();
    assert_eq!(program.sections.len(), 2);
    assert_eq!(program.sections[1].start, 0x400);
    assert_eq!(program.sections[1].data, vec![8]);
}

#[test]
fn symbol_table_of_another_kind_has_no_functions() {
    let program = program_of(&image(vec![vector_table(0), section(".symtab", 0, vec![])], vec![]));
    assert_eq!(program.range_names, Some(vec![]));
    assert_eq!(program.rtt_addr, None);
}

#[test]
fn file_is_opened_before_its_program_is_gathered() {
    let file = elf(&[part(".text", 1, 2, words(&[1]))], &[]);
    let image = open(&file).unwrap().unwrap();
    assert_eq!(image.sections.len(), 3);
    assert_eq!(error_of(&image), "section `.text` is not 4-byte aligned");
    assert_eq!(
        open(&vec![0; 99]).unwrap().unwrap_err().message(),
        "Did not find ELF magic number"
    );
    assert!(open(&file[..51].to_vec()).is_none());
}
