use probe_run::elf::{ElfImage, Symbols};
use probe_run::layout::check_header;
use probe_run::symbols::Name;

/// A section of a file with 32-bit fields: name, type, address and bytes.
struct Part {
    name: &'static str,
    kind: u32,
    address: u32,
    bytes: Vec<u8>,
}

fn part(name: &'static str, kind: u32, address: u32, bytes: Vec<u8>) -> Part {
    Part { name, kind, address, bytes }
}

fn words(values: &[u32]) -> Vec<u8> {
    values.iter().flat_map(|value| value.to_le_bytes().to_vec()).collect()
}

/// An ELF file with 32-bit fields: the null section, the parts, and the names of the sections; and a
/// program header (type, virtual and physical address) for each segment.
fn elf(parts: &[Part], segments: &[(u32, u32, u32)]) -> Vec<u8> {
    let mut file = vec![0; 52];
    for (kind, virt, phys) in segments {
        file.extend_from_slice(&words(&[*kind, 0, *virt, *phys, 0, 0, 0, 0]));
    }
    let mut names = vec![0];
    let mut headers = words(&[0; 10]);
    for part in parts {
        while file.len() % 4 != 0 {
            file.push(0);
        }
        let (name, offset, size) = (names.len() as u32, file.len() as u32, part.bytes.len() as u32);
        headers.extend_from_slice(&words(&[
            name, part.kind, 0, part.address, offset, size, 0, 0, 0, 0,
        ]));
        names.extend_from_slice(part.name.as_bytes());
        names.push(0);
        file.extend_from_slice(&part.bytes);
    }
    let name = names.len() as u32;
    names.extend_from_slice(b".shstrtab\0");
    let (offset, size) = (file.len() as u32, names.len() as u32);
    headers.extend_from_slice(&words(&[name, 3, 0, 0, offset, size, 0, 0, 0, 0]));
    file.extend_from_slice(&names);
    while file.len() % 4 != 0 {
        file.push(0);
    }
    let table = file.len() as u32;
    file.extend_from_slice(&headers);
    let count = parts.len() as u16 + 2;
    file[..7].copy_from_slice(&[0x7f, 0x45, 0x4c, 0x46, 1, 1, 1]);
    file[28..32].copy_from_slice(&52u32.to_le_bytes());
    file[32..36].copy_from_slice(&table.to_le_bytes());
    file[42..44].copy_from_slice(&32u16.to_le_bytes());
    file[44..46].copy_from_slice(&(segments.len() as u16).to_le_bytes());
    file[46..48].copy_from_slice(&40u16.to_le_bytes());
    file[48..50].copy_from_slice(&count.to_le_bytes());
    file[50..52].copy_from_slice(&(count - 1).to_le_bytes());
    file
}

/// An entry of a symbol table.
fn entry(name: u32, value: u32, size: u32, shndx: u16) -> Vec<u8> {
    let mut bytes = words(&[name, value, size]);
    bytes.extend_from_slice(&[0, 0]);
    bytes.extend_from_slice(&shndx.to_le_bytes());
    bytes
}

fn text_of(name: &Name) -> Option<&str> {
    match name {
        Name::Text(text) => Some(text),
        _ => None,
    }
}

#[test]
fn files_that_are_not_elf_are_rejected() {
    assert_eq!(
        ElfImage::read(&vec![0x7f; 15]).unwrap_err(),
        "File is shorter than the first ELF header part"
    );
    assert_eq!(ElfImage::read(&vec![0x7f; 80]).unwrap_err(), "Did not find ELF magic number");
    let mut file = elf(&[], &[]);
    for class in vec![0, 3, 255] {
        file[4] = class;
        assert_eq!(ElfImage::read(&file).unwrap_err(), "Invalid ELF class");
    }
}

#[test]
fn headers_have_to_be_complete() {
    let file = elf(&[], &[]);
    assert!(check_header(&file));
    assert!(check_header(&file[..52]));
    assert!(!check_header(&file[..51]));
    assert!(check_header(&file[..15]));
    let mut wide = file.clone();
    wide[4] = 2;
    wide.resize(64, 0);
    assert!(check_header(&wide));
    assert!(!check_header(&wide[..63]));
}

#[test]
fn sections_are_read_with_names_and_bytes() {
    let file = elf(
        &[part(".text", 1, 0x100, words(&[1, 2])), part(".comment", 1, 0, b"hello".to_vec())],
        &[],
    );
    let image = ElfImage::read(&file).unwrap();
    assert!(image.complete);
    assert_eq!(image.sections.len(), 4);
    assert!(matches!(image.sections[0].name, Name::Missing));
    assert_eq!(image.sections[0].data, None);
    assert_eq!(text_of(&image.sections[1].name), Some(".text"));
    assert_eq!(image.sections[1].address, 0x100);
    assert_eq!(image.sections[1].size, 8);
    assert_eq!(image.sections[1].data, Some(vec![1, 0, 0, 0, 2, 0, 0, 0]));
    assert!(matches!(image.sections[1].symbols, Symbols::Other));
    assert_eq!(text_of(&image.sections[2].name), Some(".comment"));
    assert_eq!(image.sections[2].data, Some(b"hello".to_vec()));
    assert_eq!(text_of(&image.sections[3].name), Some(".shstrtab"));
    assert!(image.segments_complete);
    assert!(image.segments.is_empty());
}

#[test]
fn segments_are_read() {
    let file = elf(&[], &[(1, 0x2000_0000, 0x400), (6, 1, 2)]);
    let image = ElfImage::read(&file).unwrap();
    assert!(image.segments_complete);
    assert_eq!(image.segments.len(), 2);
    assert!(image.segments[0].load);
    assert_eq!(image.segments[0].virtual_addr, 0x2000_0000);
    assert_eq!(image.segments[0].physical_addr, 0x400);
    assert!(!image.segments[1].load);
}

#[test]
fn symbols_are_read_with_their_names() {
    let mut symtab = entry(0, 0, 0, 0);
    symtab.extend_from_slice(&entry(1, 0x101, 0x10, 1));
    symtab.extend_from_slice(&entry(99, 0x201, 0x20, 1));
    let file = elf(
        &[
            part(".text", 1, 0x100, words(&[0])),
            part(".symtab", 2, 0, symtab),
            part(".strtab", 3, 0, b"\0main\0".to_vec()),
        ],
        &[],
    );
    let image = ElfImage::read(&file).unwrap();
    match &image.sections[2].symbols {
        Symbols::Table(symbols) => {
            assert_eq!(symbols.len(), 3);
            assert_eq!(text_of(&symbols[0].name), Some(""));
            assert_eq!(text_of(&symbols[1].name), Some("main"));
            assert_eq!(symbols[1].value, 0x101);
            assert_eq!(symbols[1].size, 0x10);
            assert_eq!(symbols[1].shndx, 1);
            assert!(matches!(symbols[2].name, Name::Unreadable));
        }
        _ => panic!("no symbols"),
    }
}

#[test]
fn symbols_have_no_names_without_texts() {
    let without = elf(&[part(".symtab", 2, 0, entry(1, 2, 3, 4))], &[]);
    let other = elf(
        &[part(".symtab", 2, 0, entry(1, 2, 3, 4)), part(".strtab", 1, 0, b"\0main\0".to_vec())],
        &[],
    );
    for file in vec![without, other] {
        let image = ElfImage::read(&file).unwrap();
        match &image.sections[1].symbols {
            Symbols::Table(symbols) => assert!(matches!(symbols[0].name, Name::Missing)),
            _ => panic!("no symbols"),
        }
    }
}

#[test]
fn names_that_are_not_text_are_unreadable() {
    let mut file = elf(&[part(".text", 1, 0, words(&[7]))], &[]);
    let at = file.windows(5).position(|bytes| bytes == b".text").unwrap();
    file[at] = 0xff;
    let image = ElfImage::read(&file).unwrap();
    assert!(matches!(image.sections[1].name, Name::Unreadable));
    assert_eq!(text_of(&image.sections[2].name), Some(".shstrtab"));
}

#[test]
fn sections_beyond_the_end_are_unreadable() {
    let mut file = elf(&[part(".text", 1, 0, words(&[7]))], &[]);
    let header = file.len() - 80;
    // the size of the section
    file[header + 20..header + 24].copy_from_slice(&0x1000u32.to_le_bytes());
    let image = ElfImage::read(&file).unwrap();
    assert_eq!(image.sections[1].size, 0x1000);
    assert_eq!(image.sections[1].data, None);
    assert!(matches!(image.sections[1].symbols, Symbols::Unreadable));
}

#[test]
fn tables_beyond_the_end_are_incomplete() {
    let mut file = elf(&[part(".text", 1, 0, words(&[7]))], &[(1, 2, 3)]);
    file[48..50].copy_from_slice(&9u16.to_le_bytes());
    file[44..46].copy_from_slice(&0xffffu16.to_le_bytes());
    let image = ElfImage::read(&file).unwrap();
    assert!(!image.complete);
    assert_eq!(image.sections.len(), 3);
    assert!(!image.segments_complete);
    assert!(image.segments[0].load);
}

#[test]
fn symbol_tables_have_to_hold_whole_entries() {
    let file = elf(&[part(".symtab", 2, 0, vec![0; 17])], &[]);
    let image = ElfImage::read(&file).unwrap();
    assert!(matches!(image.sections[1].symbols, Symbols::Unreadable));
    let file = elf(&[part(".note", 7, 0, vec![0; 12])], &[]);
    let image = ElfImage::read(&file).unwrap();
    assert!(matches!(image.sections[1].symbols, Symbols::Unreadable));
    let file = elf(&[part(".bss", 8, 0x2000_0000, vec![])], &[]);
    let image = ElfImage::read(&file).unwrap();
    assert!(matches!(image.sections[1].symbols, Symbols::Other));
}

#[test]
fn files_with_wide_fields_are_read() {
    let mut file = vec![0; 64];
    file[..7].copy_from_slice(&[0x7f, 0x45, 0x4c, 0x46, 2, 1, 1]);
    file[40..48].copy_from_slice(&64u64.to_le_bytes());
    file[58..60].copy_from_slice(&64u16.to_le_bytes());
    file[60..62].copy_from_slice(&1u16.to_le_bytes());
    let mut header = vec![0; 64];
    header[0..4].copy_from_slice(&1u32.to_le_bytes());
    header[4..8].copy_from_slice(&3u32.to_le_bytes());
    header[16..24].copy_from_slice(&0x1_0000_0000u64.to_le_bytes());
    header[24..32].copy_from_slice(&128u64.to_le_bytes());
    header[32..40].copy_from_slice(&5u64.to_le_bytes());
    file.extend_from_slice(&header);
    file.extend_from_slice(b"\0abc\0");
    let image = ElfImage::read(&file).unwrap();
    assert!(image.complete);
    assert_eq!(text_of(&image.sections[0].name), Some("abc"));
    assert_eq!(image.sections[0].address, 0x1_0000_0000);
    assert_eq!(image.sections[0].data, Some(b"\0abc\0".to_vec()));
}
