use gimli::{BaseAddresses, DebugFrame, LittleEndian, UninitializedUnwindContext, UnwindSection};
use probe_run::cfi::{is_searchable, Cfa, FrameEntry, FrameTable, Lookup, Rule, UnwindRow};

/// What a section says of an address, before any other lookup.
fn find_row(section: &[u8], address: u32) -> Lookup {
    FrameTable::new(section).find_row(address)
}

/// One common information entry, and one frame description for the addresses 0x100 to 0x140 of a
/// function that pushes r7 and lr.
fn debug_frame() -> Vec<u8> {
    let mut section = vec![];
    section.extend_from_slice(&12u32.to_le_bytes());
    section.extend_from_slice(&0xffff_ffffu32.to_le_bytes());
    // version, augmentation, alignment factors, return address register, def_cfa sp, 0
    section.extend_from_slice(&[1, 0, 1, 0x7c, 14, 0x0c, 13, 0]);
    section.extend_from_slice(&20u32.to_le_bytes());
    section.extend_from_slice(&0u32.to_le_bytes());
    section.extend_from_slice(&0x100u32.to_le_bytes());
    section.extend_from_slice(&0x40u32.to_le_bytes());
    // advance_loc 2, def_cfa_offset 8, offset lr -4, offset r7 -8
    section.extend_from_slice(&[0x42, 0x0e, 8, 0x8e, 1, 0x87, 2, 0]);
    section
}

#[test]
fn first_instruction_has_nothing_saved() {
    match find_row(&debug_frame(), 0x100) {
        Lookup::Found(row) => {
            assert_eq!(row.cfa, Cfa::RegisterAndOffset { register: 13, offset: 0 });
            assert!(row.registers.is_empty());
        }
        _ => panic!("no rules"),
    }
}

#[test]
fn pushed_registers_are_saved_below_the_frame_address() {
    match find_row(&debug_frame(), 0x102) {
        Lookup::Found(row) => {
            assert_eq!(row.cfa, Cfa::RegisterAndOffset { register: 13, offset: 8 });
            assert_eq!(row.registers.len(), 2);
            assert!(row.registers.contains(&(14, Rule::Offset(-4))));
            assert!(row.registers.contains(&(7, Rule::Offset(-8))));
        }
        _ => panic!("no rules"),
    }
}

#[test]
fn addresses_outside_have_no_rules() {
    assert!(matches!(find_row(&debug_frame(), 0xff), Lookup::Missing));
    assert!(matches!(find_row(&debug_frame(), 0x140), Lookup::Missing));
    assert!(matches!(find_row(&[], 0x100), Lookup::Missing));
    assert!(matches!(find_row(&[1, 2, 3], 0x100), Lookup::Missing));
}

#[test]
fn rules_and_frame_addresses_of_other_kinds_are_told_apart() {
    let mut section = debug_frame();
    let code = section.len() - 8;
    // def_cfa_expression of one byte, then undefined lr
    section[code..].copy_from_slice(&[0x0f, 1, 0x30, 0x07, 14, 0, 0, 0]);
    match find_row(&section, 0x100) {
        Lookup::Found(row) => assert_eq!(row.cfa, Cfa::Expression),
        _ => panic!("no rules"),
    }
    // same_value lr
    section[code..].copy_from_slice(&[0x08, 14, 0, 0, 0, 0, 0, 0]);
    match find_row(&section, 0x100) {
        Lookup::Found(row) => assert_eq!(row.registers, vec![(14, Rule::Other)]),
        _ => panic!("no rules"),
    }
}

#[test]
fn ranges_without_an_end_cannot_be_searched() {
    let near = FrameEntry::Frame { start: 0x100, len: 0x10 };
    let endless = FrameEntry::Frame { start: u64::MAX, len: 1 };
    assert!(is_searchable(&vec![], 0x100));
    assert!(is_searchable(&vec![FrameEntry::Common, near, endless], 0x100));
    assert!(!is_searchable(&vec![FrameEntry::Common, near, endless], 0x200));
    assert!(!is_searchable(&vec![endless, near], 0x100));
    // a search does not get beyond what cannot be read
    assert!(is_searchable(&vec![FrameEntry::Unreadable, endless], 0x200));
    assert!(!is_searchable(&vec![endless, FrameEntry::Unreadable], 0x200));
}

#[test]
fn frames_with_unreadable_common_parts_end_the_search() {
    let mut section = debug_frame();
    // the frame description points into the middle of its common part
    section[20..24].copy_from_slice(&3u32.to_le_bytes());
    section.extend_from_slice(&frame(0, 0x200));
    assert!(matches!(find_row(&section, 0x100), Lookup::Missing));
    assert!(matches!(find_row(&section, 0x200), Lookup::Missing));
}

/// A frame description without instructions, for 0x40 addresses, with its common part at an offset.
fn frame(common: u32, start: u32) -> Vec<u8> {
    let mut entry = vec![];
    entry.extend_from_slice(&12u32.to_le_bytes());
    entry.extend_from_slice(&common.to_le_bytes());
    entry.extend_from_slice(&start.to_le_bytes());
    entry.extend_from_slice(&0x40u32.to_le_bytes());
    entry
}

/// Frames at 0x100, whose common part breaks off after a rule for r4, and at 0x200 and 0x300, whose
/// common part is fine.
fn broken_section() -> Vec<u8> {
    let mut section = vec![];
    section.extend_from_slice(&16u32.to_le_bytes());
    section.extend_from_slice(&0xffff_ffffu32.to_le_bytes());
    // def_cfa sp, 0; offset r4 -4; an instruction that does not exist
    section.extend_from_slice(&[1, 0, 1, 0x7c, 14, 0x0c, 13, 0, 0x84, 1, 0x3b, 0]);
    let fine = section.len() as u32;
    section.extend_from_slice(&12u32.to_le_bytes());
    section.extend_from_slice(&0xffff_ffffu32.to_le_bytes());
    section.extend_from_slice(&[1, 0, 1, 0x7c, 14, 0x0c, 13, 0]);
    section.extend_from_slice(&frame(0, 0x100));
    section.extend_from_slice(&frame(fine, 0x200));
    section.extend_from_slice(&frame(fine, 0x300));
    section
}

fn rules(found: Lookup) -> Vec<(u16, Rule)> {
    match found {
        Lookup::Found(UnwindRow { registers, .. }) => registers,
        _ => panic!("no rules"),
    }
}

#[test]
fn failed_lookup_bears_on_the_next_one() {
    let section = broken_section();
    let mut table = FrameTable::new(&section);
    assert!(rules(table.find_row(0x200)).is_empty());
    assert!(matches!(table.find_row(0x100), Lookup::Missing));
    assert_eq!(rules(table.find_row(0x200)), vec![(4, Rule::Offset(-4))]);
    // which clears the context again
    assert!(rules(table.find_row(0x300)).is_empty());
}

#[test]
fn lookups_without_a_frame_bear_on_nothing() {
    let section = broken_section();
    let mut table = FrameTable::new(&section);
    assert!(matches!(table.find_row(0x900), Lookup::Missing));
    assert!(rules(table.find_row(0x200)).is_empty());
    assert!(matches!(table.find_row(0x100), Lookup::Missing));
    assert!(matches!(table.find_row(0x900), Lookup::Missing));
    assert_eq!(rules(table.find_row(0x300)), vec![(4, Rule::Offset(-4))]);
}

#[test]
fn lookups_agree_with_one_context_for_all() {
    let section = broken_section();
    let mut frames = DebugFrame::new(&section, LittleEndian);
    frames.set_address_size(4);
    let bases = BaseAddresses::default();
    let mut ctx = UninitializedUnwindContext::new();
    let mut table = FrameTable::new(&section);
    for i in 0..200u32 {
        let address = vec![0x100, 0x200, 0x300, 0x900][(i * i * 7 + i / 3) as usize % 4];
        let expected = frames.unwind_info_for_address(
            &bases,
            &mut ctx,
            address.into(),
            DebugFrame::cie_from_offset,
        );
        match (table.find_row(address), expected) {
            (Lookup::Found(row), Ok(expected)) => {
                assert_eq!(row.registers.len(), expected.registers().count());
            }
            (Lookup::Missing, Err(_)) => {}
            _ => panic!("the lookups of {:x} differ", address),
        }
    }
}

#[test]
fn section_with_an_endless_range_is_unsearchable() {
    let mut section = vec![];
    section.extend_from_slice(&16u32.to_le_bytes());
    section.extend_from_slice(&0xffff_ffffu32.to_le_bytes());
    // version, augmentation, address and segment size, alignment factors, return address register
    section.extend_from_slice(&[4, 0, 8, 0, 1, 0x7c, 14, 0x0c, 13, 0, 0, 0]);
    section.extend_from_slice(&20u32.to_le_bytes());
    section.extend_from_slice(&0u32.to_le_bytes());
    section.extend_from_slice(&u64::MAX.to_le_bytes());
    section.extend_from_slice(&2u64.to_le_bytes());
    assert!(matches!(find_row(&section, 0x100), Lookup::Unsearchable));
}
