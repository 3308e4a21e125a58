use probe_run::cfi::Rule;
use probe_run::registers::{
    check_offset, gimli2probe, offset_address, Registers, Update, LR, PC, SP,
};

#[test]
fn register_numbers_are_the_same() {
    assert_eq!(gimli2probe(13), SP);
    assert_eq!(gimli2probe(14), LR);
    assert_eq!(gimli2probe(15), PC);
}

#[test]
fn only_lr_and_sp_are_known_at_first() {
    let registers = Registers::new(0x101, 0x2000_0000);
    assert_eq!(registers.get(LR), Some(0x101));
    assert_eq!(registers.get(SP), Some(0x2000_0000));
    assert_eq!(registers.get(7), None);
}

#[test]
fn inserted_registers_are_known() {
    let mut registers = Registers::new(0, 0);
    registers.insert(7, 0x77);
    registers.insert(LR, 0x203);
    assert_eq!(registers.get(7), Some(0x77));
    assert_eq!(registers.get(LR), Some(0x203));
    assert_eq!(registers.get(SP), Some(0));
}

#[test]
fn canonical_frame_address_becomes_the_stack_pointer() {
    let mut registers = Registers::new(0, 0x2000_0000);
    assert!(registers.update_cfa(0x2000_0000, 8));
    assert_eq!(registers.get(SP), Some(0x2000_0008));
    assert!(!registers.update_cfa(0x2000_0008, 0));
    assert_eq!(registers.update(Rule::Offset(-4)), 0x2000_0004);
}

#[test]
fn offsets_wrap_around() {
    assert_eq!(offset_address(4, -8), 0xffff_fffc);
    assert_eq!(offset_address(0xffff_fffc, 8), 4);
    assert_eq!(offset_address(0, 0x1_0000_0002), 2);
    assert_eq!(offset_address(0, i64::MIN), 0);
}

#[test]
fn offsets_that_overflow_are_refused() {
    assert!(check_offset(0, i64::MAX));
    assert!(!check_offset(1, i64::MAX));
    assert!(check_offset(u32::MAX, i64::MIN));
}

#[test]
fn only_saved_registers_are_read() {
    let registers = Registers::new(0, 0x2000_0000);
    assert_eq!(registers.try_update(Rule::Offset(8)), Update::Read(0x2000_0008));
    assert_eq!(registers.try_update(Rule::Offset(-0x2000_0004)), Update::Read(0xffff_fffc));
    assert_eq!(registers.try_update(Rule::Offset(i64::MAX)), Update::Overflow);
    assert_eq!(registers.try_update(Rule::Undefined), Update::Undefined);
    assert_eq!(registers.try_update(Rule::Other), Update::Unimplemented);
}
