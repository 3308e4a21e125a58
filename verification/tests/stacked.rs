use probe_run::stacked::{Stacked, WORDS_BASIC, WORDS_EXTENDED};

#[test]
fn basic_frame_has_eight_words() {
    assert_eq!(WORDS_BASIC, 8);
    assert_eq!(Stacked::words(false), 8);
    let words: Vec<u32> = (100..108).collect();
    let stacked = Stacked::read(&words, false);
    assert_eq!(stacked.r0, 100);
    assert_eq!(stacked.r1, 101);
    assert_eq!(stacked.r2, 102);
    assert_eq!(stacked.r3, 103);
    assert_eq!(stacked.r12, 104);
    assert_eq!(stacked.lr, 105);
    assert_eq!(stacked.pc, 106);
    assert_eq!(stacked.xpsr, 107);
    assert!(stacked.fpu_regs.is_none());
    assert_eq!(stacked.size(), 32);
}

#[test]
fn extended_frame_has_the_floating_point_registers() {
    assert_eq!(WORDS_EXTENDED, 25);
    assert_eq!(Stacked::words(true), 25);
    let mut words: Vec<u32> = (0..25).collect();
    words[8] = 1.5f32.to_bits();
    words[23] = (-0.25f32).to_bits();
    let stacked = Stacked::read(&words, true);
    let fpu = stacked.fpu_regs.unwrap();
    assert_eq!(f32::from_bits(fpu.s0), 1.5);
    assert_eq!(fpu.s1, 9);
    assert_eq!(fpu.s14, 22);
    assert_eq!(f32::from_bits(fpu.s15), -0.25);
    assert_eq!(fpu.fpscr, 24);
    assert_eq!(stacked.pc, 6);
    assert_eq!(stacked.size(), 100);
}
