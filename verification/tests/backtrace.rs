use std::collections::BTreeMap;

use probe_run::backtrace::{
    Action, Backtrace, Fault, Reply, TopException, UnwindError,
};
use probe_run::cfi::{Cfa, Lookup, Rule, UnwindRow};
use probe_run::symbols::RangeNames;

/// A target that holds fixed values.
struct Target {
    registers: BTreeMap<u16, u32>,
    words: BTreeMap<u32, u32>,
}

fn target(registers: Vec<(u16, u32)>, words: Vec<(u32, u32)>) -> Target {
    Target { registers: registers.into_iter().collect(), words: words.into_iter().collect() }
}

impl Target {
    fn answer(&self, action: &Action) -> Reply {
        match action {
            Action::ReadRegister(register) => Reply::Value(self.registers[register]),
            Action::ReadWord(address) => Reply::Value(self.words[address]),
            Action::ReadWords { address, count } => Reply::Words(
                (0..*count as u32).map(|i| *self.words.get(&(address + 4 * i)).unwrap_or(&0)).collect(),
            ),
            _ => Reply::Nothing,
        }
    }
}

/// The lines of the walk, and how it ends.
fn run(target: &Target, pc: u32, debug_frame: &[u8], names: &RangeNames) -> (Vec<String>, Action) {
    let mut walk = Backtrace::new(pc, debug_frame, names);
    let mut lines = vec![];
    let mut action = Action::Continue;
    loop {
        let step = walk.step(target.answer(&action));
        lines.extend(step.lines);
        action = step.action;
        if matches!(action, Action::Finish(_) | Action::Fail(_)) {
            return (lines, action);
        }
    }
}

fn names() -> RangeNames {
    vec![
        (0x100..0x140, "foo".to_string()),
        (0x200..0x240, "main".to_string()),
        (0x300..0x310, "HardFault".to_string()),
        (0x310..0x320, "SysTick".to_string()),
    ]
}

/// The frame of a function at 0x100 that pushes r7 and lr.
fn debug_frame() -> Vec<u8> {
    let mut section = vec![];
    section.extend_from_slice(&12u32.to_le_bytes());
    section.extend_from_slice(&0xffff_ffffu32.to_le_bytes());
    section.extend_from_slice(&[1, 0, 1, 0x7c, 14, 0x0c, 13, 0]);
    section.extend_from_slice(&20u32.to_le_bytes());
    section.extend_from_slice(&0u32.to_le_bytes());
    section.extend_from_slice(&0x100u32.to_le_bytes());
    section.extend_from_slice(&0x40u32.to_le_bytes());
    section.extend_from_slice(&[0x42, 0x0e, 8, 0x8e, 1, 0x87, 2, 0]);
    section
}

#[test]
fn caller_is_recovered_by_the_rules() {
    let target = target(
        vec![(13, 0x2000_0000), (14, 0x999)],
        vec![(0x2000_0000, 0x77), (0x2000_0004, 0x203)],
    );
    let (lines, action) = run(&target, 0x104, &debug_frame(), &names());
    assert_eq!(
        lines,
        vec![
            "stack backtrace:",
            "   0: 0x00000104 - foo",
            "   1: 0x00000203 - main",
        ]
    );
    // there are no rules for main, so that its link register is the one that led to it
    assert!(matches!(action, Action::Finish(Ok(None))));
}

#[test]
fn walk_ends_at_the_reset_value() {
    let target = target(vec![(13, 0x2000_0000), (14, 0xffff_ffff)], vec![]);
    let (lines, action) = run(&target, 0x200, &[], &names());
    assert_eq!(lines, vec!["stack backtrace:", "   0: 0x00000200 - main"]);
    assert!(matches!(action, Action::Finish(Ok(None))));
}

#[test]
fn link_register_is_followed_without_rules() {
    let target = target(vec![(13, 0x2000_0000), (14, 0x401)], vec![]);
    let (lines, action) = run(&target, 0x100, &[], &names());
    assert_eq!(
        lines,
        vec!["stack backtrace:", "   0: 0x00000100 - foo", "   1: 0x00000401 - <unknown>"]
    );
    assert!(matches!(action, Action::Finish(Ok(None))));
}

#[test]
fn hard_fault_is_the_top_exception() {
    // r0, r1, r2, r3, r12, lr, pc, xpsr
    let stacked: Vec<(u32, u32)> = vec![0, 1, 2, 3, 12, 0xffff_ffff, 0x208, 0]
        .into_iter()
        .enumerate()
        .map(|(i, word)| (0x2000_0000 + 4 * i as u32, word))
        .collect();
    let target = target(vec![(13, 0x2000_0000), (14, 0xffff_fff9)], stacked);
    let (lines, action) = run(&target, 0x300, &[], &names());
    assert_eq!(
        lines,
        vec![
            "stack backtrace:",
            "   0: 0x00000300 - HardFault",
            "      <exception entry>",
            "   1: 0x00000208 - main",
        ]
    );
    assert!(matches!(action, Action::Finish(Ok(Some(TopException::HardFault)))));
}

#[test]
fn first_exception_is_the_top_one() {
    // SysTick (with the floating point registers stacked) interrupted HardFault
    let mut stacked = vec![(0x2000_0014, 0xffff_fff1), (0x2000_0018, 0x302)];
    let above = 0x2000_0000 + 100;
    stacked.push((above + 20, 0xffff_ffff));
    stacked.push((above + 24, 0x206));
    let target = target(vec![(13, 0x2000_0000), (14, 0xffff_ffe9)], stacked);
    let (lines, action) = run(&target, 0x312, &[], &names());
    assert_eq!(
        lines,
        vec![
            "stack backtrace:",
            "   0: 0x00000312 - SysTick",
            "      <exception entry>",
            "   1: 0x00000302 - HardFault",
            "      <exception entry>",
            "   2: 0x00000206 - main",
        ]
    );
    assert!(matches!(action, Action::Finish(Ok(Some(TopException::Other)))));
}

#[test]
fn exception_returns_that_do_not_exist_are_an_error() {
    let target = target(vec![(13, 0x2000_0000), (14, 0xffff_fff3)], vec![]);
    let (_, action) = run(&target, 0x300, &[], &names());
    match action {
        Action::Finish(Err(error)) => {
            assert_eq!(error, UnwindError::InvalidExcReturn(0xffff_fff3));
            assert_eq!(error.message(), "LR contains invalid EXC_RETURN value 0xFFFFFFF3");
        }
        _ => panic!("no error"),
    }
}

#[test]
fn even_link_register_is_an_error() {
    let target = target(vec![(13, 0x2000_0000), (14, 0x0000_0abc)], vec![]);
    let (lines, action) = run(&target, 0x300, &[], &names());
    assert_eq!(lines.len(), 2);
    match action {
        Action::Finish(Err(error)) => {
            assert_eq!(error, UnwindError::NoThumbBit(0xabc));
            assert_eq!(error.message(), "bug? LR (0x00000abc) didn't have the Thumb bit set");
        }
        _ => panic!("no error"),
    }
}

#[test]
fn boundary_of_exception_returns_is_a_plain_address() {
    let target = target(vec![(13, 0x2000_0000), (14, 0xffff_ffe0)], vec![]);
    let (_, action) = run(&target, 0x300, &[], &names());
    assert!(matches!(action, Action::Finish(Err(UnwindError::NoThumbBit(0xffff_ffe0)))));
}

#[test]
fn frame_beyond_the_last_address_is_a_fault() {
    let names = names();
    let mut walk = Backtrace::new(0x300, &[], &names);
    walk.step(Reply::Nothing);
    walk.step(Reply::Value(0xffff_fff0));
    walk.step(Reply::Value(0xffff_fff9));
    let step = walk.step(Reply::Nothing);
    assert!(matches!(step.action, Action::ReadWords { address: 0xffff_fff0, count: 8 }));
    let step = walk.step(Reply::Words(vec![0; 8]));
    assert!(matches!(step.action, Action::Fail(Fault::StackPointerOverflow)));
    assert_eq!(walk.top_exception(), Some(TopException::HardFault));
}

/// A walk that is about to look at its first frame.
fn at_first_frame(names: &RangeNames) -> Backtrace<'_> {
    let mut walk = Backtrace::new(0x100, &[], names);
    walk.step(Reply::Nothing);
    walk.step(Reply::Value(0x2000_0000));
    let step = walk.step(Reply::Value(0x203));
    assert_eq!(step.lines, vec!["stack backtrace:"]);
    walk
}

#[test]
fn other_rules_are_faults() {
    let names = names();
    let row = |cfa, registers| Lookup::Found(UnwindRow { cfa, registers });
    let at_sp = Cfa::RegisterAndOffset { register: 13, offset: 8 };
    let far = Cfa::RegisterAndOffset { register: 13, offset: i64::MAX };
    let cases = vec![
        (row(Cfa::Expression, vec![]), Fault::CfaExpression),
        (row(at_sp, vec![(14, Rule::Undefined)]), Fault::UndefinedRule),
        (row(at_sp, vec![(14, Rule::Other)]), Fault::UnimplementedRule),
        (row(far, vec![]), Fault::OffsetOverflow),
        (row(at_sp, vec![(14, Rule::Offset(i64::MAX))]), Fault::OffsetOverflow),
        (Lookup::Unsearchable, Fault::UnsearchableFrames),
    ];
    for (found, expected) in cases {
        let step = at_first_frame(&names).look(found);
        assert_eq!(step.lines, vec!["   0: 0x00000100 - foo"]);
        match step.action {
            Action::Fail(fault) => assert_eq!(fault, expected),
            _ => panic!("no fault"),
        }
    }
}

#[test]
fn unknown_base_register_is_read_from_the_core() {
    let names = names();
    let mut walk = at_first_frame(&names);
    let step = walk.look(Lookup::Found(UnwindRow {
        cfa: Cfa::RegisterAndOffset { register: 7, offset: 16 },
        registers: vec![(14, Rule::Offset(-4)), (7, Rule::Offset(-8))],
    }));
    assert!(matches!(step.action, Action::ReadRegister(7)));
    let step = walk.step(Reply::Value(0x2000_0100));
    assert!(matches!(step.action, Action::ReadWord(0x2000_010c)));
    let step = walk.step(Reply::Value(0x205));
    assert!(matches!(step.action, Action::ReadWord(0x2000_0108)));
    let step = walk.step(Reply::Value(0x2000_0200));
    assert!(matches!(step.action, Action::Continue));
    assert!(step.lines.is_empty());
    let step = walk.look(Lookup::Missing);
    assert_eq!(step.lines, vec!["   1: 0x00000205 - main"]);
}

#[test]
fn endless_walk_is_cut_where_nothing_changes() {
    let names = names();
    let mut walk = at_first_frame(&names);
    let step = walk.look(Lookup::Missing);
    assert!(matches!(step.action, Action::Continue));
    let step = walk.look(Lookup::Missing);
    assert!(matches!(step.action, Action::Finish(Ok(None))));
}

#[test]
fn walk_goes_on_where_the_frame_address_changes() {
    let names = names();
    let mut walk = at_first_frame(&names);
    walk.look(Lookup::Missing);
    let row = UnwindRow {
        cfa: Cfa::RegisterAndOffset { register: 13, offset: 8 },
        registers: vec![],
    };
    let step = walk.look(Lookup::Found(row));
    assert!(matches!(step.action, Action::Continue));
    assert_eq!(step.lines, vec!["   1: 0x00000203 - main"]);
}

/// Frames at 0x100, whose common part breaks off after a rule for lr, and at 0x200, whose common part
/// is fine and has no such rule.
fn broken_section() -> Vec<u8> {
    let mut section = vec![];
    section.extend_from_slice(&16u32.to_le_bytes());
    section.extend_from_slice(&0xffff_ffffu32.to_le_bytes());
    // def_cfa sp, 0; offset lr -4; an instruction that does not exist
    section.extend_from_slice(&[1, 0, 1, 0x7c, 14, 0x0c, 13, 0, 0x8e, 1, 0x3b, 0]);
    let fine = section.len() as u32;
    section.extend_from_slice(&12u32.to_le_bytes());
    section.extend_from_slice(&0xffff_ffffu32.to_le_bytes());
    section.extend_from_slice(&[1, 0, 1, 0x7c, 14, 0x0c, 13, 8]);
    for (common, start) in vec![(0, 0x100u32), (fine, 0x200)] {
        section.extend_from_slice(&12u32.to_le_bytes());
        section.extend_from_slice(&common.to_le_bytes());
        section.extend_from_slice(&start.to_le_bytes());
        section.extend_from_slice(&0x40u32.to_le_bytes());
    }
    section
}

#[test]
fn frames_share_one_context() {
    let words = vec![(0x2000_0004, 0xffff_ffff)];
    let target = target(vec![(13, 0x2000_0000), (14, 0x203)], words);
    // after the failed lookup of foo, main has the rule for lr that was left behind
    let (lines, action) = run(&target, 0x104, &broken_section(), &names());
    assert_eq!(
        lines,
        vec!["stack backtrace:", "   0: 0x00000104 - foo", "   1: 0x00000203 - main"]
    );
    assert!(matches!(action, Action::Finish(Ok(None))));
    // without it, lr is not read from the stack
    let (section, names) = (broken_section(), names());
    let mut walk = Backtrace::new(0x203, &section, &names);
    walk.step(Reply::Nothing);
    walk.step(Reply::Value(0x2000_0000));
    walk.step(Reply::Value(0x203));
    let step = walk.step(Reply::Nothing);
    assert_eq!(step.lines, vec!["   0: 0x00000203 - main"]);
    assert!(matches!(step.action, Action::Continue));
}
