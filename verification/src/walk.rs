//! What the backtrace recovers, told of a target that does not change while it is read.
use vstd::prelude::*;

use crate::backtrace::{
    exception_of, frame_line, Action, BacktraceView, Fault, PhaseView, ReplyView, StepView,
    TopException, UnwindError, LAST_FRAME,
};
use crate::cfi::{lookup, Cfa, LookupView, Rule, UnwindRowView};
use crate::registers::{can_offset, wrap32, LR, SP};
use crate::stacked::frame_words;
use crate::symbols::{law_last_range_below_is_found, name_at};
use crate::text::{
    decimal, hex, hex_bound, law_hex_stands_for_the_number, law_hex_uses_the_letters, number,
    right_aligned, Letters,
};

verus! {

/// What a halted target holds.
pub struct Target {
    /// The values of the core registers.
    pub register: spec_fn(u16) -> u32,
    /// The words of the memory, by their addresses.
    pub word: spec_fn(int) -> u32,
}

impl Target {
    /// What the action reads.
    pub open spec fn answer(self, action: Action) -> ReplyView {
        match action {
            Action::ReadRegister(register) => ReplyView::Value((self.register)(register)),
            Action::ReadWord(address) => ReplyView::Value((self.word)(address as int)),
            Action::ReadWords { address, count } => ReplyView::Words(
                Seq::new(count as nat, |i: int| (self.word)(address + 4 * i)),
            ),
            _ => ReplyView::Nothing,
        }
    }
}

/// A walk, the lines that it has printed, and what it is about to do.
pub struct Progress {
    pub walk: BacktraceView,
    pub lines: Seq<Seq<char>>,
    pub action: Action,
}

impl Progress {
    /// The walk after one step more.
    pub open spec fn after(self, step: (BacktraceView, StepView)) -> Progress {
        Progress { walk: step.0, lines: self.lines + step.1.lines, action: step.1.action }
    }

    /// The walk after `steps` steps more.
    pub open spec fn run(self, target: Target, steps: nat) -> Progress
        decreases steps,
    {
        if steps == 0 {
            self
        } else {
            self.after(self.walk.step(target.answer(self.action))).run(target, (steps - 1) as nat)
        }
    }
}

/// The offset of a rule by which a register is saved.
pub open spec fn rule_offset(rule: Rule) -> i64 {
    rule->Offset_0
}

/// The registers after the first `count` rules: each register that has one is what is saved at its
/// offset from the canonical frame address.
pub open spec fn restored(
    registers: Map<u16, u32>,
    rules: Seq<(u16, Rule)>,
    target: Target,
    count: nat,
) -> Map<u16, u32>
    decreases count,
{
    if count == 0 {
        registers
    } else {
        let before = restored(registers, rules, target, (count - 1) as nat);
        let (register, rule) = rules[count - 1];
        before.insert(
            register,
            (target.word)(wrap32(before[SP] + rule_offset(rule)) as int),
        )
    }
}

/// The value of a register: the known one, or else what the core holds.
pub open spec fn value_of(registers: Map<u16, u32>, target: Target, register: u16) -> u32 {
    if registers.contains_key(register) {
        registers[register]
    } else {
        (target.register)(register)
    }
}

/// The canonical frame address by the row.
pub open spec fn cfa_of(registers: Map<u16, u32>, row: UnwindRowView, target: Target) -> u32 {
    wrap32(
        value_of(registers, target, row.cfa->RegisterAndOffset_register)
            + row.cfa->RegisterAndOffset_offset,
    )
}

/// The registers with the canonical frame address as the stack pointer.
pub open spec fn at_cfa(registers: Map<u16, u32>, row: UnwindRowView, target: Target) -> Map<
    u16,
    u32,
> {
    let register = row.cfa->RegisterAndOffset_register;
    registers.insert(register, value_of(registers, target, register)).insert(
        SP,
        cfa_of(registers, row, target),
    )
}

/// The registers of the caller by the row.
pub open spec fn callers_registers(
    registers: Map<u16, u32>,
    row: UnwindRowView,
    target: Target,
) -> Map<u16, u32> {
    restored(at_cfa(registers, row, target), row.registers, target, row.registers.len())
}

/// Whether the row says of every register that it is saved at an offset that can be computed.
pub open spec fn plain_row(registers: Map<u16, u32>, row: UnwindRowView, target: Target) -> bool {
    &&& row.cfa is RegisterAndOffset
    &&& can_offset(
        value_of(registers, target, row.cfa->RegisterAndOffset_register),
        row.cfa->RegisterAndOffset_offset,
    )
    &&& forall|i: int|
        0 <= i < row.registers.len() ==> (#[trigger] row.registers[i]).1 is Offset && can_offset(
            restored(at_cfa(registers, row, target), row.registers, target, i as nat)[SP],
            rule_offset(row.registers[i].1),
        )
}

/// The number of steps in which a frame with the row is left.
pub open spec fn steps_of(registers: Map<u16, u32>, row: UnwindRowView) -> nat {
    let reads_base: nat = if registers.contains_key(row.cfa->RegisterAndOffset_register) {
        0
    } else {
        1
    };
    1 + reads_base + row.registers.len()
}

/// The lines of a step do not bear on what it does.
proof fn lemma_leave_lines(walk: BacktraceView, lines: Seq<Seq<char>>, cfa_changed: bool)
    ensures
        walk.leave(lines, cfa_changed).0 == walk.leave(seq![], cfa_changed).0,
        walk.leave(lines, cfa_changed).1.action == walk.leave(seq![], cfa_changed).1.action,
        walk.leave(lines, cfa_changed).1.lines == lines + walk.leave(
            seq![],
            cfa_changed,
        ).1.lines,
{
    assert(walk.leave(lines, cfa_changed).1.lines =~= lines + walk.leave(
        seq![],
        cfa_changed,
    ).1.lines);
}

/// From the rule `index` on, the rules are applied one in a step.
proof fn lemma_rules(
    walk: BacktraceView,
    printed: Seq<Seq<char>>,
    lines: Seq<Seq<char>>,
    start: Map<u16, u32>,
    row: UnwindRowView,
    index: nat,
    cfa_changed: bool,
    target: Target,
)
    requires
        index <= row.registers.len(),
        walk.registers == restored(start, row.registers, target, index),
        forall|i: int|
            0 <= i < row.registers.len() ==> (#[trigger] row.registers[i]).1 is Offset
                && can_offset(
                restored(start, row.registers, target, i as nat)[SP],
                rule_offset(row.registers[i].1),
            ),
    ensures
        ({
            let (next, step) = walk.apply_rules(lines, row, index as int, cfa_changed);
            let progress = Progress { walk: next, lines: printed + step.lines, action: step.action };
            let (last, leave) = BacktraceView {
                registers: restored(start, row.registers, target, row.registers.len()),
                ..walk
            }.leave(seq![], cfa_changed);
            progress.run(target, (row.registers.len() - index) as nat) == (Progress {
                walk: last,
                lines: printed + lines + leave.lines,
                action: leave.action,
            })
        }),
    decreases row.registers.len() - index,
{
    let (next, step) = walk.apply_rules(lines, row, index as int, cfa_changed);
    let progress = Progress { walk: next, lines: printed + step.lines, action: step.action };
    if index == row.registers.len() {
        lemma_leave_lines(walk, lines, cfa_changed);
        assert(printed + step.lines =~= printed + lines + walk.leave(seq![], cfa_changed).1.lines);
    } else {
        let (register, rule) = row.registers[index as int];
        assert(rule is Offset);
        let value = (target.word)(wrap32(walk.registers[SP] + rule_offset(rule)) as int);
        assert(target.answer(progress.action) == ReplyView::Value(value));
        let restored_walk = BacktraceView {
            registers: walk.registers.insert(register, value),
            ..next
        };
        assert(restored_walk.registers == restored(
            start,
            row.registers,
            target,
            (index + 1) as nat,
        ));
        lemma_rules(
            restored_walk,
            printed + lines,
            seq![],
            start,
            row,
            index + 1,
            cfa_changed,
            target,
        );
        let empty: Seq<Seq<char>> = seq![];
        assert(printed + lines + empty =~= printed + lines);
        let final_registers = restored(start, row.registers, target, row.registers.len());
        assert(BacktraceView { registers: final_registers, ..restored_walk }.leave(
            seq![],
            cfa_changed,
        ) == BacktraceView { registers: final_registers, ..walk }.leave(seq![], cfa_changed));
        reveal_with_fuel(Progress::run, 2);
    }
}

/// A frame that call frame information describes is left with the registers of its caller: the
/// canonical frame address is the stack pointer, and every register that has a rule is what is saved
/// at the rule's offset from it. Before that, the line of the frame is printed.
pub proof fn law_frame_recovers_the_caller(
    walk: BacktraceView,
    printed: Seq<Seq<char>>,
    row: UnwindRowView,
    target: Target,
)
    requires
        walk.valid(),
        walk.phase is Frame,
        walk.found() == LookupView::Found(row),
        plain_row(walk.registers, row, target),
    ensures
        ({
            let (last, leave) = BacktraceView {
                registers: callers_registers(walk.registers, row, target),
                ..walk.looked_up()
            }.leave(seq![], walk.registers[SP] != cfa_of(walk.registers, row, target));
            Progress { walk, lines: printed, action: Action::Continue }.run(
                target,
                steps_of(walk.registers, row),
            ) == (Progress {
                walk: last,
                lines: printed + seq![frame_line(walk.frame, walk.pc, walk.name())] + leave.lines,
                action: leave.action,
            })
        }),
{
    let register = row.cfa->RegisterAndOffset_register;
    let offset = row.cfa->RegisterAndOffset_offset;
    let line = seq![frame_line(walk.frame, walk.pc, walk.name())];
    let base = value_of(walk.registers, target, register);
    let cfa = cfa_of(walk.registers, row, target);
    let start = at_cfa(walk.registers, row, target);
    let changed = walk.registers[SP] != cfa;
    let begin = Progress { walk, lines: printed, action: Action::Continue };
    let walk = walk.looked_up();
    let empty: Seq<Seq<char>> = seq![];
    let rules = row.registers.len();
    if walk.registers.contains_key(register) {
        assert(walk.registers.insert(register, base) =~= walk.registers);
        let at = BacktraceView { registers: start, ..walk };
        lemma_rules(at, printed, line, start, row, 0, changed, target);
        assert(begin.run(target, 1 + rules) == begin.after(walk.look(LookupView::Found(row))).run(
            target,
            rules,
        ));
    } else {
        let asked = begin.after(walk.look(LookupView::Found(row)));
        assert(asked.action == Action::ReadRegister(register));
        assert(asked.walk.registers.insert(register, base)[SP] == walk.registers[SP]);
        let at = BacktraceView { registers: start, ..asked.walk };
        lemma_rules(at, printed + line, empty, start, row, 0, changed, target);
        assert(begin.run(target, 2 + rules) == asked.run(target, 1 + rules));
        assert(asked.run(target, 1 + rules) == asked.after(
            asked.walk.step(ReplyView::Value(base)),
        ).run(target, rules));
        assert(printed + line + empty =~= printed + line);
        let registers = callers_registers(walk.registers, row, target);
        assert(BacktraceView { registers, ..at }.leave(empty, changed) == BacktraceView {
            registers,
            ..walk
        }.leave(empty, changed));
    }
}

/// Where there is no call frame information for a frame, the registers stay as they are and the
/// link register is followed.
pub proof fn law_frame_without_rules_follows_lr(
    walk: BacktraceView,
    printed: Seq<Seq<char>>,
    target: Target,
)
    requires
        walk.valid(),
        walk.phase is Frame,
        walk.found() is Missing,
    ensures
        ({
            let (last, leave) = walk.looked_up().leave(seq![], false);
            Progress { walk, lines: printed, action: Action::Continue }.run(target, 1)
                == (Progress {
                walk: last,
                lines: printed + seq![frame_line(walk.frame, walk.pc, walk.name())] + leave.lines,
                action: leave.action,
            })
        }),
{
    let line = seq![frame_line(walk.frame, walk.pc, walk.name())];
    let begin = Progress { walk, lines: printed, action: Action::Continue };
    let walk = walk.looked_up();
    lemma_leave_lines(walk, line, false);
    reveal_with_fuel(Progress::run, 2);
    assert(begin.run(target, 1).lines =~= printed + line + walk.leave(seq![], false).1.lines);
}

/// Above an exception the walk goes on in the frame that the exception interrupted: with the link
/// register and the program counter that the core stacked, and with the stack pointer above the
/// stacked registers.
pub proof fn law_exception_frame_is_undone(
    walk: BacktraceView,
    printed: Seq<Seq<char>>,
    fpu: bool,
    target: Target,
)
    requires
        walk.valid(),
        walk.phase == (PhaseView::ExceptionFrame { fpu }),
        walk.registers[SP] + 4 * frame_words(fpu) <= u32::MAX,
        walk.frame < LAST_FRAME,
    ensures
        ({
            let sp = walk.registers[SP];
            let action = Action::ReadWords { address: sp, count: frame_words(fpu) as usize };
            Progress { walk, lines: printed, action }.run(target, 1) == (Progress {
                walk: BacktraceView {
                    registers: walk.registers.insert(LR, (target.word)(sp + 20)).insert(
                        SP,
                        (sp + 4 * frame_words(fpu)) as u32,
                    ),
                    pc: (target.word)(sp + 24),
                    frame: walk.frame + 1,
                    phase: PhaseView::Frame,
                    ..walk
                },
                lines: printed,
                action: Action::Continue,
            })
        }),
{
    let sp = walk.registers[SP];
    let action = Action::ReadWords { address: sp, count: frame_words(fpu) as usize };
    let begin = Progress { walk, lines: printed, action };
    let empty: Seq<Seq<char>> = seq![];
    reveal_with_fuel(Progress::run, 2);
    assert(begin.run(target, 1).lines =~= printed + empty);
    assert(printed + empty =~= printed);
}

/// The first exception that the walk sees is the top one: it is the one of the function that the
/// walk was in, and no later step puts another in its place.
pub proof fn law_first_exception_is_the_top_one(walk: BacktraceView, reply: ReplyView)
    ensures
        walk.top_exception is Some ==> walk.step(reply).0.top_exception == walk.top_exception,
        walk.top_exception is None ==> {
            ||| walk.step(reply).0.top_exception is None
            ||| walk.step(reply).0.top_exception == Some(exception_of(walk.name()))
        },
{
}

/// A walk that is valid stays so after any reply of the kind that it asked for.
#[verifier::spinoff_prover]
pub proof fn law_step_keeps_walk_valid(walk: BacktraceView, reply: ReplyView)
    requires
        walk.valid(),
        walk.accepts(reply),
    ensures
        walk.step(reply).0.valid(),
{
}

/// A walk that started valid stays so as long as it is driven by the target that it asks.
pub proof fn law_run_keeps_validity(progress: Progress, target: Target, steps: nat)
    requires
        progress.walk.valid(),
        progress.walk.accepts(target.answer(progress.action)),
    ensures
        progress.run(target, steps).walk.valid(),
        progress.run(target, steps).walk.accepts(
            target.answer(progress.run(target, steps).action),
        ),
    decreases steps,
{
    if steps > 0 {
        let next = progress.after(progress.walk.step(target.answer(progress.action)));
        law_step_keeps_walk_valid(progress.walk, target.answer(progress.action));
        assert(next.walk.accepts(target.answer(next.action)));
        law_run_keeps_validity(next, target, (steps - 1) as nat);
    }
}

/// What a walk does in some steps and then in some more is what it does in all of them: what holds of
/// one frame holds of one frame after the other.
pub proof fn law_runs_compose(progress: Progress, target: Target, first: nat, second: nat)
    ensures
        progress.run(target, first + second) == progress.run(target, first).run(target, second),
    decreases first,
{
    if first > 0 {
        let next = progress.after(progress.walk.step(target.answer(progress.action)));
        law_runs_compose(next, target, (first - 1) as nat, second);
    }
}

/// A walk begins in the frame that the core halted in: with exactly the stack pointer and the link
/// register that the core holds, and nothing else known.
pub proof fn law_walk_begins_where_the_core_halted(
    walk: BacktraceView,
    printed: Seq<Seq<char>>,
    action: Action,
    target: Target,
)
    requires
        walk.phase is Start,
    ensures
        ({
            let begun = Progress { walk, lines: printed, action }.run(target, 3);
            &&& begun.walk.phase is Frame
            &&& begun.walk.registers == map![
                14u16 => (target.register)(14u16),
                13u16 => (target.register)(13u16),
            ]
            &&& begun.walk.pc == walk.pc
            &&& begun.walk.frame == walk.frame
            &&& begun.walk.lookups == walk.lookups
            &&& begun.walk.debug_frame == walk.debug_frame
            &&& begun.walk.names == walk.names
            &&& begun.walk.top_exception == walk.top_exception
            &&& begun.lines == printed.push("stack backtrace:"@)
            &&& begun.action == Action::Continue
        }),
{
    reveal_with_fuel(Progress::run, 4);
    let begun = Progress { walk, lines: printed, action }.run(target, 3);
    assert(begun.lines =~= printed.push("stack backtrace:"@));
}

/// Whenever an exception is entered, in whichever frame, it is known from then on which one is the top
/// one: the one that was known before, and otherwise a hard fault exactly if the function of the
/// frame is called `HardFault`. Nothing else makes an exception known.
pub proof fn law_entered_exception_is_noted(walk: BacktraceView, reply: ReplyView)
    ensures
        ({
            let next = walk.step(reply).0;
            if next.phase is ExceptionFrame && walk.phase !is ExceptionFrame {
                match walk.top_exception {
                    Some(top) => next.top_exception == Some(top),
                    None => if walk.name() == "HardFault"@ {
                        next.top_exception == Some(TopException::HardFault)
                    } else {
                        next.top_exception == Some(TopException::Other)
                    },
                }
            } else {
                next.top_exception == walk.top_exception
            }
        }),
{
    match walk.phase {
        PhaseView::Frame => {
            lemma_leave_notes_exception(walk.looked_up());
            match walk.found() {
                LookupView::Found(row) => {
                    lemma_rules_note_exception(walk.looked_up(), row);
                },
                _ => {},
            }
        },
        PhaseView::CfaBase { row, register, .. } => {
            lemma_rules_note_exception(
                BacktraceView {
                    registers: walk.registers.insert(register, reply->Value_0),
                    ..walk
                },
                row,
            );
        },
        PhaseView::SavedRegister { row, index, .. } => {
            lemma_rules_note_exception(
                BacktraceView {
                    registers: walk.registers.insert(row.registers[index].0, reply->Value_0),
                    ..walk
                },
                row,
            );
        },
        _ => {},
    }
}

/// Whether a walk that was at `walk` has noted the exception that it has entered since, if any.
spec fn notes_exception(walk: BacktraceView, next: BacktraceView) -> bool {
    if next.phase is ExceptionFrame {
        match walk.top_exception {
            Some(top) => next.top_exception == Some(top),
            None => if name_at(walk.names, walk.pc) == "HardFault"@ {
                next.top_exception == Some(TopException::HardFault)
            } else {
                next.top_exception == Some(TopException::Other)
            },
        }
    } else {
        next.top_exception == walk.top_exception
    }
}

/// A frame that is left by its link register notes the exception.
proof fn lemma_leave_notes_exception(walk: BacktraceView)
    ensures
        forall|registers: Map<u16, u32>, lines: Seq<Seq<char>>, changed: bool|
            notes_exception(
                walk,
                #[trigger] BacktraceView { registers, ..walk }.leave(lines, changed).0,
            ),
{
}

/// A frame that is left by its rules notes the exception.
proof fn lemma_rules_note_exception(walk: BacktraceView, row: UnwindRowView)
    ensures
        forall|lines: Seq<Seq<char>>, index: int, changed: bool|
            notes_exception(walk, #[trigger] walk.apply_rules(lines, row, index, changed).0),
        forall|lines: Seq<Seq<char>>, base: u32, offset: i64|
            notes_exception(walk, #[trigger] walk.apply_cfa(lines, row, base, offset).0),
{
    lemma_leave_notes_exception(walk);
    assert forall|lines: Seq<Seq<char>>, index: int, changed: bool| notes_exception(
        walk,
        #[trigger] walk.apply_rules(lines, row, index, changed).0,
    ) by {
        assert(walk == BacktraceView { registers: walk.registers, ..walk });
    }
    assert forall|lines: Seq<Seq<char>>, base: u32, offset: i64| notes_exception(
        walk,
        #[trigger] walk.apply_cfa(lines, row, base, offset).0,
    ) by {
        let at = BacktraceView {
            registers: walk.registers.insert(SP, wrap32(base + offset)),
            ..walk
        };
        assert(at.apply_rules(lines, row, 0, walk.registers[SP] != wrap32(base + offset)).0.phase
            is ExceptionFrame ==> row.registers.len() == 0);
    }
}

/// The name of a frame's function is that of the last range that starts at or below its program
/// counter, where that range contains it.
pub proof fn law_frame_is_named_by_its_range(walk: BacktraceView, i: int)
    requires
        0 <= i < walk.names.len(),
        walk.names[i].start <= walk.pc < walk.names[i].end,
        forall|j: int| i < j < walk.names.len() ==> walk.pc < #[trigger] walk.names[j].start,
    ensures
        walk.name() == walk.names[i].name,
{
    law_last_range_below_is_found(walk.names, walk.pc, i);
}

/// The link register that is recovered for the caller decides how the walk goes on. At its reset value
/// the call stack ends, and so it does where nothing changes. The values that an exception returns to
/// lead to the registers that the core stacked, other values as high are an error. An even address is
/// an error, and an odd one is the next frame's.
pub proof fn law_link_register_decides(
    walk: BacktraceView,
    lines: Seq<Seq<char>>,
    cfa_changed: bool,
)
    requires
        walk.frame <= 0x7fff_ffff,
    ensures
        ({
            let lr = walk.registers[14u16];
            let sp = walk.registers[13u16];
            let (next, step) = walk.leave(lines, cfa_changed);
            let basic = lr == 0xffff_fff1 || lr == 0xffff_fff9 || lr == 0xffff_fffd;
            let extended = lr == 0xffff_ffe1 || lr == 0xffff_ffe9 || lr == 0xffff_ffed;
            let over = lr == 0xffff_ffff || (lr == walk.pc && !cfa_changed);
            if over {
                next.phase is Over && step.lines == lines && step.action == Action::Finish(
                    Ok(walk.top_exception),
                )
            } else if basic || extended {
                &&& next == (BacktraceView {
                    phase: PhaseView::ExceptionFrame { fpu: extended },
                    top_exception: next.top_exception,
                    ..walk
                })
                &&& step.lines == lines.push("      <exception entry>"@)
                &&& step.action == (Action::ReadWords {
                    address: sp,
                    count: if extended {
                        25
                    } else {
                        8
                    },
                })
            } else if lr > 0xffff_ffe0 {
                next.phase is Over && step.lines == lines && step.action == Action::Finish(
                    Err(UnwindError::InvalidExcReturn(lr)),
                )
            } else if lr % 2 == 0 {
                next.phase is Over && step.lines == lines && step.action == Action::Finish(
                    Err(UnwindError::NoThumbBit(lr)),
                )
            } else if walk.frame == 0x7fff_ffff {
                next.phase is Over && step.lines == lines && step.action == Action::Fail(
                    Fault::FrameOverflow,
                )
            } else {
                &&& next == (BacktraceView {
                    pc: lr,
                    frame: walk.frame + 1,
                    phase: PhaseView::Frame,
                    ..walk
                })
                &&& step.lines == lines
                &&& step.action == Action::Continue
            }
        }),
{
}

/// Above an exception the walk goes on with what the core stacked: the sixth word is the link register,
/// the seventh the program counter, and the stack pointer is above the words. Nothing else changes.
pub proof fn law_stacked_words_are_followed(walk: BacktraceView, words: Seq<u32>, fpu: bool)
    requires
        walk.phase == (PhaseView::ExceptionFrame { fpu }),
        walk.frame < 0x7fff_ffff,
        words.len() == if fpu {
            25nat
        } else {
            8
        },
    ensures
        ({
            let sp = walk.registers[13u16] + 4 * words.len();
            let (next, step) = walk.step(ReplyView::Words(words));
            if sp <= 0xffff_ffff {
                &&& next == (BacktraceView {
                    registers: walk.registers.insert(14u16, words[5]).insert(13u16, sp as u32),
                    pc: words[6],
                    frame: walk.frame + 1,
                    phase: PhaseView::Frame,
                    ..walk
                })
                &&& step.action == Action::Continue
                &&& step.lines.len() == 0
            } else {
                step.action == Action::Fail(Fault::StackPointerOverflow)
            }
        }),
{
}

/// A frame whose call frame information cannot be followed ends the walk, after its line: where the
/// information cannot be searched, and where the canonical frame address is given by an expression
/// or lies beyond what can be computed.
pub proof fn law_frames_that_cannot_be_followed(walk: BacktraceView, reply: ReplyView)
    requires
        walk.phase is Frame,
    ensures
        ({
            let step = walk.step(reply).1;
            &&& step.lines.len() > 0
            &&& step.lines[0] == frame_line(walk.frame, walk.pc, walk.name())
            &&& walk.found() is Unsearchable ==> step.action == Action::Fail(
                Fault::UnsearchableFrames,
            )
            &&& walk.found() matches LookupView::Found(row) ==> match row.cfa {
                Cfa::Expression => step.action == Action::Fail(Fault::CfaExpression),
                Cfa::RegisterAndOffset { register, offset } => {
                    if !walk.registers.contains_key(register) {
                        step.action == Action::ReadRegister(register)
                    } else {
                        walk.registers[register] + offset > 0x7fff_ffff_ffff_ffff ==> step.action
                            == Action::Fail(Fault::OffsetOverflow)
                    }
                },
            }
        }),
{
}

/// Rules are followed one after the other, each of them from the stack pointer that is then known: a
/// register that is saved at an offset is read there, and any other rule ends the walk.
pub proof fn law_rules_are_followed_in_order(
    walk: BacktraceView,
    lines: Seq<Seq<char>>,
    row: UnwindRowView,
    index: int,
    cfa_changed: bool,
)
    requires
        0 <= index < row.registers.len(),
    ensures
        ({
            let cfa = walk.registers[13u16];
            let (next, step) = walk.apply_rules(lines, row, index, cfa_changed);
            &&& step.lines == lines
            &&& next == (BacktraceView { phase: next.phase, ..walk })
            &&& match row.registers[index].1 {
                Rule::Undefined => step.action == Action::Fail(Fault::UndefinedRule),
                Rule::Other => step.action == Action::Fail(Fault::UnimplementedRule),
                Rule::Offset(offset) => if cfa + offset > 0x7fff_ffff_ffff_ffff {
                    step.action == Action::Fail(Fault::OffsetOverflow)
                } else {
                    &&& step.action matches Action::ReadWord(address) && (cfa + offset - address)
                        % 0x1_0000_0000 == 0
                    &&& next.phase == (PhaseView::SavedRegister { row, index, cfa_changed })
                },
            }
        }),
{
}

/// No step changes what a walk knows of the program, and every frame is looked up once, in order.
pub proof fn law_step_keeps_what_is_known(walk: BacktraceView, reply: ReplyView)
    ensures
        walk.step(reply).0.names == walk.names,
        walk.step(reply).0.debug_frame == walk.debug_frame,
        walk.step(reply).0.lookups == if walk.phase is Frame && walk.found() !is Unsearchable {
            walk.lookups.push(walk.pc)
        } else {
            walk.lookups
        },
{
}

/// The line of a frame is its number, aligned to four places, its program counter in eight digits, and
/// the name of its function, each between fixed texts.
pub proof fn law_frame_line_tells_the_frame(frame: nat, pc: u32, name: Seq<char>)
    ensures
        ({
            let line = frame_line(frame, pc, name);
            let end = line.len() - name.len();
            let digits = line.subrange(0, end - 15);
            &&& digits == right_aligned(decimal(frame), 4)
            &&& line.subrange(end - 15, end - 11) == seq![':', ' ', '0', 'x']
            &&& number(line.subrange(end - 11, end - 3), 16) == pc
            &&& forall|i: int| end - 11 <= i < end - 3 ==> !(0x41 <= #[trigger] line[i] as int <= 0x5a)
            &&& line.subrange(end - 3, end) == seq![' ', '-', ' ']
            &&& line.subrange(end, line.len() as int) == name
        }),
{
    reveal_strlit(": 0x");
    reveal_strlit(" - ");
    let line = frame_line(frame, pc, name);
    let end = line.len() - name.len();
    let hexed = hex(pc as nat, 8, Letters::Lower);
    assert(hex_bound(8) == 0x1_0000_0000) by {
        reveal_with_fuel(hex_bound, 9);
    }
    law_hex_stands_for_the_number(pc as nat, 8, Letters::Lower);
    assert(line.subrange(0, end - 15) =~= right_aligned(decimal(frame), 4));
    assert(line.subrange(end - 15, end - 11) =~= seq![':', ' ', '0', 'x']);
    assert(line.subrange(end - 11, end - 3) =~= hexed);
    assert(line.subrange(end - 3, end) =~= seq![' ', '-', ' ']);
    assert(line.subrange(end, line.len() as int) =~= name);
    assert forall|i: int| end - 11 <= i < end - 3 implies !(0x41 <= #[trigger] line[i] as int
        <= 0x5a) by {
        law_hex_uses_the_letters(pc as nat, 8, Letters::Lower, i - (end - 11));
        assert(line[i] == hexed[i - (end - 11)]);
    }
}

/// What is said of a link register that cannot be followed tells its value.
pub proof fn law_unwind_errors_tell_the_link_register(lr: u32)
    ensures
        ({
            let text = UnwindError::InvalidExcReturn(lr).text();
            &&& text.len() == 47
            &&& number(text.subrange(39, 47), 16) == lr
            &&& text.subrange(0, 39) == "LR contains invalid EXC_RETURN value 0x"@
        }),
        ({
            let text = UnwindError::NoThumbBit(lr).text();
            &&& number(text.subrange(11, 19), 16) == lr
            &&& text.subrange(0, 11) == "bug? LR (0x"@
            &&& text.subrange(19, text.len() as int) == ") didn't have the Thumb bit set"@
        }),
{
    reveal_strlit("LR contains invalid EXC_RETURN value 0x");
    reveal_strlit("bug? LR (0x");
    reveal_strlit(") didn't have the Thumb bit set");
    assert(hex_bound(8) == 0x1_0000_0000) by {
        reveal_with_fuel(hex_bound, 9);
    }
    law_hex_stands_for_the_number(lr as nat, 8, Letters::Upper);
    law_hex_stands_for_the_number(lr as nat, 8, Letters::Lower);
    let text = UnwindError::InvalidExcReturn(lr).text();
    assert(text.subrange(39, 47) =~= hex(lr as nat, 8, Letters::Upper));
    assert(text.subrange(0, 39) =~= "LR contains invalid EXC_RETURN value 0x"@);
    let text = UnwindError::NoThumbBit(lr).text();
    assert(text.subrange(11, 19) =~= hex(lr as nat, 8, Letters::Lower));
    assert(text.subrange(0, 11) =~= "bug? LR (0x"@);
    assert(text.subrange(19, text.len() as int) =~= ") didn't have the Thumb bit set"@);
}

/// A canonical frame address that lies beyond what can be computed ends the walk also where the register
/// that it is an offset from had to be read first.
pub proof fn law_frame_address_beyond_the_numbers_ends_the_walk(
    walk: BacktraceView,
    row: UnwindRowView,
    register: u16,
    offset: i64,
    base: u32,
)
    requires
        walk.phase == (PhaseView::CfaBase { row, register, offset }),
        base + offset > 0x7fff_ffff_ffff_ffff,
    ensures
        walk.step(ReplyView::Value(base)).1.action == Action::Fail(Fault::OffsetOverflow),
{
}

/// A frame is looked up by its program counter as it is, after the frames before it.
pub proof fn law_frame_is_looked_up_by_its_program_counter(walk: BacktraceView)
    ensures
        walk.found() == lookup(walk.debug_frame, walk.lookups, walk.pc),
        walk.looked_up().pc == walk.pc,
        walk.looked_up().registers == walk.registers,
{
}

} // verus!
