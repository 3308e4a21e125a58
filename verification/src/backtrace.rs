//! The stack backtrace, as a machine that is told what the target holds.
//!
//! The stack is walked from the top (the most recent frame) to the bottom (the oldest frame).
//! [`Backtrace::step`] takes what the last action read from the target, and gives the lines to print
//! and the next action.
use vstd::prelude::*;
use vstd::string::*;

use crate::cfi::{
    lookup, lookups_after, Cfa, FrameTable, Lookup, LookupView, UnwindRow, UnwindRowView,
};
use crate::registers::{
    can_offset, check_offset, gimli2probe, update_by, wrap32, RegisterAddress, Registers, Update, LR,
    LR_END, SP,
};
use crate::stacked::{frame_words, stacked_of, Stacked};
use crate::symbols::{
    function_name, name_at, range_names_view, sorted_by_start, RangeNameView, RangeNames,
};
use crate::text::{
    decimal, hex, push_decimal, push_hex, push_right_aligned, right_aligned, same_text, Letters,
};

verus! {

/// The exception that the program was in when it halted.
#[derive(Clone, Copy, PartialEq, Eq, Debug, Structural)]
pub enum TopException {
    HardFault,
    Other,
}

/// Why the stack could not be walked to its end.
#[derive(Clone, Copy, PartialEq, Eq, Debug, Structural)]
pub enum UnwindError {
    /// The link register holds a value that no exception returns to.
    InvalidExcReturn(u32),
    /// The link register holds an address that is not one of Thumb code.
    NoThumbBit(u32),
}

/// What the unwinder cannot go on from.
#[derive(Clone, Copy, PartialEq, Eq, Debug, Structural)]
pub enum Fault {
    /// The canonical frame address is given by an expression.
    CfaExpression,
    /// A register is said to have no value.
    UndefinedRule,
    /// The rule for a register is not that it is saved at an offset.
    UnimplementedRule,
    /// An offset and the address that it is from add to more than 64 bits hold.
    OffsetOverflow,
    /// The frame of an exception reaches beyond the last address.
    StackPointerOverflow,
    /// There are more frames than are counted.
    FrameOverflow,
    /// A range of addresses in the call frame information has no end.
    UnsearchableFrames,
}

/// What is to be done next.
#[derive(Debug)]
pub enum Action {
    /// Read the core register.
    ReadRegister(RegisterAddress),
    /// Read the word at the address.
    ReadWord(u32),
    /// Read that many words from the address on.
    ReadWords { address: u32, count: usize },
    /// Nothing but the next step.
    Continue,
    /// Nothing: the walk is over.
    Finish(Result<Option<TopException>, UnwindError>),
    /// Nothing: the walk cannot go on.
    Fail(Fault),
}

/// What the last action read.
#[derive(Debug)]
pub enum Reply {
    /// It read nothing.
    Nothing,
    /// The value of the register, or the word.
    Value(u32),
    /// The words.
    Words(Vec<u32>),
}

/// The model of [`Reply`].
pub enum ReplyView {
    Nothing,
    Value(u32),
    Words(Seq<u32>),
}

impl View for Reply {
    type V = ReplyView;

    open spec fn view(&self) -> ReplyView {
        match self {
            Reply::Nothing => ReplyView::Nothing,
            Reply::Value(value) => ReplyView::Value(*value),
            Reply::Words(words) => ReplyView::Words(words@),
        }
    }
}

/// One step of the walk: the lines to print, and what to do after that.
#[derive(Debug)]
pub struct Step {
    pub lines: Vec<String>,
    pub action: Action,
}

/// The model of [`Step`].
pub struct StepView {
    pub lines: Seq<Seq<char>>,
    pub action: Action,
}

/// The texts of the lines.
pub open spec fn lines_view(lines: Seq<String>) -> Seq<Seq<char>> {
    lines.map_values(|line: String| line@)
}

impl View for Step {
    type V = StepView;

    open spec fn view(&self) -> StepView {
        StepView { lines: lines_view(self.lines@), action: self.action }
    }
}

/// Where the walk stands.
#[derive(Debug)]
enum Phase {
    /// Before the first action.
    Start,
    /// The stack pointer is being read.
    StackPointer,
    /// The link register is being read.
    LinkRegister { sp: u32 },
    /// The next frame is to be looked at.
    Frame,
    /// The register is being read that the canonical frame address is an offset from.
    CfaBase { row: UnwindRow, register: u16, offset: i64 },
    /// The register of the rule `index` is being read from the stack.
    SavedRegister { row: UnwindRow, index: usize, cfa_changed: bool },
    /// The frame of an exception is being read from the stack.
    ExceptionFrame { fpu: bool },
    /// The walk is over.
    Over,
}

/// The model of where the walk stands.
pub enum PhaseView {
    Start,
    StackPointer,
    LinkRegister { sp: u32 },
    Frame,
    CfaBase { row: UnwindRowView, register: u16, offset: i64 },
    SavedRegister { row: UnwindRowView, index: int, cfa_changed: bool },
    ExceptionFrame { fpu: bool },
    Over,
}

impl Phase {
    spec fn view(&self) -> PhaseView {
        match self {
            Phase::Start => PhaseView::Start,
            Phase::StackPointer => PhaseView::StackPointer,
            Phase::LinkRegister { sp } => PhaseView::LinkRegister { sp: *sp },
            Phase::Frame => PhaseView::Frame,
            Phase::CfaBase { row, register, offset } => PhaseView::CfaBase {
                row: row@,
                register: *register,
                offset: *offset,
            },
            Phase::SavedRegister { row, index, cfa_changed } => PhaseView::SavedRegister {
                row: row@,
                index: *index as int,
                cfa_changed: *cfa_changed,
            },
            Phase::ExceptionFrame { fpu } => PhaseView::ExceptionFrame { fpu: *fpu },
            Phase::Over => PhaseView::Over,
        }
    }
}

/// A walk of the stack. The frames are looked up in the call frame information one after the other,
/// with one context: what a failed lookup leaves there bears on later frames.
pub struct Backtrace<'a> {
    table: FrameTable<'a>,
    range_names: &'a RangeNames,
    registers: Registers,
    pc: u32,
    frame: u32,
    top_exception: Option<TopException>,
    phase: Phase,
}

/// The model of [`Backtrace`].
pub struct BacktraceView {
    /// The call frame information.
    pub debug_frame: Seq<u8>,
    /// The addresses that have been looked up in it.
    pub lookups: Seq<u32>,
    /// The names of the functions.
    pub names: Seq<RangeNameView>,
    /// The values of the registers in the current frame, as far as they are known.
    pub registers: Map<u16, u32>,
    /// The program counter of the current frame.
    pub pc: u32,
    /// The number of the current frame.
    pub frame: nat,
    /// The topmost exception that was seen.
    pub top_exception: Option<TopException>,
    /// Where the walk stands.
    pub phase: PhaseView,
}

/// The number of the last frame that can be counted.
pub const LAST_FRAME: u32 = 0x7fff_ffff;

// -------------------------------------------------------------------------------------------
// What one step does.

/// The line for a frame.
pub open spec fn frame_line(frame: nat, pc: u32, name: Seq<char>) -> Seq<char> {
    right_aligned(decimal(frame), 4) + ": 0x"@ + hex(pc as nat, 8, Letters::Lower) + " - "@ + name
}

/// The line for the entry to an exception.
pub open spec fn exception_line() -> Seq<char> {
    "      <exception entry>"@
}

/// Whether the floating point registers were stacked, by the value that the link register has in an
/// exception; `None` for a value that it cannot have there.
pub open spec fn stacked_fpu(lr: u32) -> Option<bool> {
    if lr == 0xFFFF_FFF1 || lr == 0xFFFF_FFF9 || lr == 0xFFFF_FFFD {
        Some(false)
    } else if lr == 0xFFFF_FFE1 || lr == 0xFFFF_FFE9 || lr == 0xFFFF_FFED {
        Some(true)
    } else {
        None
    }
}

/// The exception that the function of the name handles.
pub open spec fn exception_of(name: Seq<char>) -> TopException {
    if name == "HardFault"@ {
        TopException::HardFault
    } else {
        TopException::Other
    }
}

impl BacktraceView {
    /// The name of the function of the current frame.
    pub open spec fn name(self) -> Seq<char> {
        name_at(self.names, self.pc)
    }

    /// The walk goes on after the action.
    pub open spec fn act(self, phase: PhaseView, lines: Seq<Seq<char>>, action: Action) -> (
        BacktraceView,
        StepView,
    ) {
        (BacktraceView { phase, ..self }, StepView { lines, action })
    }

    /// The walk is over.
    pub open spec fn finish(
        self,
        lines: Seq<Seq<char>>,
        result: Result<Option<TopException>, UnwindError>,
    ) -> (BacktraceView, StepView) {
        self.act(PhaseView::Over, lines, Action::Finish(result))
    }

    /// The walk cannot go on.
    pub open spec fn fail(self, lines: Seq<Seq<char>>, fault: Fault) -> (BacktraceView, StepView) {
        self.act(PhaseView::Over, lines, Action::Fail(fault))
    }

    /// The next frame is the one of the caller, at `pc`.
    pub open spec fn enter(self, lines: Seq<Seq<char>>, pc: u32) -> (BacktraceView, StepView) {
        if self.frame == LAST_FRAME {
            self.fail(lines, Fault::FrameOverflow)
        } else {
            BacktraceView { pc, frame: self.frame + 1, ..self }.act(
                PhaseView::Frame,
                lines,
                Action::Continue,
            )
        }
    }

    /// The registers of the caller are known, as far as they can be: where to go from here.
    pub open spec fn leave(self, lines: Seq<Seq<char>>, cfa_changed: bool) -> (
        BacktraceView,
        StepView,
    ) {
        let lr = self.registers[LR];
        if lr == LR_END || (!cfa_changed && lr == self.pc) {
            self.finish(lines, Ok(self.top_exception))
        } else if lr > 0xffff_ffe0 {
            match stacked_fpu(lr) {
                None => self.finish(lines, Err(UnwindError::InvalidExcReturn(lr))),
                Some(fpu) => BacktraceView {
                    top_exception: if self.top_exception is None {
                        Some(exception_of(self.name()))
                    } else {
                        self.top_exception
                    },
                    ..self
                }.act(
                    PhaseView::ExceptionFrame { fpu },
                    lines.push(exception_line()),
                    Action::ReadWords {
                        address: self.registers[SP],
                        count: frame_words(fpu) as usize,
                    },
                ),
            }
        } else if lr % 2 == 0 {
            self.finish(lines, Err(UnwindError::NoThumbBit(lr)))
        } else {
            self.enter(lines, lr)
        }
    }

    /// The rules before `index` have been applied.
    pub open spec fn apply_rules(
        self,
        lines: Seq<Seq<char>>,
        row: UnwindRowView,
        index: int,
        cfa_changed: bool,
    ) -> (BacktraceView, StepView) {
        if index >= row.registers.len() {
            self.leave(lines, cfa_changed)
        } else {
            match update_by(self.registers[SP], row.registers[index].1) {
                Update::Read(address) => self.act(
                    PhaseView::SavedRegister { row, index, cfa_changed },
                    lines,
                    Action::ReadWord(address),
                ),
                Update::Overflow => self.fail(lines, Fault::OffsetOverflow),
                Update::Undefined => self.fail(lines, Fault::UndefinedRule),
                Update::Unimplemented => self.fail(lines, Fault::UnimplementedRule),
            }
        }
    }

    /// The value is known that the canonical frame address is `offset` from.
    pub open spec fn apply_cfa(
        self,
        lines: Seq<Seq<char>>,
        row: UnwindRowView,
        base: u32,
        offset: i64,
    ) -> (BacktraceView, StepView) {
        if can_offset(base, offset) {
            let cfa = wrap32(base + offset);
            BacktraceView { registers: self.registers.insert(SP, cfa), ..self }.apply_rules(
                lines,
                row,
                0,
                self.registers[SP] != cfa,
            )
        } else {
            self.fail(lines, Fault::OffsetOverflow)
        }
    }

    /// The current frame is looked at, `found` being what the call frame information says of it.
    pub open spec fn look(self, found: LookupView) -> (BacktraceView, StepView) {
        let lines = seq![frame_line(self.frame, self.pc, self.name())];
        match found {
            LookupView::Unsearchable => self.fail(lines, Fault::UnsearchableFrames),
            // Without rules the registers stay as they are: the link register is followed.
            LookupView::Missing => self.leave(lines, false),
            LookupView::Found(row) => match row.cfa {
                Cfa::Expression => self.fail(lines, Fault::CfaExpression),
                Cfa::RegisterAndOffset { register, offset } => if self.registers.contains_key(
                    register,
                ) {
                    self.apply_cfa(lines, row, self.registers[register], offset)
                } else {
                    self.act(
                        PhaseView::CfaBase { row, register, offset },
                        lines,
                        Action::ReadRegister(register),
                    )
                },
            },
        }
    }

    /// What the call frame information says of the current frame.
    pub open spec fn found(self) -> LookupView {
        lookup(self.debug_frame, self.lookups, self.pc)
    }

    /// The current frame is looked up in the call frame information.
    pub open spec fn looked_up(self) -> BacktraceView {
        BacktraceView {
            lookups: lookups_after(self.debug_frame, self.lookups, self.pc),
            ..self
        }
    }

    /// The step that the reply leads to.
    pub open spec fn step(self, reply: ReplyView) -> (BacktraceView, StepView) {
        match self.phase {
            PhaseView::Start => self.act(
                PhaseView::StackPointer,
                seq![],
                Action::ReadRegister(SP),
            ),
            PhaseView::StackPointer => self.act(
                PhaseView::LinkRegister { sp: reply->Value_0 },
                seq![],
                Action::ReadRegister(LR),
            ),
            PhaseView::LinkRegister { sp } => BacktraceView {
                registers: map![LR => reply->Value_0, SP => sp],
                ..self
            }.act(PhaseView::Frame, seq!["stack backtrace:"@], Action::Continue),
            PhaseView::Frame => self.looked_up().look(self.found()),
            PhaseView::CfaBase { row, register, offset } => BacktraceView {
                registers: self.registers.insert(register, reply->Value_0),
                ..self
            }.apply_cfa(seq![], row, reply->Value_0, offset),
            PhaseView::SavedRegister { row, index, cfa_changed } => BacktraceView {
                registers: self.registers.insert(row.registers[index].0, reply->Value_0),
                ..self
            }.apply_rules(seq![], row, index + 1, cfa_changed),
            PhaseView::ExceptionFrame { fpu } => {
                let stacked = stacked_of(reply->Words_0, fpu);
                let sp = self.registers[SP] + stacked.size_spec();
                if sp > u32::MAX {
                    self.fail(seq![], Fault::StackPointerOverflow)
                } else {
                    BacktraceView {
                        registers: self.registers.insert(LR, stacked.lr).insert(SP, sp as u32),
                        ..self
                    }.enter(seq![], stacked.pc)
                }
            },
            PhaseView::Over => self.act(PhaseView::Over, seq![], Action::Continue),
        }
    }

    /// Whether the reply is of the kind that the last action asked for.
    pub open spec fn accepts(self, reply: ReplyView) -> bool {
        match self.phase {
            PhaseView::Start | PhaseView::Frame | PhaseView::Over => true,
            PhaseView::ExceptionFrame { fpu } => reply is Words && reply->Words_0.len()
                == frame_words(fpu),
            _ => reply is Value,
        }
    }

    /// What holds of every walk: the names come in the order of their addresses, the frames are
    /// counted, and once the walk has begun the stack pointer and the link register are known.
    pub open spec fn valid(self) -> bool {
        &&& sorted_by_start(self.names)
        &&& self.frame <= LAST_FRAME
        &&& match self.phase {
            PhaseView::Start | PhaseView::StackPointer | PhaseView::LinkRegister { .. }
            | PhaseView::Over => true,
            _ => self.registers.contains_key(LR) && self.registers.contains_key(SP),
        }
        &&& match self.phase {
            PhaseView::SavedRegister { row, index, .. } => 0 <= index < row.registers.len(),
            _ => true,
        }
    }
}

impl<'a> View for Backtrace<'a> {
    type V = BacktraceView;

    closed spec fn view(&self) -> BacktraceView {
        BacktraceView {
            debug_frame: self.table@.debug_frame,
            lookups: self.table@.lookups,
            names: range_names_view(self.range_names@),
            registers: self.registers@,
            pc: self.pc,
            frame: self.frame as nat,
            top_exception: self.top_exception,
            phase: self.phase@,
        }
    }
}

/// The line for a frame.
pub fn format_frame(frame: u32, pc: u32, name: &str) -> (line: String)
    ensures
        line@ == frame_line(frame as nat, pc, name@),
{
    let mut number: String = String::new();
    push_decimal(&mut number, frame);
    assert(number@ =~= decimal(frame as nat));
    let mut line: String = String::new();
    push_right_aligned(&mut line, number.as_str(), 4);
    line.append(": 0x");
    push_hex(&mut line, pc, 8, Letters::Lower);
    line.append(" - ");
    line.append(name);
    assert(line@ =~= frame_line(frame as nat, pc, name@));
    line
}

impl UnwindError {
    /// What is said of the error.
    pub open spec fn text(self) -> Seq<char> {
        match self {
            UnwindError::InvalidExcReturn(lr) => "LR contains invalid EXC_RETURN value 0x"@ + hex(
                lr as nat,
                8,
                Letters::Upper,
            ),
            UnwindError::NoThumbBit(lr) => "bug? LR (0x"@ + hex(lr as nat, 8, Letters::Lower)
                + ") didn't have the Thumb bit set"@,
        }
    }

    /// What is said of the error.
    pub fn message(&self) -> (message: String)
        ensures
            message@ == self.text(),
    {
        let mut message: String = String::new();
        match self {
            UnwindError::InvalidExcReturn(lr) => {
                message.append("LR contains invalid EXC_RETURN value 0x");
                push_hex(&mut message, *lr, 8, Letters::Upper);
            },
            UnwindError::NoThumbBit(lr) => {
                message.append("bug? LR (0x");
                push_hex(&mut message, *lr, 8, Letters::Lower);
                message.append(") didn't have the Thumb bit set");
            },
        }
        assert(message@ =~= self.text());
        message
    }
}

impl<'a> Backtrace<'a> {
    /// A walk from the frame that the core halted in, at `pc`.
    pub fn new(pc: u32, debug_frame: &'a [u8], range_names: &'a RangeNames) -> (walk: Self)
        requires
            sorted_by_start(range_names_view(range_names@)),
        ensures
            walk@ == (BacktraceView {
                debug_frame: debug_frame@,
                lookups: Seq::empty(),
                names: range_names_view(range_names@),
                registers: map![LR => 0u32, SP => 0u32],
                pc,
                frame: 0,
                top_exception: None,
                phase: PhaseView::Start,
            }),
            walk@.valid(),
    {
        Backtrace {
            table: FrameTable::new(debug_frame),
            range_names,
            registers: Registers::new(0, 0),
            pc,
            frame: 0,
            top_exception: None,
            phase: Phase::Start,
        }
    }

    /// Whether an exception was entered, and which.
    pub fn top_exception(&self) -> (top: Option<TopException>)
        ensures
            top == self@.top_exception,
    {
        self.top_exception
    }

    fn act(&mut self, phase: Phase, lines: Vec<String>, action: Action) -> (step: Step)
        ensures
            (final(self)@, step@) == old(self)@.act(phase@, lines_view(lines@), action),
    {
        self.phase = phase;
        Step { lines, action }
    }

    fn enter(&mut self, lines: Vec<String>, pc: u32) -> (step: Step)
        requires
            old(self)@.frame <= LAST_FRAME,
        ensures
            (final(self)@, step@) == old(self)@.enter(lines_view(lines@), pc),
    {
        if self.frame == LAST_FRAME {
            return self.act(Phase::Over, lines, Action::Fail(Fault::FrameOverflow));
        }
        self.pc = pc;
        self.frame += 1;
        self.act(Phase::Frame, lines, Action::Continue)
    }

    fn leave(&mut self, lines: Vec<String>, cfa_changed: bool) -> (step: Step)
        requires
            old(self)@.frame <= LAST_FRAME,
            sorted_by_start(old(self)@.names),
            old(self)@.registers.contains_key(LR),
            old(self)@.registers.contains_key(SP),
        ensures
            (final(self)@, step@) == old(self)@.leave(lines_view(lines@), cfa_changed),
    {
        let lr: u32 = match self.registers.get(LR) {
            Some(lr) => lr,
            None => 0,
        };
        if lr == LR_END || (!cfa_changed && lr == self.pc) {
            let top: Option<TopException> = self.top_exception;
            return self.act(Phase::Over, lines, Action::Finish(Ok(top)));
        }
        if lr > 0xffff_ffe0 {
            let fpu = match lr {
                0xFFFFFFF1 | 0xFFFFFFF9 | 0xFFFFFFFD => false,
                0xFFFFFFE1 | 0xFFFFFFE9 | 0xFFFFFFED => true,
                _ => {
                    let error = UnwindError::InvalidExcReturn(lr);
                    return self.act(Phase::Over, lines, Action::Finish(Err(error)));
                },
            };
            if self.top_exception.is_none() {
                let name: &str = function_name(self.range_names, self.pc);
                self.top_exception = Some(
                    if same_text(name, "HardFault") {
                        TopException::HardFault
                    } else {
                        TopException::Other
                    },
                );
            }
            let mut lines = lines;
            let ghost before = lines@;
            lines.push("      <exception entry>".to_owned());
            assert(lines_view(lines@) =~= lines_view(before).push(exception_line()));
            let address: u32 = match self.registers.get(SP) {
                Some(sp) => sp,
                None => 0,
            };
            let action = Action::ReadWords { address, count: Stacked::words(fpu) };
            self.act(Phase::ExceptionFrame { fpu }, lines, action)
        } else if lr % 2 == 0 {
            let error = UnwindError::NoThumbBit(lr);
            self.act(Phase::Over, lines, Action::Finish(Err(error)))
        } else {
            self.enter(lines, lr)
        }
    }

    fn apply_rules(&mut self, lines: Vec<String>, row: UnwindRow, index: usize, cfa_changed: bool)
        -> (step: Step)
        requires
            old(self)@.frame <= LAST_FRAME,
            sorted_by_start(old(self)@.names),
            old(self)@.registers.contains_key(LR),
            old(self)@.registers.contains_key(SP),
        ensures
            (final(self)@, step@) == old(self)@.apply_rules(
                lines_view(lines@),
                row@,
                index as int,
                cfa_changed,
            ),
    {
        if index >= row.registers.len() {
            return self.leave(lines, cfa_changed);
        }
        match self.registers.try_update(row.registers[index].1) {
            Update::Read(address) => self.act(
                Phase::SavedRegister { row, index, cfa_changed },
                lines,
                Action::ReadWord(address),
            ),
            Update::Overflow => self.act(
                Phase::Over,
                lines,
                Action::Fail(Fault::OffsetOverflow),
            ),
            Update::Undefined => self.act(
                Phase::Over,
                lines,
                Action::Fail(Fault::UndefinedRule),
            ),
            Update::Unimplemented => self.act(
                Phase::Over,
                lines,
                Action::Fail(Fault::UnimplementedRule),
            ),
        }
    }

    fn apply_cfa(&mut self, lines: Vec<String>, row: UnwindRow, base: u32, offset: i64) -> (step:
        Step)
        requires
            old(self)@.frame <= LAST_FRAME,
            sorted_by_start(old(self)@.names),
            old(self)@.registers.contains_key(LR),
            old(self)@.registers.contains_key(SP),
        ensures
            (final(self)@, step@) == old(self)@.apply_cfa(lines_view(lines@), row@, base, offset),
    {
        if check_offset(base, offset) {
            let cfa_changed = self.registers.update_cfa(base, offset);
            self.apply_rules(lines, row, 0, cfa_changed)
        } else {
            self.act(Phase::Over, lines, Action::Fail(Fault::OffsetOverflow))
        }
    }

    /// Looks at the current frame, `found` being what the call frame information says of its program
    /// counter.
    pub fn look(&mut self, found: Lookup) -> (step: Step)
        requires
            old(self)@.valid(),
            old(self)@.phase is Frame,
        ensures
            final(self)@.valid(),
            (final(self)@, step@) == old(self)@.look(found@),
    {
        let name: &str = function_name(self.range_names, self.pc);
        let line: String = format_frame(self.frame, self.pc, name);
        let mut lines: Vec<String> = Vec::new();
        lines.push(line);
        assert(lines_view(lines@) =~= seq![frame_line(self@.frame, self@.pc, self@.name())]);
        match found {
            Lookup::Unsearchable => self.act(
                Phase::Over,
                lines,
                Action::Fail(Fault::UnsearchableFrames),
            ),
            Lookup::Missing => self.leave(lines, false),
            Lookup::Found(row) => match row.cfa {
                Cfa::Expression => self.act(
                    Phase::Over,
                    lines,
                    Action::Fail(Fault::CfaExpression),
                ),
                Cfa::RegisterAndOffset { register, offset } => {
                    let address: RegisterAddress = gimli2probe(register);
                    match self.registers.get(address) {
                        Some(base) => self.apply_cfa(lines, row, base, offset),
                        None => self.act(
                            Phase::CfaBase { row, register, offset },
                            lines,
                            Action::ReadRegister(address),
                        ),
                    }
                },
            },
        }
    }

    /// Takes what the last action read, and says what to print and what to do next.
    pub fn step(&mut self, reply: Reply) -> (step: Step)
        requires
            old(self)@.valid(),
            old(self)@.accepts(reply@),
        ensures
            final(self)@.valid(),
            (final(self)@, step@) == old(self)@.step(reply@),
    {
        let value: u32 = match &reply {
            Reply::Value(value) => *value,
            _ => 0,
        };
        let none: Vec<String> = Vec::new();
        assert(lines_view(none@) =~= seq![]);
        let mut phase: Phase = Phase::Over;
        core::mem::swap(&mut phase, &mut self.phase);
        match phase {
            Phase::Start => self.act(Phase::StackPointer, none, Action::ReadRegister(SP)),
            Phase::StackPointer => self.act(
                Phase::LinkRegister { sp: value },
                none,
                Action::ReadRegister(LR),
            ),
            Phase::LinkRegister { sp } => {
                self.registers = Registers::new(value, sp);
                let mut lines = none;
                lines.push("stack backtrace:".to_owned());
                assert(lines_view(lines@) =~= seq!["stack backtrace:"@]);
                self.act(Phase::Frame, lines, Action::Continue)
            },
            Phase::Frame => {
                self.phase = Phase::Frame;
                let found: Lookup = self.table.find_row(self.pc);
                self.look(found)
            },
            Phase::CfaBase { row, register, offset } => {
                self.registers.insert(gimli2probe(register), value);
                self.apply_cfa(none, row, value, offset)
            },
            Phase::SavedRegister { row, index, cfa_changed } => {
                assert(index < row.registers.len());
                self.registers.insert(gimli2probe(row.registers[index].0), value);
                self.apply_rules(none, row, index + 1, cfa_changed)
            },
            Phase::ExceptionFrame { fpu } => {
                let words: Vec<u32> = match reply {
                    Reply::Words(words) => words,
                    _ => Vec::new(),
                };
                let stacked: Stacked = Stacked::read(&words, fpu);
                let sp: u32 = match self.registers.get(SP) {
                    Some(sp) => sp,
                    None => 0,
                };
                match sp.checked_add(stacked.size()) {
                    None => self.act(
                        Phase::Over,
                        none,
                        Action::Fail(Fault::StackPointerOverflow),
                    ),
                    Some(above) => {
                        self.registers.insert(LR, stacked.lr);
                        // adjust the stack pointer for stacked registers
                        self.registers.insert(SP, above);
                        self.enter(none, stacked.pc)
                    },
                }
            },
            Phase::Over => self.act(Phase::Over, none, Action::Continue),
        }
    }
}

} // verus!
