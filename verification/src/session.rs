//! A run of a program on the target, as a machine that is told what the outside world answers.
//!
//! The program is loaded and started, its log messages are printed until the core halts or the user
//! interrupts, and the stack backtrace is printed. [`Session::step`] takes the answer to the last
//! task, and gives the lines to print and the next task.
use vstd::prelude::*;
use vstd::string::*;

use crate::backtrace::{
    lines_view, Action, Backtrace, BacktraceView, Fault, PhaseView, Reply, ReplyView, Step,
    TopException, UnwindError,
};
use crate::loading::{operations_for, operations_view, start_operations, Operation, OperationView};
use crate::logging::{
    after_attempt, decide_after_attempt, AfterAttempt, Attempt, LoggingError, NUM_RETRIES,
};
use crate::program::{loaded_view, optional_bytes, optional_data, Program};
use crate::registers::{RegisterAddress, LR, PC, SP};
use crate::symbols::{range_names_view, sorted_by_start, RangeNameView, RangeNames};
use crate::walk::law_step_keeps_walk_valid;

verus! {

/// The exit code for a program that ended in a hard fault.
pub const SIGABRT: i32 = 134;

/// The exit code by the topmost exception that the program was in.
pub open spec fn exit_code_of(top_exception: Option<TopException>) -> i32 {
    if top_exception == Some(TopException::HardFault) {
        SIGABRT
    } else {
        0
    }
}

/// The exit code by the topmost exception that the program was in.
pub fn exit_code(top_exception: Option<TopException>) -> (code: i32)
    ensures
        code == exit_code_of(top_exception),
{
    match top_exception {
        Some(TopException::HardFault) => SIGABRT,
        _ => 0,
    }
}

/// Why a run ends with an error.
#[derive(Clone, Copy, PartialEq, Eq, Debug, Structural)]
pub enum SessionError {
    /// There is no probe.
    NoProbe,
    /// The program has no call frame information.
    NoDebugFrame,
    /// The program has no symbol table.
    NoSymtab,
    /// The stack could not be walked to its end.
    Unwind(UnwindError),
    /// There were no log messages to print.
    Logging(LoggingError),
}

impl SessionError {
    /// What is said of the error, but for errors of the last attempt to attach to the RTT control
    /// block, which come with a text of their own.
    pub open spec fn text(self) -> Option<Seq<char>> {
        match self {
            SessionError::NoProbe => Some("no probe was found"@),
            SessionError::NoDebugFrame => Some("`.debug_frame` section not found"@),
            SessionError::NoSymtab => Some("`.symtab` section not found"@),
            SessionError::Unwind(error) => Some(error.text()),
            SessionError::Logging(error) => error.text(),
        }
    }

    /// What is said of the error, if it has no text of its own.
    pub fn message(&self) -> (message: Option<String>)
        ensures
            match message {
                Some(message) => self.text() == Some(message@),
                None => self.text() is None,
            },
    {
        match self {
            SessionError::NoProbe => Some("no probe was found".to_owned()),
            SessionError::NoDebugFrame => Some("`.debug_frame` section not found".to_owned()),
            SessionError::NoSymtab => Some("`.symtab` section not found".to_owned()),
            SessionError::Unwind(error) => Some(error.message()),
            SessionError::Logging(error) => match error.message() {
                Some(message) => Some(message.to_owned()),
                None => None,
            },
        }
    }
}

/// What is to be done next.
#[derive(Clone, Copy, PartialEq, Eq, Debug, Structural)]
pub enum Task {
    /// List the probes, and answer with their number.
    ListProbes,
    /// Open the first probe, and attach to the chip.
    OpenProbe,
    /// Perform the operation with the index.
    Perform(usize),
    /// From now on, note when the user interrupts.
    HandleInterrupt,
    /// Attach to the RTT control block at the address, and answer with what came of it.
    AttachLog(u32),
    /// Take the first channel, and answer whether there is one.
    TakeChannel,
    /// Answer whether the user has not interrupted.
    CheckContinue,
    /// Read the log messages that there are, and print them.
    ReadLog,
    /// Answer whether the core is halted.
    PollHalted,
    /// Halt the core.
    HaltCore,
    /// Answer with the value of the core register.
    ReadRegister(RegisterAddress),
    /// Answer with the word at the address.
    ReadWord(u32),
    /// Answer with that many words from the address on.
    ReadWords { address: u32, count: usize },
    /// Nothing but the next step.
    Continue,
    /// Reset the core, and halt it before it runs any code.
    ResetAndHalt,
    /// Nothing: the run is over, with the exit code.
    Exit(i32),
    /// Nothing: the run is over, with an error.
    Fail(SessionError),
    /// Nothing: the backtrace cannot go on.
    Crash(Fault),
}

/// The answer to a task.
#[derive(Debug)]
pub enum Answer {
    /// It is done.
    Done,
    /// The number of probes.
    Count(usize),
    /// Yes or no.
    Flag(bool),
    /// What came of an attempt to attach.
    Attempt(Attempt),
    /// The value of the register, or the word.
    Value(u32),
    /// The words.
    Words(Vec<u32>),
}

/// The model of [`Answer`].
pub enum AnswerView {
    Done,
    Count(usize),
    Flag(bool),
    Attempt(Attempt),
    Value(u32),
    Words(Seq<u32>),
}

impl View for Answer {
    type V = AnswerView;

    open spec fn view(&self) -> AnswerView {
        match self {
            Answer::Done => AnswerView::Done,
            Answer::Count(count) => AnswerView::Count(*count),
            Answer::Flag(flag) => AnswerView::Flag(*flag),
            Answer::Attempt(attempt) => AnswerView::Attempt(*attempt),
            Answer::Value(value) => AnswerView::Value(*value),
            Answer::Words(words) => AnswerView::Words(words@),
        }
    }
}

/// What the answer is to the backtrace.
pub open spec fn reply_of(answer: AnswerView) -> ReplyView {
    match answer {
        AnswerView::Value(value) => ReplyView::Value(value),
        AnswerView::Words(words) => ReplyView::Words(words),
        _ => ReplyView::Nothing,
    }
}

/// What the answer is to the backtrace.
fn to_reply(answer: Answer) -> (reply: Reply)
    ensures
        reply@ == reply_of(answer@),
{
    match answer {
        Answer::Value(value) => Reply::Value(value),
        Answer::Words(words) => Reply::Words(words),
        _ => Reply::Nothing,
    }
}

/// One step of the run: the lines to print, and what to do after that.
#[derive(Debug)]
pub struct Turn {
    pub lines: Vec<String>,
    pub task: Task,
}

/// The model of [`Turn`].
pub struct TurnView {
    pub lines: Seq<Seq<char>>,
    pub task: Task,
}

impl View for Turn {
    type V = TurnView;

    open spec fn view(&self) -> TurnView {
        TurnView { lines: lines_view(self.lines@), task: self.task }
    }
}

/// Where the run stands.
enum Stage<'a> {
    /// Before the first task.
    Start,
    /// The probes are being listed.
    Probes,
    /// The probe is being opened.
    Opening,
    /// The operations before the index have been performed.
    Loading { index: usize },
    /// Interrupts are about to be noted.
    Interrupts,
    /// The attempt with the index is being made.
    Attaching { address: u32, try_index: usize },
    /// The channel is being taken.
    Channel,
    /// The user is about to be asked for another round.
    Watching { was_halted: bool },
    /// Log messages are being printed.
    Printing { was_halted: bool },
    /// The core is being asked whether it is halted.
    Polling { was_halted: bool },
    /// The last round is over.
    Leaving,
    /// The core is being halted.
    Halting,
    /// The program counter is being read.
    Counter,
    /// The stack is being walked.
    Unwinding { walk: Backtrace<'a> },
    /// The core is being reset, after the walk.
    Resetting { top_exception: Option<TopException> },
    /// The run is over.
    Over,
}

/// The model of where the run stands.
pub enum StageView {
    Start,
    Probes,
    Opening,
    Loading { index: nat },
    Interrupts,
    Attaching { address: u32, try_index: nat },
    Channel,
    Watching { was_halted: bool },
    Printing { was_halted: bool },
    Polling { was_halted: bool },
    Leaving,
    Halting,
    Counter,
    Unwinding { walk: BacktraceView },
    Resetting { top_exception: Option<TopException> },
    Over,
}

impl<'a> Stage<'a> {
    spec fn view(&self) -> StageView {
        match self {
            Stage::Start => StageView::Start,
            Stage::Probes => StageView::Probes,
            Stage::Opening => StageView::Opening,
            Stage::Loading { index } => StageView::Loading { index: *index as nat },
            Stage::Interrupts => StageView::Interrupts,
            Stage::Attaching { address, try_index } => StageView::Attaching {
                address: *address,
                try_index: *try_index as nat,
            },
            Stage::Channel => StageView::Channel,
            Stage::Watching { was_halted } => StageView::Watching { was_halted: *was_halted },
            Stage::Printing { was_halted } => StageView::Printing { was_halted: *was_halted },
            Stage::Polling { was_halted } => StageView::Polling { was_halted: *was_halted },
            Stage::Leaving => StageView::Leaving,
            Stage::Halting => StageView::Halting,
            Stage::Counter => StageView::Counter,
            Stage::Unwinding { walk } => StageView::Unwinding { walk: walk@ },
            Stage::Resetting { top_exception } => StageView::Resetting {
                top_exception: *top_exception,
            },
            Stage::Over => StageView::Over,
        }
    }
}

/// A run of a program.
pub struct Session<'a> {
    program: &'a Program,
    operations: Vec<Operation>,
    logging: Result<(), LoggingError>,
    stage: Stage<'a>,
}

/// The model of [`Session`].
pub struct SessionView {
    /// What is done to the target so that the program runs there.
    pub operations: Seq<OperationView>,
    /// Where the RTT control block lives.
    pub rtt_addr: Option<u32>,
    /// The call frame information.
    pub debug_frame: Option<Seq<u8>>,
    /// The names of the functions.
    pub names: Option<Seq<RangeNameView>>,
    /// Whether there are log messages to print, and if not, why.
    pub logging: Result<(), LoggingError>,
    /// Where the run stands.
    pub stage: StageView,
}

/// The names of the functions, if they are known.
pub open spec fn optional_names_view(names: Option<RangeNames>) -> Option<Seq<RangeNameView>> {
    match names {
        Some(names) => Some(range_names_view(names@)),
        None => None,
    }
}

impl<'a> View for Session<'a> {
    type V = SessionView;

    closed spec fn view(&self) -> SessionView {
        SessionView {
            operations: operations_view(self.operations@),
            rtt_addr: self.program.rtt_addr,
            debug_frame: optional_bytes(self.program.debug_frame),
            names: optional_names_view(self.program.range_names),
            logging: self.logging,
            stage: self.stage@,
        }
    }
}

// -------------------------------------------------------------------------------------------
// What one step does.

/// The walk of the stack from the frame that the core halted in.
pub open spec fn first_walk(pc: u32, debug_frame: Seq<u8>, names: Seq<RangeNameView>) -> BacktraceView {
    BacktraceView {
        debug_frame,
        lookups: Seq::empty(),
        names,
        registers: map![LR => 0u32, SP => 0u32],
        pc,
        frame: 0,
        top_exception: None,
        phase: PhaseView::Start,
    }
}

impl SessionView {
    /// The run goes on after the task.
    pub open spec fn act(self, stage: StageView, task: Task) -> (SessionView, TurnView) {
        (SessionView { stage, ..self }, TurnView { lines: seq![], task })
    }

    /// The operation with the index is performed, or else the program runs.
    pub open spec fn perform(self, index: nat) -> (SessionView, TurnView) {
        if index < self.operations.len() {
            self.act(StageView::Loading { index: index + 1 }, Task::Perform(index as usize))
        } else {
            self.act(StageView::Interrupts, Task::HandleInterrupt)
        }
    }

    /// The program is watched, with log messages or without.
    pub open spec fn watch(self, logging: Result<(), LoggingError>) -> (SessionView, TurnView) {
        SessionView { logging, ..self }.act(
            StageView::Watching { was_halted: false },
            Task::CheckContinue,
        )
    }

    /// The program counter is read.
    pub open spec fn count(self) -> (SessionView, TurnView) {
        self.act(StageView::Counter, Task::ReadRegister(PC))
    }

    /// The walk goes one step on.
    pub open spec fn unwind(self, walk: BacktraceView, reply: ReplyView) -> (SessionView, TurnView) {
        let (walk, step) = walk.step(reply);
        let unwinding = StageView::Unwinding { walk };
        let (stage, task) = match step.action {
            Action::ReadRegister(register) => (unwinding, Task::ReadRegister(register)),
            Action::ReadWord(address) => (unwinding, Task::ReadWord(address)),
            Action::ReadWords { address, count } => (unwinding, Task::ReadWords { address, count }),
            Action::Continue => (unwinding, Task::Continue),
            Action::Finish(Ok(top_exception)) => (
                StageView::Resetting { top_exception },
                Task::ResetAndHalt,
            ),
            Action::Finish(Err(error)) => (
                StageView::Over,
                Task::Fail(SessionError::Unwind(error)),
            ),
            Action::Fail(fault) => (StageView::Over, Task::Crash(fault)),
        };
        (SessionView { stage, ..self }, TurnView { lines: step.lines, task })
    }

    /// The step that the answer leads to.
    pub open spec fn step(self, answer: AnswerView) -> (SessionView, TurnView) {
        match self.stage {
            StageView::Start => self.act(StageView::Probes, Task::ListProbes),
            StageView::Probes => if answer->Count_0 == 0 {
                self.act(StageView::Over, Task::Fail(SessionError::NoProbe))
            } else {
                self.act(StageView::Opening, Task::OpenProbe)
            },
            StageView::Opening => self.perform(0),
            StageView::Loading { index } => self.perform(index),
            StageView::Interrupts => match self.rtt_addr {
                Some(address) => self.act(
                    StageView::Attaching { address, try_index: 0 },
                    Task::AttachLog(address),
                ),
                None => self.watch(Err(LoggingError::NoControlBlock)),
            },
            StageView::Attaching { address, try_index } => match after_attempt(
                try_index,
                answer->Attempt_0,
            ) {
                AfterAttempt::Retry => self.act(
                    StageView::Attaching { address, try_index: try_index + 1 },
                    Task::AttachLog(address),
                ),
                AfterAttempt::TakeChannel => self.act(StageView::Channel, Task::TakeChannel),
                AfterAttempt::GiveUp(error) => self.watch(Err(error)),
            },
            StageView::Channel => if answer->Flag_0 {
                self.watch(Ok(()))
            } else {
                self.watch(Err(LoggingError::NoChannel))
            },
            StageView::Watching { was_halted } => if !answer->Flag_0 {
                self.act(StageView::Leaving, Task::CheckContinue)
            } else if self.logging is Ok {
                self.act(StageView::Printing { was_halted }, Task::ReadLog)
            } else {
                self.act(StageView::Polling { was_halted }, Task::PollHalted)
            },
            StageView::Printing { was_halted } => self.act(
                StageView::Polling { was_halted },
                Task::PollHalted,
            ),
            StageView::Polling { was_halted } => if answer->Flag_0 && was_halted {
                self.act(StageView::Leaving, Task::CheckContinue)
            } else {
                self.act(
                    StageView::Watching { was_halted: answer->Flag_0 },
                    Task::CheckContinue,
                )
            },
            // An interrupt stops the microcontroller.
            StageView::Leaving => if !answer->Flag_0 {
                self.act(StageView::Halting, Task::HaltCore)
            } else {
                self.count()
            },
            StageView::Halting => self.count(),
            StageView::Counter => match (self.debug_frame, self.names) {
                (None, _) => self.act(StageView::Over, Task::Fail(SessionError::NoDebugFrame)),
                (_, None) => self.act(StageView::Over, Task::Fail(SessionError::NoSymtab)),
                (Some(debug_frame), Some(names)) => self.unwind(
                    first_walk(answer->Value_0, debug_frame, names),
                    ReplyView::Nothing,
                ),
            },
            StageView::Unwinding { walk } => self.unwind(walk, reply_of(answer)),
            StageView::Resetting { top_exception } => match self.logging {
                Err(error) => self.act(StageView::Over, Task::Fail(SessionError::Logging(error))),
                Ok(()) => self.act(StageView::Over, Task::Exit(exit_code_of(top_exception))),
            },
            StageView::Over => self.act(StageView::Over, Task::Continue),
        }
    }

    /// Whether the answer is of the kind that the last task asked for.
    pub open spec fn accepts(self, answer: AnswerView) -> bool {
        match self.stage {
            StageView::Probes => answer is Count,
            StageView::Attaching { .. } => answer is Attempt,
            StageView::Channel | StageView::Watching { .. } | StageView::Polling { .. }
            | StageView::Leaving => answer is Flag,
            StageView::Counter => answer is Value,
            StageView::Unwinding { walk } => walk.accepts(reply_of(answer)),
            _ => true,
        }
    }

    /// What holds of every run: the names come in the order of their addresses, the operations and
    /// the attempts are counted, and a walk is a valid one.
    pub open spec fn valid(self) -> bool {
        &&& self.names matches Some(names) ==> sorted_by_start(names)
        &&& self.operations.len() <= usize::MAX
        &&& match self.stage {
            StageView::Loading { index } => index <= self.operations.len(),
            StageView::Attaching { address, try_index } => {
                self.rtt_addr == Some(address) && try_index <= NUM_RETRIES
            },
            StageView::Unwinding { walk } => walk.valid(),
            _ => true,
        }
    }
}

impl<'a> Session<'a> {
    /// A run of the program.
    pub fn new(program: &'a Program) -> (session: Self)
        requires
            program.range_names matches Some(names) ==> sorted_by_start(range_names_view(names@)),
        ensures
            session@ == (SessionView {
                operations: start_operations(
                    loaded_view(program.sections@),
                    optional_data(program.dotdata),
                    program.registers,
                ),
                rtt_addr: program.rtt_addr,
                debug_frame: optional_bytes(program.debug_frame),
                names: optional_names_view(program.range_names),
                logging: Err(LoggingError::NoControlBlock),
                stage: StageView::Start,
            }),
            session@.valid(),
    {
        let operations: Vec<Operation> = operations_for(program);
        assert(operations_view(operations@).len() == operations.len());
        Session {
            program,
            operations,
            logging: Err(LoggingError::NoControlBlock),
            stage: Stage::Start,
        }
    }

    /// The operation with the index.
    pub fn operation(&self, index: usize) -> (operation: &Operation)
        requires
            index < self@.operations.len(),
        ensures
            operation@ == self@.operations[index as int],
    {
        &self.operations[index]
    }

    fn act(&mut self, stage: Stage<'a>, task: Task) -> (turn: Turn)
        ensures
            (final(self)@, turn@) == old(self)@.act(stage@, task),
    {
        self.stage = stage;
        let lines: Vec<String> = Vec::new();
        assert(lines_view(lines@) =~= seq![]);
        Turn { lines, task }
    }

    fn perform(&mut self, index: usize) -> (turn: Turn)
        ensures
            (final(self)@, turn@) == old(self)@.perform(index as nat),
    {
        if index < self.operations.len() {
            self.act(Stage::Loading { index: index + 1 }, Task::Perform(index))
        } else {
            self.act(Stage::Interrupts, Task::HandleInterrupt)
        }
    }

    fn watch(&mut self, logging: Result<(), LoggingError>) -> (turn: Turn)
        ensures
            (final(self)@, turn@) == old(self)@.watch(logging),
    {
        self.logging = logging;
        self.act(Stage::Watching { was_halted: false }, Task::CheckContinue)
    }

    fn count(&mut self) -> (turn: Turn)
        ensures
            (final(self)@, turn@) == old(self)@.count(),
    {
        self.act(Stage::Counter, Task::ReadRegister(PC))
    }

    fn unwind(&mut self, walk: Backtrace<'a>, reply: Reply) -> (turn: Turn)
        requires
            walk@.valid(),
            walk@.accepts(reply@),
        ensures
            (final(self)@, turn@) == old(self)@.unwind(walk@, reply@),
            final(self)@.stage matches StageView::Unwinding { walk } ==> walk.valid(),
    {
        let mut walk: Backtrace<'a> = walk;
        let Step { lines, action } = walk.step(reply);
        let task: Task = match action {
            Action::ReadRegister(register) => Task::ReadRegister(register),
            Action::ReadWord(address) => Task::ReadWord(address),
            Action::ReadWords { address, count } => Task::ReadWords { address, count },
            Action::Continue => Task::Continue,
            Action::Finish(Ok(top_exception)) => {
                self.stage = Stage::Resetting { top_exception };
                return Turn { lines, task: Task::ResetAndHalt };
            },
            Action::Finish(Err(error)) => {
                self.stage = Stage::Over;
                return Turn { lines, task: Task::Fail(SessionError::Unwind(error)) };
            },
            Action::Fail(fault) => {
                self.stage = Stage::Over;
                return Turn { lines, task: Task::Crash(fault) };
            },
        };
        self.stage = Stage::Unwinding { walk };
        Turn { lines, task }
    }

    /// Takes the answer to the last task, and says what to print and what to do next.
    pub fn step(&mut self, answer: Answer) -> (turn: Turn)
        requires
            old(self)@.valid(),
            old(self)@.accepts(answer@),
        ensures
            final(self)@.valid(),
            (final(self)@, turn@) == old(self)@.step(answer@),
    {
        let flag = match &answer {
            Answer::Flag(flag) => *flag,
            _ => false,
        };
        let mut stage: Stage<'a> = Stage::Over;
        core::mem::swap(&mut stage, &mut self.stage);
        match stage {
            Stage::Start => self.act(Stage::Probes, Task::ListProbes),
            Stage::Probes => match answer {
                Answer::Count(0) => self.act(Stage::Over, Task::Fail(SessionError::NoProbe)),
                _ => self.act(Stage::Opening, Task::OpenProbe),
            },
            Stage::Opening => self.perform(0),
            Stage::Loading { index } => self.perform(index),
            Stage::Interrupts => match self.program.rtt_addr {
                Some(address) => self.act(
                    Stage::Attaching { address, try_index: 0 },
                    Task::AttachLog(address),
                ),
                None => self.watch(Err(LoggingError::NoControlBlock)),
            },
            Stage::Attaching { address, try_index } => {
                let attempt: Attempt = match answer {
                    Answer::Attempt(attempt) => attempt,
                    _ => Attempt::Failed,
                };
                match decide_after_attempt(try_index, attempt) {
                    AfterAttempt::Retry => self.act(
                        Stage::Attaching { address, try_index: try_index + 1 },
                        Task::AttachLog(address),
                    ),
                    AfterAttempt::TakeChannel => self.act(Stage::Channel, Task::TakeChannel),
                    AfterAttempt::GiveUp(error) => self.watch(Err(error)),
                }
            },
            Stage::Channel => {
                if flag {
                    self.watch(Ok(()))
                } else {
                    self.watch(Err(LoggingError::NoChannel))
                }
            },
            Stage::Watching { was_halted } => {
                if !flag {
                    self.act(Stage::Leaving, Task::CheckContinue)
                } else if self.logging.is_ok() {
                    self.act(Stage::Printing { was_halted }, Task::ReadLog)
                } else {
                    self.act(Stage::Polling { was_halted }, Task::PollHalted)
                }
            },
            Stage::Printing { was_halted } => self.act(
                Stage::Polling { was_halted },
                Task::PollHalted,
            ),
            Stage::Polling { was_halted } => {
                if flag && was_halted {
                    self.act(Stage::Leaving, Task::CheckContinue)
                } else {
                    self.act(Stage::Watching { was_halted: flag }, Task::CheckContinue)
                }
            },
            Stage::Leaving => {
                if !flag {
                    self.act(Stage::Halting, Task::HaltCore)
                } else {
                    self.count()
                }
            },
            Stage::Halting => self.count(),
            Stage::Counter => {
                let pc: u32 = match answer {
                    Answer::Value(pc) => pc,
                    _ => 0,
                };
                let program: &'a Program = self.program;
                match (&program.debug_frame, &program.range_names) {
                    (None, _) => self.act(
                        Stage::Over,
                        Task::Fail(SessionError::NoDebugFrame),
                    ),
                    (_, None) => self.act(Stage::Over, Task::Fail(SessionError::NoSymtab)),
                    (Some(debug_frame), Some(range_names)) => {
                        let walk: Backtrace<'a> = Backtrace::new(
                            pc,
                            debug_frame.as_slice(),
                            range_names,
                        );
                        self.unwind(walk, Reply::Nothing)
                    },
                }
            },
            Stage::Unwinding { walk } => self.unwind(walk, to_reply(answer)),
            Stage::Resetting { top_exception } => match self.logging {
                Err(error) => self.act(Stage::Over, Task::Fail(SessionError::Logging(error))),
                Ok(()) => self.act(Stage::Over, Task::Exit(exit_code(top_exception))),
            },
            Stage::Over => self.act(Stage::Over, Task::Continue),
        }
    }
}

// -------------------------------------------------------------------------------------------
// Laws.

impl SessionView {
    /// The run after a number of answers.
    pub open spec fn run(self, answers: Seq<AnswerView>) -> SessionView
        decreases answers.len(),
    {
        if answers.len() == 0 {
            self
        } else {
            self.run(answers.drop_last()).step(answers.last()).0
        }
    }

    /// The task that the last of a number of answers leads to.
    pub open spec fn task_after(self, answers: Seq<AnswerView>) -> Task {
        self.run(answers.drop_last()).step(answers.last()).1.task
    }

    /// The run after one more round, in which the user did not interrupt and the core was halted or
    /// not.
    pub open spec fn after_round(self, halted: bool) -> SessionView {
        let asked = self.step(AnswerView::Flag(true)).0;
        let printed = if asked.stage is Printing {
            asked.step(AnswerView::Done).0
        } else {
            asked
        };
        printed.step(AnswerView::Flag(halted)).0
    }

    /// The run after a number of such rounds.
    pub open spec fn after_rounds(self, polls: Seq<bool>) -> SessionView
        decreases polls.len(),
    {
        if polls.len() == 0 {
            self
        } else {
            self.after_rounds(polls.drop_last()).after_round(polls.last())
        }
    }
}

/// Whether the core was found halted twice in a row.
pub open spec fn halted_twice(polls: Seq<bool>) -> bool {
    exists|i: int| 0 < i < polls.len() && polls[i - 1] && #[trigger] polls[i]
}

/// The operations are performed in order, each once, before anything else is done.
pub proof fn law_operations_are_performed_in_order(session: SessionView, answers: Seq<AnswerView>)
    requires
        session.stage is Opening,
        0 < answers.len() <= session.operations.len(),
        session.operations.len() <= usize::MAX,
    ensures
        session.task_after(answers) == Task::Perform((answers.len() - 1) as usize),
        session.run(answers) == (SessionView {
            stage: StageView::Loading { index: answers.len() },
            ..session
        }),
    decreases answers.len(),
{
    if answers.len() == 1 {
        assert(session.run(answers.drop_last()) == session);
    } else {
        law_operations_are_performed_in_order(session, answers.drop_last());
    }
}

/// As long as the core is not found halted twice in a row, the program is watched.
pub proof fn law_running_program_is_watched(session: SessionView, polls: Seq<bool>)
    requires
        session.stage == (StageView::Watching { was_halted: false }),
        !halted_twice(polls),
    ensures
        session.after_rounds(polls) == (SessionView {
            stage: StageView::Watching { was_halted: polls.len() > 0 && polls.last() },
            ..session
        }),
    decreases polls.len(),
{
    if polls.len() > 0 {
        let before = polls.drop_last();
        assert forall|i: int| 0 < i < before.len() && before[i - 1] implies !(
        #[trigger] before[i]) by {
            assert(polls[i - 1] == before[i - 1] && polls[i] == before[i]);
        }
        law_running_program_is_watched(session, before);
        if before.len() > 0 {
            assert(polls[polls.len() - 1] == polls.last());
            assert(polls[polls.len() - 1 - 1] == before.last());
        }
    }
}

/// Once the core is found halted twice in a row, the program is no longer watched.
pub proof fn law_halted_program_is_left(session: SessionView, polls: Seq<bool>)
    requires
        session.stage == (StageView::Watching { was_halted: false }),
        !halted_twice(polls),
        polls.len() > 0,
        polls.last(),
    ensures
        session.after_rounds(polls.push(true)) == (SessionView {
            stage: StageView::Leaving,
            ..session
        }),
{
    law_running_program_is_watched(session, polls);
    assert(polls.push(true).drop_last() =~= polls);
}

/// The program is watched until the user interrupts or the core is found halted twice in a row, and
/// for no other reason.
pub proof fn law_watch_ends_only_by_interrupt_or_halt(session: SessionView, answer: AnswerView)
    ensures
        session.step(answer).0.stage is Leaving <==> match session.stage {
            StageView::Watching { .. } => !answer->Flag_0,
            StageView::Polling { was_halted } => was_halted && answer->Flag_0,
            _ => false,
        },
{
}

/// An interrupt stops the core before its registers are read, and otherwise it is left as it is.
pub proof fn law_interrupt_halts_the_core(session: SessionView, keep_going: bool)
    requires
        session.stage is Leaving,
    ensures
        ({
            let (next, turn) = session.step(AnswerView::Flag(keep_going));
            if keep_going {
                turn.task == Task::ReadRegister(PC)
            } else {
                &&& turn.task == Task::HaltCore
                &&& next.step(AnswerView::Done).1.task == Task::ReadRegister(PC)
            }
        }),
{
}

/// A run ends with an exit code only after the stack was walked to its end and the core was reset:
/// the one of a hard fault exactly if that was the topmost exception, and otherwise zero.
pub proof fn law_exit_code_tells_a_hard_fault(session: SessionView, answer: AnswerView)
    ensures
        session.step(answer).1.task matches Task::Exit(code) ==> {
            &&& session.stage is Resetting
            &&& session.logging is Ok
            &&& code == SIGABRT <==> session.stage->top_exception == Some(TopException::HardFault)
            &&& code != SIGABRT ==> code == 0
        },
        session.step(answer).0.stage is Resetting ==> session.step(answer).1.task
            == Task::ResetAndHalt,
{
}

/// That there were no log messages is an error only after the stack was walked to its end and the
/// core was reset.
pub proof fn law_logging_error_comes_last(session: SessionView, answer: AnswerView)
    ensures
        session.step(answer).1.task matches Task::Fail(SessionError::Logging(error)) ==> {
            &&& session.stage is Resetting
            &&& session.logging == Err::<(), LoggingError>(error)
        },
        session.stage is Resetting && session.logging is Err ==> session.step(answer).1.task
            == Task::Fail(SessionError::Logging(session.logging->Err_0)),
{
}

/// What a run knows of the program does not change, and a run that is valid stays so.
#[verifier::spinoff_prover]
pub proof fn law_step_keeps_validity(session: SessionView, answer: AnswerView)
    requires
        session.valid(),
        session.accepts(answer),
    ensures
        session.step(answer).0.valid(),
        session.step(answer).0.operations == session.operations,
        session.step(answer).0.names == session.names,
        session.step(answer).0.debug_frame == session.debug_frame,
        session.step(answer).0.rtt_addr == session.rtt_addr,
{
    match session.stage {
        StageView::Unwinding { walk } => {
            lemma_unwind_keeps_validity(session, walk, reply_of(answer));
        },
        StageView::Counter => {
            if session.debug_frame is Some && session.names is Some {
                let walk = first_walk(
                    answer->Value_0,
                    session.debug_frame->Some_0,
                    session.names->Some_0,
                );
                lemma_unwind_keeps_validity(session, walk, ReplyView::Nothing);
            }
        },
        _ => {},
    }
}

/// A valid walk that goes one step on leaves the run valid.
proof fn lemma_unwind_keeps_validity(session: SessionView, walk: BacktraceView, reply: ReplyView)
    requires
        session.names matches Some(names) ==> sorted_by_start(names),
        session.operations.len() <= usize::MAX,
        walk.valid(),
        walk.accepts(reply),
    ensures
        session.unwind(walk, reply).0.valid(),
        session.unwind(walk, reply).0.operations == session.operations,
        session.unwind(walk, reply).0.names == session.names,
        session.unwind(walk, reply).0.debug_frame == session.debug_frame,
        session.unwind(walk, reply).0.rtt_addr == session.rtt_addr,
{
    law_step_keeps_walk_valid(walk, reply);
}

/// The exit code is 134 for a hard fault and zero for anything else.
pub proof fn law_exit_codes(top_exception: Option<TopException>)
    ensures
        exit_code_of(top_exception) == 134 <==> top_exception == Some(TopException::HardFault),
        exit_code_of(top_exception) != 134 ==> exit_code_of(top_exception) == 0,
{
}

/// A run begins with the list of probes: without one it ends at once, and otherwise the first one is
/// opened, however many there are, and the first operation follows.
pub proof fn law_run_begins_with_a_probe(session: SessionView, any: AnswerView, count: usize)
    requires
        session.stage is Start,
    ensures
        ({
            let (listed, turn) = session.step(any);
            let (opened, next) = listed.step(AnswerView::Count(count));
            &&& turn.task == Task::ListProbes
            &&& turn.lines.len() == 0
            &&& next.lines.len() == 0
            &&& if count == 0 {
                next.task == Task::Fail(SessionError::NoProbe)
            } else {
                next.task == Task::OpenProbe && opened == (SessionView {
                    stage: StageView::Opening,
                    ..session
                })
            }
        }),
{
}

/// Once the last operation is performed the user's interrupts are noted, and then the log is looked
/// for: at the address of the control block, where the program has one.
pub proof fn law_log_is_looked_for_once_the_program_runs(
    session: SessionView,
    a: AnswerView,
    b: AnswerView,
)
    requires
        session.stage == (StageView::Loading { index: session.operations.len() }),
    ensures
        ({
            let (noted, turn) = session.step(a);
            let (next, then) = noted.step(b);
            &&& turn.task == Task::HandleInterrupt
            &&& match session.rtt_addr {
                Some(address) => {
                    &&& then.task == Task::AttachLog(address)
                    &&& next == (SessionView {
                        stage: StageView::Attaching { address, try_index: 0 },
                        ..session
                    })
                },
                None => {
                    &&& then.task == Task::CheckContinue
                    &&& next == (SessionView {
                        logging: Err(LoggingError::NoControlBlock),
                        stage: StageView::Watching { was_halted: false },
                        ..session
                    })
                },
            }
        }),
{
}

/// The log is there exactly if one of the attempts attached and the control block has a channel. A
/// control block that is not found is sought again at the same address, five times at most.
pub proof fn law_log_is_there_if_it_was_attached(
    session: SessionView,
    address: u32,
    try_index: nat,
    attempt: Attempt,
    has_channel: bool,
)
    requires
        session.stage == (StageView::Attaching { address, try_index }),
    ensures
        ({
            let (next, turn) = session.step(AnswerView::Attempt(attempt));
            let watching = StageView::Watching { was_halted: false };
            match attempt {
                Attempt::Attached => {
                    let (taken, then) = next.step(AnswerView::Flag(has_channel));
                    &&& turn.task == Task::TakeChannel
                    &&& then.task == Task::CheckContinue
                    &&& taken == (SessionView {
                        logging: if has_channel {
                            Ok(())
                        } else {
                            Err(LoggingError::NoChannel)
                        },
                        stage: watching,
                        ..session
                    })
                },
                Attempt::ControlBlockNotFound => if try_index < 5 {
                    &&& turn.task == Task::AttachLog(address)
                    &&& next == (SessionView {
                        stage: StageView::Attaching { address, try_index: try_index + 1 },
                        ..session
                    })
                } else {
                    &&& turn.task == Task::CheckContinue
                    &&& next == (SessionView {
                        logging: Err(LoggingError::ControlBlockNotFound),
                        stage: watching,
                        ..session
                    })
                },
                Attempt::Failed => {
                    &&& turn.task == Task::CheckContinue
                    &&& next == (SessionView {
                        logging: Err(LoggingError::AttachFailed),
                        stage: watching,
                        ..session
                    })
                },
            }
        }),
{
}

/// In every round that the user does not interrupt, the log is read, if there is one, and then the core
/// is asked whether it is halted. An interrupt ends the rounds before that.
pub proof fn law_log_is_read_in_every_round(session: SessionView, was_halted: bool)
    requires
        session.stage == (StageView::Watching { was_halted }),
    ensures
        ({
            let (asked, turn) = session.step(AnswerView::Flag(true));
            let polling = SessionView { stage: StageView::Polling { was_halted }, ..session };
            if session.logging is Ok {
                let (read, then) = asked.step(AnswerView::Done);
                turn.task == Task::ReadLog && then.task == Task::PollHalted && read == polling
            } else {
                turn.task == Task::PollHalted && asked == polling
            }
        }),
        session.step(AnswerView::Flag(false)).0 == (SessionView {
            stage: StageView::Leaving,
            ..session
        }),
{
}

/// The stack is walked from the program counter that the core holds, with the call frame information
/// and the names of the program, and without either the run ends with an error.
pub proof fn law_walk_begins_at_the_program_counter(session: SessionView, pc: u32)
    requires
        session.stage is Counter,
    ensures
        ({
            let (next, turn) = session.step(AnswerView::Value(pc));
            match (session.debug_frame, session.names) {
                (None, _) => turn.task == Task::Fail(SessionError::NoDebugFrame),
                (_, None) => turn.task == Task::Fail(SessionError::NoSymtab),
                (Some(debug_frame), Some(names)) => {
                    &&& turn.task == Task::ReadRegister(13)
                    &&& turn.lines.len() == 0
                    &&& next.stage matches StageView::Unwinding { walk } && {
                        &&& walk.pc == pc
                        &&& walk.debug_frame == debug_frame
                        &&& walk.names == names
                        &&& walk.frame == 0
                        &&& walk.lookups.len() == 0
                        &&& walk.top_exception is None
                    }
                },
            }
        }),
{
}

/// While the stack is walked, the run prints what the walk prints and does what the walk asks for. It
/// ends with the walk's error, and after a walk to the end the core is reset, whatever the walk found.
pub proof fn law_run_does_what_the_walk_asks_for(
    session: SessionView,
    walk: BacktraceView,
    answer: AnswerView,
)
    requires
        session.stage == (StageView::Unwinding { walk }),
    ensures
        ({
            let reply = match answer {
                AnswerView::Value(value) => ReplyView::Value(value),
                AnswerView::Words(words) => ReplyView::Words(words),
                _ => ReplyView::Nothing,
            };
            let (walked, step) = walk.step(reply);
            let (next, turn) = session.step(answer);
            &&& turn.lines == step.lines
            &&& next == (SessionView { stage: next.stage, ..session })
            &&& match step.action {
                Action::ReadRegister(register) => turn.task == Task::ReadRegister(register),
                Action::ReadWord(address) => turn.task == Task::ReadWord(address),
                Action::ReadWords { address, count } => turn.task == (Task::ReadWords {
                    address,
                    count,
                }),
                Action::Continue => turn.task == Task::Continue,
                Action::Finish(Ok(top_exception)) => turn.task == Task::ResetAndHalt && next.stage
                    == (StageView::Resetting { top_exception }),
                Action::Finish(Err(error)) => turn.task == Task::Fail(SessionError::Unwind(error)),
                Action::Fail(fault) => turn.task == Task::Crash(fault),
            }
            &&& !(step.action is Finish || step.action is Fail) ==> next.stage
                == (StageView::Unwinding { walk: walked })
        }),
{
}

/// After a walk to the end a run with a log exits with 134 where the topmost exception was a hard fault
/// and with zero otherwise, and one without a log ends with the error of that.
pub proof fn law_run_ends_with_what_it_found(
    session: SessionView,
    top_exception: Option<TopException>,
    answer: AnswerView,
)
    requires
        session.stage == (StageView::Resetting { top_exception }),
    ensures
        ({
            let turn = session.step(answer).1;
            match session.logging {
                Err(error) => turn.task == Task::Fail(SessionError::Logging(error)),
                Ok(()) => if top_exception == Some(TopException::HardFault) {
                    turn.task == Task::Exit(134)
                } else {
                    turn.task == Task::Exit(0)
                },
            }
        }),
{
}

/// Whether there is a log does not change once the program is watched.
pub proof fn law_log_does_not_change(session: SessionView, answer: AnswerView)
    requires
        !(session.stage is Interrupts || session.stage is Attaching || session.stage is Channel),
    ensures
        session.step(answer).0.logging == session.logging,
{
}

/// What is said of an error of the walk or of the log is what they say.
pub proof fn law_errors_are_told_as_they_are(unwind: UnwindError, logging: LoggingError)
    ensures
        SessionError::Unwind(unwind).text() == Some(unwind.text()),
        SessionError::Logging(logging).text() == logging.text(),
{
}

} // verus!
