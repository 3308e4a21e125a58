use std::collections::BTreeMap;

use probe_run::backtrace::{Fault, TopException, UnwindError};
use probe_run::loading::{operations_for, Operation};
use probe_run::logging::{Attempt, LoggingError};
use probe_run::program::{Data, InitialRegisters, Program, Section};
use probe_run::registers::{LR, LR_END, PC, SP, VTOR};
use probe_run::session::{exit_code, Answer, Session, SessionError, Task};

fn program(vtor: u32, rtt_addr: Option<u32>) -> Program {
    Program {
        sections: vec![
            Section { start: vtor, data: vec![0x2000_4000, 0x2000_0101] },
            Section { start: vtor + 0x100, data: vec![1, 2] },
        ],
        dotdata: Some(Data { phys: vtor + 0x200, virt: 0x2000_2000, data: vec![3] }),
        registers: InitialRegisters { sp: 0x2000_4000, pc: 0x2000_0101, vtor },
        debug_frame: Some(vec![]),
        range_names: Some(vec![
            (0x100..0x200, "main".to_string()),
            (0x200..0x300, "HardFault".to_string()),
        ]),
        rtt_addr,
    }
}

/// What the outside world answers, and what it was asked.
struct World {
    attempts: Vec<Attempt>,
    polls: Vec<bool>,
    interrupted_after: usize,
    channel: bool,
    pc: u32,
    lr: u32,
    words: BTreeMap<u32, u32>,
    rounds: usize,
    tasks: Vec<Task>,
    lines: Vec<String>,
}

fn world() -> World {
    World {
        attempts: vec![],
        polls: vec![],
        interrupted_after: usize::MAX,
        channel: true,
        pc: 0x100,
        lr: LR_END,
        words: BTreeMap::new(),
        rounds: 0,
        tasks: vec![],
        lines: vec![],
    }
}

impl World {
    fn answer(&mut self, task: Task) -> Answer {
        match task {
            Task::ListProbes => Answer::Count(2),
            Task::AttachLog(_) => Answer::Attempt(self.attempts.remove(0)),
            Task::TakeChannel => Answer::Flag(self.channel),
            Task::CheckContinue => {
                self.rounds += 1;
                Answer::Flag(self.rounds <= self.interrupted_after)
            }
            Task::PollHalted => Answer::Flag(self.polls.remove(0)),
            Task::ReadRegister(register) => Answer::Value(if register == PC {
                self.pc
            } else if register == LR {
                self.lr
            } else if register == SP {
                0x2000_1000
            } else {
                0
            }),
            Task::ReadWord(address) => Answer::Value(self.words[&address]),
            Task::ReadWords { address, count } => Answer::Words(
                (0..count as u32).map(|i| *self.words.get(&(address + 4 * i)).unwrap_or(&0)).collect(),
            ),
            _ => Answer::Done,
        }
    }

    /// Runs the program, and gives the task that ends the run.
    fn run(&mut self, program: &Program) -> Task {
        let mut session = Session::new(program);
        let mut answer = Answer::Done;
        loop {
            let turn = session.step(answer);
            self.lines.extend(turn.lines);
            self.tasks.push(turn.task);
            if matches!(turn.task, Task::Exit(_) | Task::Fail(_) | Task::Crash(_)) {
                return turn.task;
            }
            answer = self.answer(turn.task);
        }
    }

    fn count(&self, task: Task) -> usize {
        self.tasks.iter().filter(|done| **done == task).count()
    }
}

#[test]
fn halted_program_ends_with_its_backtrace() {
    let mut world = world();
    world.attempts = vec![Attempt::ControlBlockNotFound, Attempt::Attached];
    world.polls = vec![false, true, false, true, true];
    assert_eq!(world.run(&program(0, Some(0x2000_0000))), Task::Exit(0));
    assert_eq!(world.lines, vec!["stack backtrace:", "   0: 0x00000100 - main"]);
    assert_eq!(world.count(Task::AttachLog(0x2000_0000)), 2);
    assert_eq!(world.count(Task::ReadLog), 5);
    assert_eq!(world.count(Task::PollHalted), 5);
    assert_eq!(world.count(Task::HaltCore), 0);
    assert_eq!(
        world.tasks,
        vec![
            Task::ListProbes,
            Task::OpenProbe,
            Task::Perform(0),
            Task::Perform(1),
            Task::Perform(2),
            Task::Perform(3),
            Task::Perform(4),
            Task::HandleInterrupt,
            Task::AttachLog(0x2000_0000),
            Task::AttachLog(0x2000_0000),
            Task::TakeChannel,
            Task::CheckContinue,
            Task::ReadLog,
            Task::PollHalted,
            Task::CheckContinue,
            Task::ReadLog,
            Task::PollHalted,
            Task::CheckContinue,
            Task::ReadLog,
            Task::PollHalted,
            Task::CheckContinue,
            Task::ReadLog,
            Task::PollHalted,
            Task::CheckContinue,
            Task::ReadLog,
            Task::PollHalted,
            Task::CheckContinue,
            Task::ReadRegister(PC),
            Task::ReadRegister(SP),
            Task::ReadRegister(LR),
            Task::Continue,
            Task::ResetAndHalt,
            Task::Exit(0),
        ]
    );
}

#[test]
fn hard_fault_gives_the_exit_code_of_an_abort() {
    let mut world = world();
    world.attempts = vec![Attempt::Attached];
    world.polls = vec![true, true];
    world.pc = 0x200;
    world.lr = 0xffff_fff9;
    world.words.insert(0x2000_1014, LR_END);
    world.words.insert(0x2000_1018, 0x108);
    assert_eq!(world.run(&program(0, Some(4))), Task::Exit(134));
    assert_eq!(
        world.lines,
        vec![
            "stack backtrace:",
            "   0: 0x00000200 - HardFault",
            "      <exception entry>",
            "   1: 0x00000108 - main",
        ]
    );
    assert_eq!(exit_code(Some(TopException::HardFault)), 134);
    assert_eq!(exit_code(Some(TopException::Other)), 0);
    assert_eq!(exit_code(None), 0);
}

#[test]
fn interrupt_halts_the_core() {
    let mut world = world();
    world.attempts = vec![Attempt::Attached];
    world.polls = vec![false, false, true];
    world.interrupted_after = 2;
    assert_eq!(world.run(&program(0, Some(4))), Task::Exit(0));
    assert_eq!(world.count(Task::PollHalted), 2);
    assert_eq!(world.count(Task::HaltCore), 1);
}

#[test]
fn missing_probe_ends_the_run() {
    let program = program(0, None);
    let mut session = Session::new(&program);
    assert_eq!(session.step(Answer::Done).task, Task::ListProbes);
    let turn = session.step(Answer::Count(0));
    assert_eq!(turn.task, Task::Fail(SessionError::NoProbe));
    assert_eq!(SessionError::NoProbe.message().unwrap(), "no probe was found");
}

#[test]
fn missing_log_is_an_error_after_the_backtrace() {
    let mut world = world();
    world.polls = vec![true, true];
    let error = SessionError::Logging(LoggingError::NoControlBlock);
    assert_eq!(world.run(&program(0, None)), Task::Fail(error));
    assert_eq!(world.count(Task::ReadLog), 0);
    assert_eq!(world.count(Task::ResetAndHalt), 1);
    assert_eq!(world.lines.len(), 2);
    assert_eq!(
        error.message().unwrap(),
        "No log messages to print, waited for device to halt"
    );
}

#[test]
fn control_block_is_tried_six_times() {
    let mut world = world();
    world.attempts = vec![Attempt::ControlBlockNotFound; 7];
    world.polls = vec![true, true];
    let error = SessionError::Logging(LoggingError::ControlBlockNotFound);
    assert_eq!(world.run(&program(0, Some(8))), Task::Fail(error));
    assert_eq!(world.count(Task::AttachLog(8)), 6);
    assert_eq!(error.message(), None);
}

#[test]
fn failed_attach_is_not_repeated() {
    let mut world = world();
    world.attempts = vec![Attempt::Failed, Attempt::Attached];
    world.polls = vec![true, true];
    let error = SessionError::Logging(LoggingError::AttachFailed);
    assert_eq!(world.run(&program(0, Some(8))), Task::Fail(error));
    assert_eq!(world.count(Task::AttachLog(8)), 1);
}

#[test]
fn missing_channel_is_an_error() {
    let mut world = world();
    world.attempts = vec![Attempt::Attached];
    world.channel = false;
    world.polls = vec![true, true];
    let error = SessionError::Logging(LoggingError::NoChannel);
    assert_eq!(world.run(&program(0, Some(8))), Task::Fail(error));
    assert_eq!(error.message().unwrap(), "RTT up channel 0 not found");
}

#[test]
fn missing_sections_are_errors_after_the_program_halts() {
    let mut without = program(0, None);
    without.range_names = None;
    let mut first = world();
    first.polls = vec![true, true];
    assert_eq!(first.run(&without), Task::Fail(SessionError::NoSymtab));
    assert_eq!(SessionError::NoSymtab.message().unwrap(), "`.symtab` section not found");
    without.debug_frame = None;
    let mut second = world();
    second.polls = vec![true, true];
    assert_eq!(second.run(&without), Task::Fail(SessionError::NoDebugFrame));
    assert_eq!(SessionError::NoDebugFrame.message().unwrap(), "`.debug_frame` section not found");
    assert!(second.lines.is_empty());
}

#[test]
fn broken_stack_is_an_error_without_a_reset() {
    let mut world = world();
    world.polls = vec![true, true];
    world.lr = 0x102;
    let error = SessionError::Unwind(UnwindError::NoThumbBit(0x102));
    assert_eq!(world.run(&program(0, None)), Task::Fail(error));
    assert_eq!(world.count(Task::ResetAndHalt), 0);
    assert_eq!(error.message().unwrap(), "bug? LR (0x00000102) didn't have the Thumb bit set");
}

#[test]
fn faults_of_the_backtrace_end_the_run() {
    let mut program = program(0, None);
    // an endless range of addresses
    let mut frames = vec![];
    frames.extend_from_slice(&16u32.to_le_bytes());
    frames.extend_from_slice(&0xffff_ffffu32.to_le_bytes());
    frames.extend_from_slice(&[4, 0, 8, 0, 1, 0x7c, 14, 0x0c, 13, 0, 0, 0]);
    frames.extend_from_slice(&20u32.to_le_bytes());
    frames.extend_from_slice(&0u32.to_le_bytes());
    frames.extend_from_slice(&u64::MAX.to_le_bytes());
    frames.extend_from_slice(&2u64.to_le_bytes());
    program.debug_frame = Some(frames);
    let mut world = world();
    world.polls = vec![true, true];
    assert_eq!(world.run(&program), Task::Crash(Fault::UnsearchableFrames));
}

fn describe(operation: &Operation) -> String {
    match operation {
        Operation::Report(text) => format!("report {}", text),
        Operation::ResetAndHalt => "reset and halt".to_string(),
        Operation::WriteWords { address, words } => format!("words {:x} {:?}", address, words),
        Operation::WriteRegister { register, value } => format!("register {} {:x}", register, value),
        Operation::WriteWord { address, value } => format!("word {:x} {:x}", address, value),
        Operation::Run => "run".to_string(),
        Operation::Download => "download".to_string(),
        Operation::Reset => "reset".to_string(),
    }
}

#[test]
fn ram_program_is_written_before_it_runs() {
    let operations = operations_for(&program(0x2000_0000, None));
    let described: Vec<String> = operations.iter().map(describe).collect();
    assert_eq!(
        described,
        vec![
            "report flashing program ..".to_string(),
            "reset and halt".to_string(),
            "words 20000000 [536887296, 536871169]".to_string(),
            "words 20000100 [1, 2]".to_string(),
            "words 20000200 [3]".to_string(),
            format!("register {} ffffffff", LR),
            format!("register {} 20004000", SP),
            format!("register {} 20000101", PC),
            format!("word {:x} 20000000", VTOR),
            "report DONE".to_string(),
            "run".to_string(),
            "report resetting device".to_string(),
        ]
    );
}

#[test]
fn flash_program_is_only_downloaded() {
    let described: Vec<String> =
        operations_for(&program(0x1fff_fffc, None)).iter().map(describe).collect();
    assert_eq!(
        described,
        vec!["report flashing program ..", "download", "report DONE", "reset", "report resetting device"]
    );
    let program = program(0, None);
    let session = Session::new(&program);
    assert_eq!(describe(session.operation(1)), "download");
}

#[test]
fn written_words_are_in_place_when_the_program_starts() {
    let mut memory: BTreeMap<u32, u32> = BTreeMap::new();
    let mut registers: BTreeMap<u16, u32> = BTreeMap::new();
    for operation in operations_for(&program(0x2000_0000, None)) {
        match operation {
            Operation::WriteWords { address, words } => {
                for (i, word) in words.into_iter().enumerate() {
                    memory.insert(address + 4 * i as u32, word);
                }
            }
            Operation::WriteWord { address, value } => {
                memory.insert(address, value);
            }
            Operation::WriteRegister { register, value } => {
                registers.insert(register, value);
            }
            _ => {}
        }
    }
    assert_eq!(memory[&0x2000_0000], 0x2000_4000);
    assert_eq!(memory[&0x2000_0104], 2);
    assert_eq!(memory[&0x2000_0200], 3);
    assert_eq!(memory[&VTOR], 0x2000_0000);
    assert_eq!(registers[&LR], LR_END);
    assert_eq!(registers[&SP], 0x2000_4000);
    assert_eq!(registers[&PC], 0x2000_0101);
}

#[test]
fn late_control_block_is_attached() {
    let mut world = world();
    world.attempts = vec![Attempt::ControlBlockNotFound; 5];
    world.attempts.push(Attempt::Attached);
    world.polls = vec![true, true];
    assert_eq!(world.run(&program(0, Some(8))), Task::Exit(0));
    assert_eq!(world.count(Task::AttachLog(8)), 6);
}

#[test]
fn core_that_is_halted_once_is_still_watched() {
    let mut world = world();
    world.polls = vec![true, false, true, false, false, true, true];
    world.run(&program(0, None));
    assert!(world.polls.is_empty());
    assert_eq!(world.count(Task::PollHalted), 7);
}
