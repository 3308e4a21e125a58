//! The log messages that the program sends over RTT: how the channel is found, and what is kept of
//! encoded messages until they are complete.
use vstd::prelude::*;
use vstd::slice::{slice_subrange, slice_to_vec};
use vstd::string::*;

verus! {

// -------------------------------------------------------------------------------------------
// Attaching.

/// How often an attempt to attach is repeated (picked at random, increase if necessary).
pub const NUM_RETRIES: usize = 5;

/// What came of an attempt to attach to the RTT control block.
#[derive(Clone, Copy, PartialEq, Eq, Debug, Structural)]
pub enum Attempt {
    /// It is attached.
    Attached,
    /// The control block is not initialized (yet).
    ControlBlockNotFound,
    /// Any other error.
    Failed,
}

/// Why there are no log messages to print.
#[derive(Clone, Copy, PartialEq, Eq, Debug, Structural)]
pub enum LoggingError {
    /// The program has no RTT control block.
    NoControlBlock,
    /// The control block was not initialized in time.
    ControlBlockNotFound,
    /// The last attempt to attach failed.
    AttachFailed,
    /// The control block has no channel to read from.
    NoChannel,
}

impl LoggingError {
    /// What is said of the error, but for errors of the last attempt to attach, which come with a
    /// text of their own.
    pub open spec fn text(self) -> Option<Seq<char>> {
        match self {
            LoggingError::NoControlBlock => Some(
                "No log messages to print, waited for device to halt"@,
            ),
            LoggingError::NoChannel => Some("RTT up channel 0 not found"@),
            _ => None,
        }
    }

    /// What is said of the error, if it has no text of its own.
    pub fn message(&self) -> (message: Option<&'static str>)
        ensures
            match message {
                Some(message) => self.text() == Some(message@),
                None => self.text() is None,
            },
    {
        match self {
            LoggingError::NoControlBlock => Some(
                "No log messages to print, waited for device to halt",
            ),
            LoggingError::NoChannel => Some("RTT up channel 0 not found"),
            _ => None,
        }
    }
}

/// What to do after an attempt to attach.
#[derive(Clone, Copy, PartialEq, Eq, Debug, Structural)]
pub enum AfterAttempt {
    /// Try again.
    Retry,
    /// Take the channel.
    TakeChannel,
    /// Go on without log messages.
    GiveUp(LoggingError),
}

/// What to do after the attempt with the index.
pub open spec fn after_attempt(try_index: nat, attempt: Attempt) -> AfterAttempt {
    match attempt {
        Attempt::Attached => AfterAttempt::TakeChannel,
        Attempt::ControlBlockNotFound => if try_index < NUM_RETRIES {
            AfterAttempt::Retry
        } else {
            AfterAttempt::GiveUp(LoggingError::ControlBlockNotFound)
        },
        Attempt::Failed => AfterAttempt::GiveUp(LoggingError::AttachFailed),
    }
}

/// Decides what to do after the attempt with the index.
pub fn decide_after_attempt(try_index: usize, attempt: Attempt) -> (next: AfterAttempt)
    ensures
        next == after_attempt(try_index as nat, attempt),
{
    match attempt {
        Attempt::Attached => AfterAttempt::TakeChannel,
        Attempt::ControlBlockNotFound => {
            if try_index < NUM_RETRIES {
                AfterAttempt::Retry
            } else {
                AfterAttempt::GiveUp(LoggingError::ControlBlockNotFound)
            }
        },
        Attempt::Failed => AfterAttempt::GiveUp(LoggingError::AttachFailed),
    }
}

// -------------------------------------------------------------------------------------------
// Encoded messages.

/// What is to be said about encoded messages before the program is loaded.
#[derive(Clone, Copy, PartialEq, Eq, Debug, Structural)]
pub enum DefmtCheck {
    /// Nothing.
    Fine,
    /// The program has no table of messages, and they cannot be decoded without one.
    TableMissing,
    /// The program has a table of messages that is not used.
    TableUnused,
}

/// What is to be said of a program with or without a table of messages, where the user wants encoded
/// messages or not.
pub open spec fn defmt_check(has_table: bool, wanted: bool) -> DefmtCheck {
    if wanted && !has_table {
        DefmtCheck::TableMissing
    } else if has_table && !wanted {
        DefmtCheck::TableUnused
    } else {
        DefmtCheck::Fine
    }
}

/// Says what is to be said of a program with or without a table of messages.
pub fn check_defmt(has_table: bool, wanted: bool) -> (check: DefmtCheck)
    ensures
        check == defmt_check(has_table, wanted),
{
    if !has_table && wanted {
        DefmtCheck::TableMissing
    } else if has_table && !wanted {
        DefmtCheck::TableUnused
    } else {
        DefmtCheck::Fine
    }
}

impl DefmtCheck {
    /// The text of what is to be said, if anything.
    pub open spec fn text(self) -> Option<Seq<char>> {
        match self {
            DefmtCheck::Fine => None,
            DefmtCheck::TableMissing => Some(".`.defmt` section not found"@),
            DefmtCheck::TableUnused => Some(
                "warning: application may be using `defmt` but `--defmt` flag was not used"@,
            ),
        }
    }

    /// The text of what is to be said, if anything.
    pub fn message(&self) -> (message: Option<&'static str>)
        ensures
            match message {
                Some(message) => self.text() == Some(message@),
                None => self.text() is None,
            },
    {
        match self {
            DefmtCheck::Fine => None,
            DefmtCheck::TableMissing => Some(".`.defmt` section not found"),
            DefmtCheck::TableUnused => Some(
                "warning: application may be using `defmt` but `--defmt` flag was not used",
            ),
        }
    }
}

/// The bytes of encoded messages that have been read and not been decoded yet.
#[derive(Debug)]
pub struct Frames {
    bytes: Vec<u8>,
}

impl View for Frames {
    type V = Seq<u8>;

    closed spec fn view(&self) -> Seq<u8> {
        self.bytes@
    }
}

impl Frames {
    /// No bytes.
    pub fn new() -> (frames: Frames)
        ensures
            frames@ == Seq::<u8>::empty(),
    {
        Frames { bytes: Vec::new() }
    }

    /// The bytes.
    pub fn bytes(&self) -> (bytes: &[u8])
        ensures
            bytes@ == self@,
    {
        self.bytes.as_slice()
    }

    /// Appends bytes that have been read.
    pub fn append(&mut self, read: &[u8])
        ensures
            final(self)@ == old(self)@ + read@,
    {
        let mut read: Vec<u8> = slice_to_vec(read);
        self.bytes.append(&mut read);
    }

    /// Drops the bytes of a message that has been decoded.
    pub fn consume(&mut self, consumed: usize)
        requires
            consumed <= old(self)@.len(),
        ensures
            old(self)@ == old(self)@.take(consumed as int) + final(self)@,
    {
        let rest: &[u8] = slice_subrange(self.bytes.as_slice(), consumed, self.bytes.len());
        let rest: Vec<u8> = slice_to_vec(rest);
        self.bytes = rest;
        assert(old(self)@ =~= old(self)@.take(consumed as int) + self@);
    }

    /// Drops the bytes of a message that has been decoded, if there are that many.
    pub fn try_consume(&mut self, consumed: usize) -> (ok: bool)
        ensures
            ok == (consumed <= old(self)@.len()),
            ok ==> old(self)@ == old(self)@.take(consumed as int) + final(self)@,
            !ok ==> final(self)@ == old(self)@,
    {
        if consumed <= self.bytes.len() {
            self.consume(consumed);
            true
        } else {
            false
        }
    }
}

// -------------------------------------------------------------------------------------------
// Laws.

/// The number of attempts, from the one with the index on, where `outcome` says what comes of each.
pub open spec fn attempts(outcome: spec_fn(nat) -> Attempt, try_index: nat) -> nat
    decreases NUM_RETRIES - try_index,
{
    if try_index < NUM_RETRIES && after_attempt(try_index, outcome(try_index)) is Retry {
        1 + attempts(outcome, try_index + 1)
    } else {
        1
    }
}

/// Whatever comes of the attempts, there is one more of them than retries at most.
pub proof fn law_attempts_are_bounded(outcome: spec_fn(nat) -> Attempt, try_index: nat)
    requires
        try_index <= NUM_RETRIES,
    ensures
        attempts(outcome, try_index) + try_index <= NUM_RETRIES + 1,
        after_attempt(
            (try_index + attempts(outcome, try_index) - 1) as nat,
            outcome((try_index + attempts(outcome, try_index) - 1) as nat),
        ) !is Retry,
    decreases NUM_RETRIES - try_index,
{
    if try_index < NUM_RETRIES && after_attempt(try_index, outcome(try_index)) is Retry {
        law_attempts_are_bounded(outcome, try_index + 1);
    }
}

/// A control block that is initialized by the last attempt is attached to.
pub proof fn law_late_control_block_is_attached(
    outcome: spec_fn(nat) -> Attempt,
    try_index: nat,
    ready: nat,
)
    requires
        try_index <= ready <= NUM_RETRIES,
        forall|i: nat|
            try_index <= i < ready ==> #[trigger] outcome(i) == Attempt::ControlBlockNotFound,
        outcome(ready) == Attempt::Attached,
    ensures
        try_index + attempts(outcome, try_index) == ready + 1,
        after_attempt(ready, outcome(ready)) is TakeChannel,
    decreases ready - try_index,
{
    if try_index < ready {
        law_late_control_block_is_attached(outcome, try_index + 1, ready);
    }
}

/// An attempt that attaches leads to the channel, and one that fails for another reason than a control
/// block that is not initialized is the last one, whichever attempt it is.
pub proof fn law_other_outcomes_are_final(try_index: nat)
    ensures
        after_attempt(try_index, Attempt::Attached) == AfterAttempt::TakeChannel,
        after_attempt(try_index, Attempt::Failed) == AfterAttempt::GiveUp(
            LoggingError::AttachFailed,
        ),
        after_attempt(try_index, Attempt::ControlBlockNotFound) == if try_index < 5 {
            AfterAttempt::Retry
        } else {
            AfterAttempt::GiveUp(LoggingError::ControlBlockNotFound)
        },
{
}

/// A control block that is never initialized is tried six times.
pub proof fn law_missing_control_block_is_tried_six_times(
    outcome: spec_fn(nat) -> Attempt,
    try_index: nat,
)
    requires
        try_index <= 5,
        forall|i: nat| #[trigger] outcome(i) == Attempt::ControlBlockNotFound,
    ensures
        attempts(outcome, try_index) + try_index == 6,
    decreases 5 - try_index,
{
    if try_index < 5 {
        law_missing_control_block_is_tried_six_times(outcome, try_index + 1);
    }
}

/// A table of messages is asked for exactly if it is missing and wanted, and the user is warned exactly
/// if it is there and not wanted.
pub proof fn law_table_is_there_if_it_is_wanted(has_table: bool, wanted: bool)
    ensures
        defmt_check(has_table, wanted) is TableMissing <==> wanted && !has_table,
        defmt_check(has_table, wanted) is TableUnused <==> has_table && !wanted,
        defmt_check(has_table, wanted) is Fine <==> has_table == wanted,
{
}

} // verus!
