use probe_run::logging::{
    check_defmt, decide_after_attempt, AfterAttempt, Attempt, DefmtCheck, Frames, LoggingError,
    NUM_RETRIES,
};

#[test]
fn attach_is_retried_until_the_last_attempt() {
    assert_eq!(NUM_RETRIES, 5);
    for try_index in 0..5 {
        assert_eq!(
            decide_after_attempt(try_index, Attempt::ControlBlockNotFound),
            AfterAttempt::Retry
        );
    }
    assert_eq!(
        decide_after_attempt(5, Attempt::ControlBlockNotFound),
        AfterAttempt::GiveUp(LoggingError::ControlBlockNotFound)
    );
}

#[test]
fn other_outcomes_of_an_attempt_are_final() {
    for try_index in 0..6 {
        assert_eq!(decide_after_attempt(try_index, Attempt::Attached), AfterAttempt::TakeChannel);
        assert_eq!(
            decide_after_attempt(try_index, Attempt::Failed),
            AfterAttempt::GiveUp(LoggingError::AttachFailed)
        );
    }
}

#[test]
fn logging_errors_have_texts() {
    assert_eq!(
        LoggingError::NoControlBlock.message(),
        Some("No log messages to print, waited for device to halt")
    );
    assert_eq!(LoggingError::NoChannel.message(), Some("RTT up channel 0 not found"));
    assert_eq!(LoggingError::ControlBlockNotFound.message(), None);
    assert_eq!(LoggingError::AttachFailed.message(), None);
}

#[test]
fn table_of_messages_has_to_match_the_flag() {
    assert_eq!(check_defmt(true, true), DefmtCheck::Fine);
    assert_eq!(check_defmt(false, false), DefmtCheck::Fine);
    assert_eq!(check_defmt(false, true), DefmtCheck::TableMissing);
    assert_eq!(check_defmt(true, false), DefmtCheck::TableUnused);
    assert_eq!(DefmtCheck::Fine.message(), None);
    assert_eq!(DefmtCheck::TableMissing.message(), Some(".`.defmt` section not found"));
    assert_eq!(
        DefmtCheck::TableUnused.message(),
        Some("warning: application may be using `defmt` but `--defmt` flag was not used")
    );
}

#[test]
fn decoded_bytes_leave_from_the_front() {
    let mut frames = Frames::new();
    assert!(frames.bytes().is_empty());
    frames.append(&[1, 2, 3]);
    frames.append(&[4, 5]);
    assert_eq!(frames.bytes(), &[1, 2, 3, 4, 5]);
    frames.consume(2);
    assert_eq!(frames.bytes(), &[3, 4, 5]);
    frames.append(&[6]);
    assert!(frames.try_consume(4));
    assert!(frames.bytes().is_empty());
    assert!(frames.try_consume(0));
    assert!(!frames.try_consume(1));
}

#[test]
fn too_many_consumed_bytes_change_nothing() {
    let mut frames = Frames::new();
    frames.append(&[7, 8]);
    assert!(!frames.try_consume(3));
    assert_eq!(frames.bytes(), &[7, 8]);
}
