use rustflush::durability::{
    check_length, check_read, Action, Event, Handle, Phase, Scenario, Topology, Verifier,
};
use rustflush::failure::Failure;

fn scenario(topology: Topology, iterations: u64) -> Scenario {
    Scenario {
        path: "settings.log".to_string(),
        payload: b"test".to_vec(),
        iterations,
        topology,
    }
}

fn start(topology: Topology, iterations: u64) -> Verifier {
    Verifier::new(scenario(topology, iterations)).unwrap()
}

/// Answers every operation as a sound file would, and lists the operations.
fn drive_soundly(run: &mut Verifier) -> Vec<Action> {
    let mut asked = Vec::new();
    let mut len: u64 = 0;
    loop {
        let action = run.pending();
        asked.push(action);
        let event = match action {
            Action::Finish => break,
            Action::Write => {
                len += 4;
                Event::Done
            }
            Action::QueryLength => Event::Length(len),
            Action::Read(_) => Event::Data(b"test".to_vec()),
            _ => Event::Done,
        };
        run.step(event);
    }
    asked
}

/// Performs sound operations until the run asks for `wanted`.
fn advance_to(run: &mut Verifier, wanted: Action) {
    loop {
        let action = run.pending();
        if action == wanted || action == Action::Finish {
            return;
        }
        let event = match action {
            Action::QueryLength => Event::Length(run.expected_len() + 4),
            Action::Read(_) => Event::Data(b"test".to_vec()),
            _ => Event::Done,
        };
        run.step(event);
    }
}

#[test]
fn reopening_run_asks_in_order() {
    let mut run = start(Topology::SingleReopen, 2);
    let asked = drive_soundly(&mut run);
    assert_eq!(
        asked,
        vec![
            Action::Remove,
            Action::Open(Handle::Writer),
            Action::Write,
            Action::Sync(Handle::Writer),
            Action::QueryLength,
            Action::Open(Handle::Reader),
            Action::Seek(0),
            Action::Read(4),
            Action::Open(Handle::Writer),
            Action::Write,
            Action::Sync(Handle::Writer),
            Action::QueryLength,
            Action::Open(Handle::Reader),
            Action::Seek(4),
            Action::Read(4),
            Action::Finish,
        ]
    );
    assert_eq!(run.phase(), Phase::Passed);
    assert_eq!(run.into_verdict(), Some(Ok(())));
}

#[test]
fn reusing_run_opens_the_writer_once() {
    let mut run = start(Topology::SingleReuse, 2);
    let asked = drive_soundly(&mut run);
    assert_eq!(
        asked,
        vec![
            Action::Remove,
            Action::Open(Handle::Writer),
            Action::Write,
            Action::Sync(Handle::Writer),
            Action::QueryLength,
            Action::Open(Handle::Reader),
            Action::Seek(0),
            Action::Read(4),
            Action::Write,
            Action::Sync(Handle::Writer),
            Action::QueryLength,
            Action::Open(Handle::Reader),
            Action::Seek(4),
            Action::Read(4),
            Action::Finish,
        ]
    );
    assert_eq!(run.into_verdict(), Some(Ok(())));
}

#[test]
fn split_run_syncs_through_the_other_handle() {
    let mut run = start(Topology::Split, 2);
    let asked = drive_soundly(&mut run);
    assert_eq!(
        asked,
        vec![
            Action::Remove,
            Action::Open(Handle::Writer),
            Action::Open(Handle::Syncer),
            Action::Write,
            Action::Sync(Handle::Syncer),
            Action::QueryLength,
            Action::Open(Handle::Reader),
            Action::Seek(0),
            Action::Read(4),
            Action::Write,
            Action::Sync(Handle::Syncer),
            Action::QueryLength,
            Action::Open(Handle::Reader),
            Action::Seek(4),
            Action::Read(4),
            Action::Finish,
        ]
    );
    assert_eq!(run.into_verdict(), Some(Ok(())));
}

#[test]
fn split_run_never_syncs_through_the_writer() {
    let mut run = start(Topology::Split, 25);
    let asked = drive_soundly(&mut run);
    assert!(!asked.contains(&Action::Sync(Handle::Writer)));
    assert_eq!(
        asked.iter().filter(|a| **a == Action::Sync(Handle::Syncer)).count(),
        25
    );
    assert_eq!(
        asked.iter().filter(|a| **a == Action::Open(Handle::Syncer)).count(),
        1
    );
    assert_eq!(asked.iter().filter(|a| **a == Action::Write).count(), 25);
}

#[test]
fn run_without_iterations_only_prepares() {
    let mut run = start(Topology::SingleReopen, 0);
    assert_eq!(drive_soundly(&mut run), vec![Action::Remove, Action::Finish]);
    assert_eq!(run.into_verdict(), Some(Ok(())));

    let mut run = start(Topology::SingleReuse, 0);
    assert_eq!(
        drive_soundly(&mut run),
        vec![Action::Remove, Action::Open(Handle::Writer), Action::Finish]
    );
    assert_eq!(run.into_verdict(), Some(Ok(())));

    let mut run = start(Topology::Split, 0);
    assert_eq!(
        drive_soundly(&mut run),
        vec![
            Action::Remove,
            Action::Open(Handle::Writer),
            Action::Open(Handle::Syncer),
            Action::Finish
        ]
    );
    assert_eq!(run.into_verdict(), Some(Ok(())));
}

#[test]
fn state_advances_once_per_iteration() {
    let mut run = start(Topology::SingleReuse, 3);
    assert_eq!(run.iteration(), 0);
    assert_eq!(run.expected_len(), 0);
    advance_to(&mut run, Action::Read(4));
    assert_eq!(run.iteration(), 0);
    assert_eq!(run.expected_len(), 0);
    run.step(Event::Data(b"test".to_vec()));
    assert_eq!(run.iteration(), 1);
    assert_eq!(run.expected_len(), 4);
    assert_eq!(run.pending(), Action::Write);
    run.step(Event::Done);
    run.step(Event::Done);
    run.step(Event::Length(8));
    run.step(Event::Done);
    assert_eq!(run.pending(), Action::Seek(4));
    run.step(Event::Done);
    run.step(Event::Data(b"test".to_vec()));
    assert_eq!(run.iteration(), 2);
    assert_eq!(run.expected_len(), 8);
    assert!(!run.is_finished());
}

#[test]
fn lengths_of_a_long_run_are_multiples_of_the_payload() {
    let mut run = start(Topology::Split, 1000);
    let mut len: u64 = 0;
    let mut measured = Vec::new();
    loop {
        let event = match run.pending() {
            Action::Finish => break,
            Action::Write => {
                len += 4;
                Event::Done
            }
            Action::QueryLength => {
                measured.push(len);
                Event::Length(len)
            }
            Action::Read(_) => Event::Data(b"test".to_vec()),
            _ => Event::Done,
        };
        run.step(event);
    }
    assert_eq!(measured.len(), 1000);
    for (i, found) in measured.iter().enumerate() {
        assert_eq!(*found, 4 * (i as u64 + 1));
    }
    assert_eq!(run.expected_len(), 4000);
    assert_eq!(run.into_verdict(), Some(Ok(())));
}

#[test]
fn short_file_is_a_length_mismatch() {
    let mut run = start(Topology::SingleReopen, 3);
    advance_to(&mut run, Action::QueryLength);
    run.step(Event::Length(3));
    assert_eq!(run.pending(), Action::Finish);
    assert_eq!(run.phase(), Phase::Failed);
    assert_eq!(
        run.into_verdict(),
        Some(Err(Failure::LengthMismatch { iteration: 0, expected: 4, actual: 3 }))
    );
}

#[test]
fn long_file_is_a_length_mismatch() {
    let mut run = start(Topology::SingleReopen, 3);
    advance_to(&mut run, Action::QueryLength);
    run.step(Event::Length(8));
    assert_eq!(
        run.into_verdict(),
        Some(Err(Failure::LengthMismatch { iteration: 0, expected: 4, actual: 8 }))
    );
}

#[test]
fn lost_write_in_a_later_iteration_is_caught() {
    let mut run = start(Topology::Split, 3);
    advance_to(&mut run, Action::Seek(4));
    assert_eq!(run.iteration(), 1);
    advance_to(&mut run, Action::Read(4));
    run.step(Event::Data(b"test".to_vec()));
    advance_to(&mut run, Action::QueryLength);
    run.step(Event::Length(8));
    assert_eq!(
        run.into_verdict(),
        Some(Err(Failure::LengthMismatch { iteration: 2, expected: 12, actual: 8 }))
    );
}

#[test]
fn empty_file_after_first_write_is_a_length_mismatch() {
    let mut run = start(Topology::SingleReuse, 1);
    advance_to(&mut run, Action::QueryLength);
    run.step(Event::Length(0));
    assert_eq!(
        run.into_verdict(),
        Some(Err(Failure::LengthMismatch { iteration: 0, expected: 4, actual: 0 }))
    );
}

#[test]
fn wrong_bytes_are_a_content_mismatch() {
    let mut run = start(Topology::SingleReopen, 2);
    advance_to(&mut run, Action::Read(4));
    run.step(Event::Data(b"tesx".to_vec()));
    assert_eq!(run.pending(), Action::Finish);
    assert_eq!(
        run.into_verdict(),
        Some(Err(Failure::ContentMismatch {
            iteration: 0,
            expected: b"test".to_vec(),
            actual: b"tesx".to_vec(),
        }))
    );
}

#[test]
fn too_few_bytes_are_a_content_mismatch() {
    let mut run = start(Topology::SingleReopen, 2);
    advance_to(&mut run, Action::Read(4));
    run.step(Event::Data(b"tes".to_vec()));
    assert_eq!(
        run.into_verdict(),
        Some(Err(Failure::ContentMismatch {
            iteration: 0,
            expected: b"test".to_vec(),
            actual: b"tes".to_vec(),
        }))
    );
}

#[test]
fn no_bytes_are_an_empty_read() {
    let mut run = start(Topology::Split, 2);
    advance_to(&mut run, Action::Read(4));
    run.step(Event::Data(Vec::new()));
    assert_eq!(run.pending(), Action::Finish);
    assert_eq!(run.into_verdict(), Some(Err(Failure::EmptyRead { iteration: 0 })));
}

#[test]
fn empty_read_in_second_iteration_names_it() {
    let mut run = start(Topology::SingleReuse, 2);
    advance_to(&mut run, Action::Seek(4));
    run.step(Event::Done);
    run.step(Event::Data(Vec::new()));
    assert_eq!(run.into_verdict(), Some(Err(Failure::EmptyRead { iteration: 1 })));
}

#[test]
fn failed_operation_is_an_io_error() {
    let mut run = start(Topology::SingleReopen, 2);
    advance_to(&mut run, Action::Write);
    run.step(Event::Failed("No space left on device (os error 28)".to_string()));
    assert_eq!(run.pending(), Action::Finish);
    assert_eq!(
        run.into_verdict(),
        Some(Err(Failure::IoError {
            iteration: 0,
            detail: "No space left on device (os error 28)".to_string(),
        }))
    );
}

#[test]
fn any_operation_can_fail() {
    let operations = [
        Action::Remove,
        Action::Open(Handle::Writer),
        Action::Open(Handle::Syncer),
        Action::Write,
        Action::Sync(Handle::Syncer),
        Action::QueryLength,
        Action::Open(Handle::Reader),
        Action::Seek(0),
        Action::Read(4),
    ];
    for operation in operations {
        let mut run = start(Topology::Split, 1);
        advance_to(&mut run, operation);
        assert_eq!(run.pending(), operation);
        run.step(Event::Failed("denied".to_string()));
        assert_eq!(run.pending(), Action::Finish);
        assert_eq!(
            run.into_verdict(),
            Some(Err(Failure::IoError { iteration: 0, detail: "denied".to_string() }))
        );
    }
}

#[test]
fn io_error_names_the_iteration_under_way() {
    let mut run = start(Topology::Split, 3);
    advance_to(&mut run, Action::Seek(8));
    advance_to(&mut run, Action::Read(4));
    run.step(Event::Failed("Input/output error (os error 5)".to_string()));
    assert_eq!(
        run.into_verdict(),
        Some(Err(Failure::IoError {
            iteration: 2,
            detail: "Input/output error (os error 5)".to_string(),
        }))
    );
}

#[test]
fn event_of_the_wrong_kind_changes_nothing() {
    let mut run = start(Topology::SingleReuse, 2);
    advance_to(&mut run, Action::Write);
    run.step(Event::Length(4));
    assert_eq!(run.pending(), Action::Write);
    run.step(Event::Data(b"test".to_vec()));
    assert_eq!(run.pending(), Action::Write);
    assert_eq!(run.phase(), Phase::Writing);

    advance_to(&mut run, Action::QueryLength);
    run.step(Event::Done);
    assert_eq!(run.pending(), Action::QueryLength);
    run.step(Event::Data(b"test".to_vec()));
    assert_eq!(run.pending(), Action::QueryLength);

    advance_to(&mut run, Action::Read(4));
    run.step(Event::Done);
    assert_eq!(run.pending(), Action::Read(4));
    run.step(Event::Length(4));
    assert_eq!(run.pending(), Action::Read(4));
    assert_eq!(run.iteration(), 0);
    assert!(run.failure().is_none());
}

#[test]
fn failed_run_stays_failed() {
    let mut run = start(Topology::SingleReopen, 2);
    advance_to(&mut run, Action::QueryLength);
    run.step(Event::Length(5));
    run.step(Event::Done);
    run.step(Event::Length(4));
    run.step(Event::Data(b"test".to_vec()));
    run.step(Event::Failed("late".to_string()));
    assert_eq!(run.pending(), Action::Finish);
    assert!(run.is_finished());
    assert_eq!(
        run.failure(),
        &Some(Failure::LengthMismatch { iteration: 0, expected: 4, actual: 5 })
    );
}

#[test]
fn passed_run_stays_passed() {
    let mut run = start(Topology::Split, 1);
    drive_soundly(&mut run);
    run.step(Event::Failed("late".to_string()));
    run.step(Event::Length(0));
    assert_eq!(run.phase(), Phase::Passed);
    assert_eq!(run.iteration(), 1);
    assert_eq!(run.into_verdict(), Some(Ok(())));
}

#[test]
fn unfinished_run_has_no_verdict() {
    let run = start(Topology::Split, 1);
    assert!(!run.is_finished());
    assert_eq!(run.into_verdict(), None);
    let mut run = start(Topology::Split, 1);
    advance_to(&mut run, Action::Read(4));
    assert_eq!(run.into_verdict(), None);
}

#[test]
fn run_keeps_its_scenario() {
    let mut run = start(Topology::Split, 7);
    assert_eq!(run.path(), "settings.log");
    assert_eq!(run.payload(), &b"test".to_vec());
    assert_eq!(run.topology(), Topology::Split);
    assert_eq!(run.iterations(), 7);
    assert_eq!(run.phase(), Phase::Removing);
    drive_soundly(&mut run);
    assert_eq!(run.path(), "settings.log");
    assert_eq!(run.payload(), &b"test".to_vec());
    assert_eq!(run.topology(), Topology::Split);
    assert_eq!(run.iterations(), 7);
}

#[test]
fn scenario_too_long_for_a_length_is_refused() {
    let too_long = Scenario {
        path: "settings.log".to_string(),
        payload: b"ab".to_vec(),
        iterations: u64::MAX,
        topology: Topology::SingleReopen,
    };
    assert!(Verifier::new(too_long).is_none());
    let longest = Scenario {
        path: "settings.log".to_string(),
        payload: b"a".to_vec(),
        iterations: u64::MAX,
        topology: Topology::SingleReopen,
    };
    assert!(Verifier::new(longest).is_some());
    let half = Scenario {
        path: "settings.log".to_string(),
        payload: b"test".to_vec(),
        iterations: u64::MAX / 4,
        topology: Topology::Split,
    };
    assert!(Verifier::new(half).is_some());
    let over = Scenario {
        path: "settings.log".to_string(),
        payload: b"test".to_vec(),
        iterations: u64::MAX / 4 + 1,
        topology: Topology::Split,
    };
    assert!(Verifier::new(over).is_none());
}

#[test]
fn empty_payload_reads_back_as_nothing() {
    let scenario = Scenario {
        path: "settings.log".to_string(),
        payload: Vec::new(),
        iterations: 2,
        topology: Topology::SingleReuse,
    };
    let mut run = Verifier::new(scenario).unwrap();
    let mut asked = Vec::new();
    loop {
        let action = run.pending();
        asked.push(action);
        let event = match action {
            Action::Finish => break,
            Action::QueryLength => Event::Length(0),
            Action::Read(_) => Event::Data(Vec::new()),
            _ => Event::Done,
        };
        run.step(event);
    }
    assert!(asked.contains(&Action::Read(0)));
    assert!(asked.contains(&Action::Seek(0)));
    assert_eq!(run.into_verdict(), Some(Ok(())));
}

#[test]
fn check_length_passes_only_the_exact_length() {
    assert_eq!(check_length(0, 4, 4), Ok(()));
    assert_eq!(check_length(9, 40, 40), Ok(()));
    assert_eq!(
        check_length(9, 40, 39),
        Err(Failure::LengthMismatch { iteration: 9, expected: 40, actual: 39 })
    );
    assert_eq!(
        check_length(9, 40, 44),
        Err(Failure::LengthMismatch { iteration: 9, expected: 40, actual: 44 })
    );
    assert_eq!(
        check_length(0, 4, 0),
        Err(Failure::LengthMismatch { iteration: 0, expected: 4, actual: 0 })
    );
}

#[test]
fn check_read_tells_the_failures_apart() {
    assert_eq!(check_read(3, b"test", b"test".to_vec()), Ok(()));
    assert_eq!(check_read(3, b"test", Vec::new()), Err(Failure::EmptyRead { iteration: 3 }));
    assert_eq!(
        check_read(3, b"test", b"tset".to_vec()),
        Err(Failure::ContentMismatch {
            iteration: 3,
            expected: b"test".to_vec(),
            actual: b"tset".to_vec(),
        })
    );
    assert_eq!(
        check_read(3, b"test", b"testtest".to_vec()),
        Err(Failure::ContentMismatch {
            iteration: 3,
            expected: b"test".to_vec(),
            actual: b"testtest".to_vec(),
        })
    );
    assert_eq!(check_read(3, b"", Vec::new()), Ok(()));
    assert_eq!(
        check_read(3, b"", b"x".to_vec()),
        Err(Failure::ContentMismatch { iteration: 3, expected: Vec::new(), actual: b"x".to_vec() })
    );
}

#[test]
fn failure_knows_its_iteration_and_kind() {
    let length = Failure::LengthMismatch { iteration: 5, expected: 24, actual: 20 };
    let content = Failure::ContentMismatch {
        iteration: 6,
        expected: b"test".to_vec(),
        actual: b"tess".to_vec(),
    };
    let empty = Failure::EmptyRead { iteration: 7 };
    let io = Failure::IoError { iteration: 8, detail: "denied".to_string() };
    assert_eq!(length.iteration(), 5);
    assert_eq!(content.iteration(), 6);
    assert_eq!(empty.iteration(), 7);
    assert_eq!(io.iteration(), 8);
    assert!(length.is_violation());
    assert!(content.is_violation());
    assert!(empty.is_violation());
    assert!(!io.is_violation());
}
