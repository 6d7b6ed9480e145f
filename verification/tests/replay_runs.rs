use rustflush::disk::{Disk, Fault, FaultKind};
use rustflush::durability::{Action, Event, Handle, Scenario, Topology, Verifier};
use rustflush::failure::Failure;
use rustflush::replay::verify_on_disk;

fn scenario(topology: Topology, iterations: u64) -> Scenario {
    Scenario {
        path: "settings.log".to_string(),
        payload: b"test".to_vec(),
        iterations,
        topology,
    }
}

const TOPOLOGIES: [Topology; 3] = [Topology::SingleReopen, Topology::SingleReuse, Topology::Split];

#[test]
fn three_cycles_give_lengths_4_8_12() {
    for topology in TOPOLOGIES {
        let mut disk = Disk::new();
        let mut run = Verifier::new(scenario(topology, 3)).unwrap();
        let mut lengths = Vec::new();
        loop {
            let action = run.pending();
            if action == Action::Finish {
                break;
            }
            let event = disk.perform(action, b"test");
            if let Event::Length(len) = event {
                lengths.push(len);
            }
            run.step(event);
        }
        assert_eq!(lengths, vec![4, 8, 12]);
        assert_eq!(disk.visible(), &b"testtesttest".to_vec());
        assert_eq!(run.into_verdict(), Some(Ok(())));
    }
}

#[test]
fn append_and_sync_cycles_on_the_bare_disk() {
    let mut disk = Disk::new();
    disk.perform(Action::Remove, b"test");
    let mut lengths = Vec::new();
    for _ in 0..3 {
        assert_eq!(disk.perform(Action::Open(Handle::Writer), b"test"), Event::Done);
        assert_eq!(disk.perform(Action::Write, b"test"), Event::Done);
        assert_eq!(disk.perform(Action::Sync(Handle::Writer), b"test"), Event::Done);
        match disk.perform(Action::QueryLength, b"test") {
            Event::Length(len) => lengths.push(len),
            other => panic!("unexpected outcome: {:?}", other),
        }
    }
    assert_eq!(lengths, vec![4, 8, 12]);
    assert_eq!(disk.visible(), &b"testtesttest".to_vec());
}

#[test]
fn every_read_back_is_the_payload_at_the_end() {
    for topology in TOPOLOGIES {
        let mut disk = Disk::new();
        let mut run = Verifier::new(scenario(topology, 50)).unwrap();
        let mut offsets = Vec::new();
        let mut reads = 0;
        loop {
            let action = run.pending();
            if action == Action::Finish {
                break;
            }
            if let Action::Seek(offset) = action {
                offsets.push(offset);
            }
            let event = disk.perform(action, b"test");
            if let Action::Read(count) = action {
                assert_eq!(count, 4);
                assert_eq!(event, Event::Data(b"test".to_vec()));
                reads += 1;
            }
            run.step(event);
        }
        assert_eq!(reads, 50);
        assert_eq!(offsets.len(), 50);
        for (i, offset) in offsets.iter().enumerate() {
            assert_eq!(*offset, 4 * i as u64);
        }
        assert_eq!(run.into_verdict(), Some(Ok(())));
    }
}

#[test]
fn sound_disk_passes_in_every_topology() {
    for topology in TOPOLOGIES {
        let mut disk = Disk::new();
        assert_eq!(verify_on_disk(scenario(topology, 100), &mut disk), Some(Ok(())));
        assert_eq!(disk.visible().len(), 400);
        assert_eq!(disk.visible(), &b"test".repeat(100));
        assert!(disk.staged().is_empty());
    }
}

#[test]
fn split_run_ends_as_the_single_runs_do() {
    let mut single = Disk::new();
    let mut reused = Disk::new();
    let mut split = Disk::new();
    let a = verify_on_disk(scenario(Topology::SingleReopen, 64), &mut single);
    let b = verify_on_disk(scenario(Topology::SingleReuse, 64), &mut reused);
    let c = verify_on_disk(scenario(Topology::Split, 64), &mut split);
    assert_eq!(a, Some(Ok(())));
    assert_eq!(a, b);
    assert_eq!(b, c);
    assert_eq!(single.visible(), split.visible());
    assert_eq!(reused.visible(), split.visible());
}

#[test]
fn run_without_iterations_leaves_an_empty_file() {
    for topology in TOPOLOGIES {
        let mut disk = Disk::new();
        assert_eq!(verify_on_disk(scenario(topology, 0), &mut disk), Some(Ok(())));
        assert!(disk.visible().is_empty());
    }
}

#[test]
fn run_removes_what_was_there_before() {
    for topology in TOPOLOGIES {
        let mut disk = Disk::new();
        disk.perform(Action::Open(Handle::Writer), b"");
        disk.perform(Action::Write, b"left over from an earlier run");
        disk.perform(Action::Sync(Handle::Writer), b"");
        disk.perform(Action::Write, b"and not even synced");
        assert_eq!(verify_on_disk(scenario(topology, 3), &mut disk), Some(Ok(())));
        assert_eq!(disk.visible(), &b"testtesttest".to_vec());
    }
}

#[test]
fn short_write_fails_the_length_check() {
    for topology in TOPOLOGIES {
        let mut disk =
            Disk::with_fault(Fault { after: 1, kind: FaultKind::ShortWrite { kept: 3 } });
        assert_eq!(
            verify_on_disk(scenario(topology, 3), &mut disk),
            Some(Err(Failure::LengthMismatch { iteration: 1, expected: 8, actual: 7 }))
        );
        assert_eq!(disk.visible(), &b"testtes".to_vec());
    }
}

#[test]
fn lost_write_fails_the_length_check() {
    let mut disk = Disk::with_fault(Fault { after: 0, kind: FaultKind::ShortWrite { kept: 0 } });
    assert_eq!(
        verify_on_disk(scenario(Topology::SingleReopen, 3), &mut disk),
        Some(Err(Failure::LengthMismatch { iteration: 0, expected: 4, actual: 0 }))
    );
    assert!(disk.visible().is_empty());
}

#[test]
fn duplicate_write_fails_the_length_check() {
    for topology in TOPOLOGIES {
        let mut disk = Disk::with_fault(Fault { after: 2, kind: FaultKind::DuplicateWrite });
        assert_eq!(
            verify_on_disk(scenario(topology, 3), &mut disk),
            Some(Err(Failure::LengthMismatch { iteration: 2, expected: 12, actual: 16 }))
        );
        assert_eq!(disk.visible(), &b"testtesttesttest".to_vec());
    }
}

#[test]
fn fault_in_the_last_iteration_is_caught() {
    let mut disk = Disk::with_fault(Fault { after: 99, kind: FaultKind::ShortWrite { kept: 1 } });
    assert_eq!(
        verify_on_disk(scenario(Topology::Split, 100), &mut disk),
        Some(Err(Failure::LengthMismatch { iteration: 99, expected: 400, actual: 397 }))
    );
}

#[test]
fn fault_in_any_iteration_is_caught_there() {
    for at in 0..20u64 {
        let mut disk = Disk::with_fault(Fault { after: at, kind: FaultKind::DuplicateWrite });
        assert_eq!(
            verify_on_disk(scenario(Topology::SingleReuse, 20), &mut disk),
            Some(Err(Failure::LengthMismatch {
                iteration: at,
                expected: 4 * (at + 1),
                actual: 4 * (at + 2),
            }))
        );
        for kept in 0..4usize {
            let mut disk =
                Disk::with_fault(Fault { after: at, kind: FaultKind::ShortWrite { kept } });
            assert_eq!(
                verify_on_disk(scenario(Topology::Split, 20), &mut disk),
                Some(Err(Failure::LengthMismatch {
                    iteration: at,
                    expected: 4 * (at + 1),
                    actual: 4 * at + kept as u64,
                }))
            );
        }
    }
}

#[test]
fn fault_after_the_run_does_no_harm() {
    let mut disk = Disk::with_fault(Fault { after: 3, kind: FaultKind::DuplicateWrite });
    assert_eq!(verify_on_disk(scenario(Topology::Split, 3), &mut disk), Some(Ok(())));
    assert_eq!(disk.visible(), &b"testtesttest".to_vec());
}

#[test]
fn fault_that_changes_nothing_does_no_harm() {
    let mut disk = Disk::with_fault(Fault { after: 1, kind: FaultKind::ShortWrite { kept: 4 } });
    assert_eq!(verify_on_disk(scenario(Topology::SingleReopen, 3), &mut disk), Some(Ok(())));
    assert_eq!(disk.visible(), &b"testtesttest".to_vec());

    let nothing = Scenario {
        path: "settings.log".to_string(),
        payload: Vec::new(),
        iterations: 3,
        topology: Topology::Split,
    };
    let mut disk = Disk::with_fault(Fault { after: 1, kind: FaultKind::DuplicateWrite });
    assert_eq!(verify_on_disk(nothing, &mut disk), Some(Ok(())));
    assert!(disk.visible().is_empty());
}

#[test]
fn scenario_too_long_is_not_run() {
    let mut disk = Disk::new();
    disk.perform(Action::Open(Handle::Writer), b"");
    disk.perform(Action::Write, b"kept");
    disk.perform(Action::Sync(Handle::Writer), b"");
    let too_long = Scenario {
        path: "settings.log".to_string(),
        payload: b"test".to_vec(),
        iterations: u64::MAX,
        topology: Topology::Split,
    };
    assert_eq!(verify_on_disk(too_long, &mut disk), None);
    assert_eq!(disk.visible(), &b"kept".to_vec());
    assert!(disk.is_present());
}

#[test]
fn run_without_the_sync_would_fail() {
    let mut disk = Disk::new();
    let mut run = Verifier::new(scenario(Topology::SingleReuse, 2)).unwrap();
    loop {
        let action = run.pending();
        let event = match action {
            Action::Finish => break,
            Action::Sync(_) => Event::Done,
            other => disk.perform(other, b"test"),
        };
        run.step(event);
    }
    assert_eq!(
        run.into_verdict(),
        Some(Err(Failure::LengthMismatch { iteration: 0, expected: 4, actual: 0 }))
    );
}
