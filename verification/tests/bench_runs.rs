use rustflush::bench::run_on_sink;
use rustflush::sink::Sink;
use rustflush::trial::{trial_order, Elapsed, Strategy, TrialDescriptor, TrialResult};

fn descriptor(strategy: Strategy, iterations: u64) -> TrialDescriptor {
    TrialDescriptor {
        strategy,
        iterations,
        payload: b"hello world\n".to_vec(),
        path: "case.log".to_string(),
    }
}

#[test]
fn every_strategy_leaves_all_payloads_in_the_file() {
    for strategy in trial_order() {
        let mut sink = Sink::new(8192);
        let result = run_on_sink(descriptor(strategy, 1000), &mut sink);
        assert!(matches!(result, Some(Ok(_))));
        assert_eq!(sink.file().len(), 12_000);
        assert_eq!(sink.file(), &b"hello world\n".repeat(1000));
        assert!(sink.buffer().is_empty());
    }
}

#[test]
fn strategies_leave_identical_files() {
    let mut files = Vec::new();
    for strategy in trial_order() {
        for capacity in [0usize, 1, 5, 11, 12, 13, 24, 100, 8192] {
            let mut sink = Sink::new(capacity);
            let result = run_on_sink(descriptor(strategy, 37), &mut sink);
            assert!(matches!(result, Some(Ok(_))));
            assert!(sink.buffer().is_empty());
            files.push(sink.file().clone());
        }
    }
    assert_eq!(files.len(), 45);
    for file in &files {
        assert_eq!(file.len(), 12 * 37);
        assert_eq!(file, &files[0]);
    }
    assert_eq!(files[0], b"hello world\n".repeat(37));
}

#[test]
fn only_the_time_differs_between_strategies() {
    let timed = |strategy: Strategy| {
        let mut sink = Sink::new(64);
        run_on_sink(descriptor(strategy, 10), &mut sink).unwrap().unwrap()
    };
    assert_eq!(
        timed(Strategy::Unbuffered),
        TrialResult { strategy: Strategy::Unbuffered, elapsed: Elapsed { nanos: 10 } }
    );
    assert_eq!(
        timed(Strategy::BufferedFlushEach),
        TrialResult { strategy: Strategy::BufferedFlushEach, elapsed: Elapsed { nanos: 20 } }
    );
    assert_eq!(
        timed(Strategy::BufferedFlushOnce),
        TrialResult { strategy: Strategy::BufferedFlushOnce, elapsed: Elapsed { nanos: 11 } }
    );
    assert_eq!(
        timed(Strategy::BulkSingleWrite),
        TrialResult { strategy: Strategy::BulkSingleWrite, elapsed: Elapsed { nanos: 1 } }
    );
    assert_eq!(
        timed(Strategy::SyncPerWrite),
        TrialResult { strategy: Strategy::SyncPerWrite, elapsed: Elapsed { nanos: 20 } }
    );
}

#[test]
fn trial_without_iterations_leaves_an_empty_file() {
    for strategy in trial_order() {
        let mut sink = Sink::new(16);
        let result = run_on_sink(descriptor(strategy, 0), &mut sink);
        assert!(matches!(result, Some(Ok(_))));
        assert!(sink.file().is_empty());
        assert!(sink.buffer().is_empty());
    }
}

#[test]
fn trial_starts_from_an_empty_file() {
    for strategy in trial_order() {
        let mut sink = Sink::new(16);
        sink.create(true);
        sink.write(b"left over");
        sink.flush();
        sink.write(b"kept back");
        let result = run_on_sink(descriptor(strategy, 2), &mut sink);
        assert!(matches!(result, Some(Ok(_))));
        assert_eq!(sink.file(), &b"hello world\nhello world\n".to_vec());
        assert!(sink.buffer().is_empty());
    }
}

#[test]
fn block_that_cannot_be_built_is_not_written() {
    let mut sink = Sink::new(16);
    sink.create(false);
    sink.write(b"kept");
    let result = run_on_sink(descriptor(Strategy::BulkSingleWrite, u64::MAX), &mut sink);
    assert_eq!(result, None);
    assert_eq!(sink.file(), &b"kept".to_vec());
}

#[test]
fn single_payload_trials_agree() {
    for strategy in trial_order() {
        let mut sink = Sink::new(4);
        let result = run_on_sink(descriptor(strategy, 1), &mut sink);
        assert!(matches!(result, Some(Ok(_))));
        assert_eq!(sink.file(), &b"hello world\n".to_vec());
    }
}
