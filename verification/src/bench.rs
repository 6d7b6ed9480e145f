//! The benchmark trial run against the in-memory sink.
//!
//! [`run_on_sink`] performs every operation that a trial asks for on a
//! [`Sink`] and hands the outcome back, until the trial ends. The sink has
//! no clock; in its place the trial is timed by the number of writes and
//! flushes issued while the timer runs, one nanosecond each.
//!
//! What the strategies do to a sink is stated by [`outcome_of`]; that they
//! all leave the same bytes in the file is [`lemma_strategies_equivalent`].

use vstd::prelude::*;
use crate::bytes::{lemma_repeated_len, repeated};
use crate::failure::Failure;
use crate::sink::{lemma_flush_empties, lemma_write_appends, Sink, SinkView};
use crate::trial::{
    lemma_trial_step_preserves_wf,
    Elapsed,
    Strategy,
    TrialAction,
    TrialDescriptor,
    TrialEvent,
    TrialEventView,
    TrialPhase,
    TrialResult,
    TrialRun,
    TrialView,
};

verus! {

/// The sink after `n` writes of `payload`.
pub open spec fn writes(sink: SinkView, payload: Seq<u8>, n: nat) -> SinkView
    decreases n,
{
    if n == 0 {
        sink
    } else {
        writes(sink, payload, (n - 1) as nat).write(payload)
    }
}

/// The sink after `n` writes of `payload`, each followed by a flush.
pub open spec fn writes_flushed(sink: SinkView, payload: Seq<u8>, n: nat) -> SinkView
    decreases n,
{
    if n == 0 {
        sink
    } else {
        writes_flushed(sink, payload, (n - 1) as nat).write(payload).flush()
    }
}

/// What a trial of `n` iterations leaves of a sink whose buffer has room
/// for `capacity` bytes.
pub open spec fn outcome_of(strategy: Strategy, capacity: nat, payload: Seq<u8>, n: nat) -> SinkView {
    let fresh = SinkView::fresh(strategy.buffered(), capacity);
    match strategy {
        Strategy::Unbuffered => writes(fresh, payload, n),
        Strategy::BufferedFlushEach => writes_flushed(fresh, payload, n),
        Strategy::BufferedFlushOnce => writes(fresh, payload, n).flush(),
        Strategy::BulkSingleWrite => fresh.write(repeated(payload, n)),
        Strategy::SyncPerWrite => writes_flushed(fresh, payload, n),
    }
}

/// Writes add up: after `n` writes the sink holds what it held before and
/// then `n` payloads, in the file and the buffer together.
pub proof fn lemma_writes_content(sink: SinkView, payload: Seq<u8>, n: nat)
    requires
        sink.wf(),
    ensures
        writes(sink, payload, n).wf(),
        writes(sink, payload, n).content() == sink.content() + repeated(payload, n),
        writes(sink, payload, n).created == sink.created,
        writes(sink, payload, n).buffered == sink.buffered,
        writes(sink, payload, n).capacity == sink.capacity,
    decreases n,
{
    if n == 0 {
        assert(sink.content() + repeated(payload, 0) =~= sink.content());
    } else {
        let before = writes(sink, payload, (n - 1) as nat);
        lemma_writes_content(sink, payload, (n - 1) as nat);
        lemma_write_appends(before, payload);
        assert(sink.content() + repeated(payload, (n - 1) as nat) + payload =~= sink.content()
            + repeated(payload, n));
    }
}

/// Flushed writes add up in the file: after `n` writes, each followed by a
/// flush, a sink that kept nothing to begin with has all `n` payloads in
/// its file and keeps nothing.
pub proof fn lemma_writes_flushed_content(sink: SinkView, payload: Seq<u8>, n: nat)
    requires
        sink.wf(),
        sink.buffer.len() == 0,
    ensures
        writes_flushed(sink, payload, n).wf(),
        writes_flushed(sink, payload, n).file == sink.file + repeated(payload, n),
        writes_flushed(sink, payload, n).buffer == Seq::<u8>::empty(),
        writes_flushed(sink, payload, n).created == sink.created,
        writes_flushed(sink, payload, n).buffered == sink.buffered,
        writes_flushed(sink, payload, n).capacity == sink.capacity,
    decreases n,
{
    if n == 0 {
        assert(sink.file + repeated(payload, 0) =~= sink.file);
        assert(sink.buffer =~= Seq::<u8>::empty());
    } else {
        let before = writes_flushed(sink, payload, (n - 1) as nat);
        lemma_writes_flushed_content(sink, payload, (n - 1) as nat);
        lemma_write_appends(before, payload);
        lemma_flush_empties(before.write(payload));
        assert(before.content() =~= before.file);
        assert(sink.file + repeated(payload, (n - 1) as nat) + payload =~= sink.file + repeated(
            payload,
            n,
        ));
    }
}

/// What every strategy leaves behind: the file holds the payload `n` times
/// in a row and nothing else, and the buffer keeps nothing back, whatever
/// the strategy and whatever the size of the buffer.
pub proof fn lemma_outcome_of(strategy: Strategy, capacity: nat, payload: Seq<u8>, n: nat)
    ensures
        outcome_of(strategy, capacity, payload, n).file == repeated(payload, n),
        outcome_of(strategy, capacity, payload, n).file.len() == n * payload.len(),
        outcome_of(strategy, capacity, payload, n).buffer == Seq::<u8>::empty(),
        outcome_of(strategy, capacity, payload, n).created,
        outcome_of(strategy, capacity, payload, n).wf(),
{
    let fresh = SinkView::fresh(strategy.buffered(), capacity);
    let all = repeated(payload, n);
    lemma_repeated_len(payload, n);
    assert(fresh.content() =~= Seq::<u8>::empty());
    assert(Seq::<u8>::empty() + all =~= all);
    match strategy {
        Strategy::Unbuffered => {
            lemma_writes_content(fresh, payload, n);
            let end = writes(fresh, payload, n);
            assert(end.buffer =~= Seq::<u8>::empty());
            assert(end.content() =~= end.file);
        },
        Strategy::BufferedFlushEach => {
            lemma_writes_flushed_content(fresh, payload, n);
        },
        Strategy::BufferedFlushOnce => {
            lemma_writes_content(fresh, payload, n);
            lemma_flush_empties(writes(fresh, payload, n));
        },
        Strategy::BulkSingleWrite => {
            lemma_write_appends(fresh, all);
            let end = fresh.write(all);
            assert(end.buffer =~= Seq::<u8>::empty());
            assert(end.content() =~= end.file);
        },
        Strategy::SyncPerWrite => {
            lemma_writes_flushed_content(fresh, payload, n);
        },
    }
}

/// The strategies differ in time only: two trials with the same payload
/// and the same number of iterations leave files of the same length and the
/// same content, in the same order, whatever their strategies and the sizes
/// of their buffers. What may differ is the number of writes and flushes
/// that it took, and so the time.
pub proof fn lemma_strategies_equivalent(
    one: Strategy,
    other: Strategy,
    capacity_one: nat,
    capacity_other: nat,
    payload: Seq<u8>,
    n: nat,
)
    ensures
        outcome_of(one, capacity_one, payload, n).file == outcome_of(
            other,
            capacity_other,
            payload,
            n,
        ).file,
        outcome_of(one, capacity_one, payload, n).file.len() == outcome_of(
            other,
            capacity_other,
            payload,
            n,
        ).file.len(),
        outcome_of(one, capacity_one, payload, n).buffer == outcome_of(
            other,
            capacity_other,
            payload,
            n,
        ).buffer,
{
    lemma_outcome_of(one, capacity_one, payload, n);
    lemma_outcome_of(other, capacity_other, payload, n);
}

/// The sink that a trial has made of a fresh one when it stands at `trial`.
pub open spec fn progress(trial: TrialView, capacity: nat) -> SinkView {
    let fresh = SinkView::fresh(trial.strategy.buffered(), capacity);
    match trial.phase {
        TrialPhase::Writing => if trial.strategy.flushes_each() {
            writes_flushed(fresh, trial.payload, trial.written)
        } else {
            writes(fresh, trial.payload, trial.written)
        },
        TrialPhase::Flushing => writes_flushed(
            fresh,
            trial.payload,
            (trial.written - 1) as nat,
        ).write(trial.payload),
        TrialPhase::FinalFlush => writes(fresh, trial.payload, trial.iterations),
        TrialPhase::Stopping => outcome_of(
            trial.strategy,
            capacity,
            trial.payload,
            trial.iterations,
        ),
        TrialPhase::Passed => outcome_of(trial.strategy, capacity, trial.payload, trial.iterations),
        _ => fresh,
    }
}

/// The number of writes and flushes issued since the timer was started,
/// when a trial stands at `trial`.
pub open spec fn ticks_at(trial: TrialView) -> nat {
    match trial.phase {
        TrialPhase::Writing => if trial.strategy.flushes_each() {
            2 * trial.written
        } else {
            trial.written
        },
        TrialPhase::Flushing => (2 * trial.written - 1) as nat,
        TrialPhase::FinalFlush => trial.iterations,
        TrialPhase::Stopping => trial.strategy.calls(trial.iterations),
        TrialPhase::Passed => trial.strategy.calls(trial.iterations),
        _ => 0,
    }
}

/// How the sink and the count of operations stand to a trial that is
/// performed on the sink, at every point of the trial.
pub open spec fn in_step(trial: TrialView, sink: SinkView, capacity: nat, ticks: nat) -> bool {
    &&& trial.wf()
    &&& sink.wf()
    &&& sink.capacity == capacity
    &&& trial.phase != TrialPhase::Failed
    &&& trial.phase != TrialPhase::Creating ==> sink == progress(trial, capacity) && sink.created
    &&& trial.phase != TrialPhase::Creating && trial.phase != TrialPhase::Starting ==> ticks
        == ticks_at(trial)
    &&& trial.phase == TrialPhase::Passed ==> trial.elapsed == Some(
        Elapsed { nanos: ticks as u128 },
    )
}

/// The sink after `action`, performed for a trial that stands at `trial`.
pub open spec fn sink_after(trial: TrialView, sink: SinkView, action: TrialAction) -> SinkView {
    match action {
        TrialAction::Create => sink.create(trial.strategy.buffered()),
        TrialAction::WritePayload => sink.write(trial.payload),
        TrialAction::WriteBlock => sink.write(trial.block()),
        TrialAction::Flush => sink.flush(),
        _ => sink,
    }
}

/// The count of operations after `action`.
pub open spec fn ticks_after(ticks: nat, action: TrialAction) -> nat {
    match action {
        TrialAction::StartTimer => 0,
        TrialAction::WritePayload => ticks + 1,
        TrialAction::WriteBlock => ticks + 1,
        TrialAction::Flush => ticks + 1,
        _ => ticks,
    }
}

/// The outcome of `action` on a sink whose file is there, with `ticks`
/// operations counted.
pub open spec fn event_after(ticks: nat, action: TrialAction) -> TrialEventView {
    match action {
        TrialAction::StopTimer => TrialEventView::Stopped(Elapsed { nanos: ticks as u128 }),
        _ => TrialEventView::Done,
    }
}

/// Trial and sink stay in step through every operation.
pub proof fn lemma_in_step(trial: TrialView, sink: SinkView, capacity: nat, ticks: nat)
    requires
        in_step(trial, sink, capacity, ticks),
        !trial.finished(),
    ensures
        trial.accepts(event_after(ticks, trial.pending())),
        in_step(
            trial.step(event_after(ticks, trial.pending())),
            sink_after(trial, sink, trial.pending()),
            capacity,
            ticks_after(ticks, trial.pending()),
        ),
        trial.pending() != TrialAction::Create ==> sink.created,
        trial.timed() ==> ticks <= 2 * trial.iterations + 1,
{
    let action = trial.pending();
    let event = event_after(ticks, action);
    let fresh = SinkView::fresh(trial.strategy.buffered(), capacity);
    lemma_trial_step_preserves_wf(trial, event);
    match trial.phase {
        TrialPhase::Creating => {},
        TrialPhase::Starting => {},
        TrialPhase::Writing => {
            if trial.strategy.flushes_each() {
                lemma_writes_flushed_content(fresh, trial.payload, trial.written);
            } else {
                lemma_writes_content(fresh, trial.payload, trial.written);
            }
            lemma_write_appends(sink, trial.payload);
        },
        TrialPhase::Flushing => {
            lemma_writes_flushed_content(fresh, trial.payload, (trial.written - 1) as nat);
            lemma_write_appends(
                writes_flushed(fresh, trial.payload, (trial.written - 1) as nat),
                trial.payload,
            );
            lemma_flush_empties(sink);
        },
        TrialPhase::WritingBlock => {
            lemma_write_appends(sink, trial.block());
        },
        TrialPhase::FinalFlush => {
            lemma_writes_content(fresh, trial.payload, trial.iterations);
            lemma_flush_empties(sink);
        },
        TrialPhase::Stopping => {
            lemma_outcome_of(trial.strategy, capacity, trial.payload, trial.iterations);
        },
        _ => {},
    }
}

/// How far a phase is from the end of the trial, among the phases in which
/// the same number of payloads has been written.
pub open spec fn trial_rank(phase: TrialPhase) -> nat {
    match phase {
        TrialPhase::Creating => 8,
        TrialPhase::Starting => 7,
        TrialPhase::Flushing => 6,
        TrialPhase::WritingBlock => 5,
        TrialPhase::Writing => 4,
        TrialPhase::FinalFlush => 3,
        TrialPhase::Stopping => 2,
        TrialPhase::Passed => 0,
        TrialPhase::Failed => 0,
    }
}

/// Runs the trial of `descriptor` on `sink`, from the first operation to
/// the last, and reports how it went.
///
/// `None` is returned, and nothing done, exactly when the descriptor asks
/// for a bulk write whose block would not fit in memory. Otherwise the
/// trial passes. It leaves the sink as [`outcome_of`] says, with the
/// payload, as many times over as there are iterations, in the file and
/// nothing in the buffer; and it reports as elapsed the number of writes
/// and flushes that its strategy issues.
pub fn run_on_sink(descriptor: TrialDescriptor, sink: &mut Sink) -> (result: Option<
    Result<TrialResult, Failure>,
>)
    requires
        old(sink)@.wf(),
    ensures
        result is None <==> descriptor.strategy == Strategy::BulkSingleWrite
            && descriptor.payload@.len() * descriptor.iterations > usize::MAX,
        result is None ==> final(sink)@ == old(sink)@,
        final(sink)@.wf(),
        result is Some ==> {
            &&& result matches Some(Ok(found))
            &&& found.strategy == descriptor.strategy
            &&& found.elapsed.nanos == descriptor.strategy.calls(descriptor.iterations as nat)
            &&& final(sink)@ == outcome_of(
                descriptor.strategy,
                old(sink)@.capacity,
                descriptor.payload@,
                descriptor.iterations as nat,
            )
            &&& final(sink)@.file == repeated(descriptor.payload@, descriptor.iterations as nat)
            &&& final(sink)@.buffer == Seq::<u8>::empty()
        },
{
    let ghost capacity = sink@.capacity;
    let ghost strategy = descriptor.strategy;
    let ghost payload = descriptor.payload@;
    let ghost iterations = descriptor.iterations as nat;
    let mut run = match TrialRun::new(descriptor) {
        Some(run) => run,
        None => {
            return None;
        },
    };
    let mut ticks: u128 = 0;
    loop
        invariant
            iterations <= u64::MAX,
            run.inv(),
            run@.strategy == strategy,
            run@.payload == payload,
            run@.iterations == iterations,
            in_step(run@, sink@, capacity, ticks as nat),
        ensures
            run.inv(),
            run@.strategy == strategy,
            run@.payload == payload,
            run@.iterations == iterations,
            in_step(run@, sink@, capacity, ticks as nat),
            run@.finished(),
        decreases run@.iterations - run@.written, trial_rank(run@.phase),
    {
        let action = run.pending();
        if let TrialAction::Finish = action {
            break ;
        }
        proof {
            lemma_in_step(run@, sink@, capacity, ticks as nat);
        }
        let event = match action {
            TrialAction::Create => sink.create(run.strategy().is_buffered()),
            TrialAction::StartTimer => {
                ticks = 0;
                TrialEvent::Done
            },
            TrialAction::WritePayload => {
                ticks = ticks + 1;
                sink.write(run.payload().as_slice())
            },
            TrialAction::WriteBlock => {
                ticks = ticks + 1;
                sink.write(run.block().as_slice())
            },
            TrialAction::Flush => {
                ticks = ticks + 1;
                sink.flush()
            },
            TrialAction::StopTimer => TrialEvent::Stopped(Elapsed { nanos: ticks }),
            TrialAction::Finish => TrialEvent::Done,
        };
        run.step(event);
    }
    proof {
        lemma_outcome_of(strategy, capacity, payload, iterations);
    }
    run.into_result()
}

} // verus!
