//! The write-strategy benchmark as a state machine.
//!
//! A trial writes one payload a fixed number of times to a fresh file, in
//! the manner of its [`Strategy`], and times the writing. The machine names
//! each operation in turn ([`TrialRun::pending`]) and takes its outcome
//! back ([`TrialRun::step`]). Creating the file, and for the bulk strategy
//! building the block, lie outside the timed region; every write and flush
//! lies inside it. The first I/O error ends the trial.

use vstd::prelude::*;
use crate::bytes::{repeat_bytes, repeated};
use crate::failure::{Failure, FailureView};

verus! {

/// The manner in which a trial writes its payloads.
#[derive(Clone, Copy, Debug, PartialEq, Eq, Structural)]
pub enum Strategy {
    /// One write to the file per iteration, with no buffer in between.
    Unbuffered,
    /// Writes go to a buffer, which is flushed after every iteration.
    BufferedFlushEach,
    /// Writes go to a buffer, which is flushed once after the last one.
    BufferedFlushOnce,
    /// All payloads are joined into one block, written by a single write.
    BulkSingleWrite,
    /// As `BufferedFlushEach`, but through blocking I/O, on a context set
    /// aside for blocking work.
    SyncPerWrite,
}

impl Strategy {
    /// Whether writes pass through a buffer in memory.
    pub open spec fn buffered(self) -> bool {
        self == Strategy::BufferedFlushEach || self == Strategy::BufferedFlushOnce || self
            == Strategy::SyncPerWrite
    }

    /// Whether every write is followed by a flush.
    pub open spec fn flushes_each(self) -> bool {
        self == Strategy::BufferedFlushEach || self == Strategy::SyncPerWrite
    }

    /// Whether the trial's I/O blocks its thread.
    pub open spec fn blocking(self) -> bool {
        self == Strategy::SyncPerWrite
    }

    /// The number of writes and flushes that a trial of `n` iterations
    /// issues.
    pub open spec fn calls(self, n: nat) -> nat {
        match self {
            Strategy::Unbuffered => n,
            Strategy::BufferedFlushEach => 2 * n,
            Strategy::BufferedFlushOnce => n + 1,
            Strategy::BulkSingleWrite => 1,
            Strategy::SyncPerWrite => 2 * n,
        }
    }

    /// Whether writes pass through a buffer in memory.
    pub fn is_buffered(&self) -> (buffered: bool)
        ensures
            buffered == self.buffered(),
    {
        match self {
            Strategy::BufferedFlushEach => true,
            Strategy::BufferedFlushOnce => true,
            Strategy::SyncPerWrite => true,
            _ => false,
        }
    }

    /// Whether every write is followed by a flush.
    pub fn is_flushed_each(&self) -> (each: bool)
        ensures
            each == self.flushes_each(),
    {
        match self {
            Strategy::BufferedFlushEach => true,
            Strategy::SyncPerWrite => true,
            _ => false,
        }
    }

    /// Whether the trial's I/O blocks its thread, so that it has to run
    /// where it holds up no other task.
    pub fn is_blocking(&self) -> (blocking: bool)
        ensures
            blocking == self.blocking(),
    {
        match self {
            Strategy::SyncPerWrite => true,
            _ => false,
        }
    }
}

/// What a trial is to do. Fixed for the whole trial.
#[derive(Debug, Clone, PartialEq, Eq)]
pub struct TrialDescriptor {
    /// The manner of writing.
    pub strategy: Strategy,
    /// How many payloads are written.
    pub iterations: u64,
    /// The record written in every iteration.
    pub payload: Vec<u8>,
    /// The file that the trial creates, or empties, and writes. No other
    /// trial uses it.
    pub path: String,
}

/// The strategies in the order in which a benchmark runs their trials.
pub open spec fn standard_order() -> Seq<Strategy> {
    seq![
        Strategy::Unbuffered,
        Strategy::BufferedFlushEach,
        Strategy::BufferedFlushOnce,
        Strategy::SyncPerWrite,
        Strategy::BulkSingleWrite,
    ]
}

/// The strategies in the order in which a benchmark runs their trials:
/// each of the five once.
pub fn trial_order() -> (order: Vec<Strategy>)
    ensures
        order@ == standard_order(),
{
    let mut order: Vec<Strategy> = Vec::new();
    order.push(Strategy::Unbuffered);
    order.push(Strategy::BufferedFlushEach);
    order.push(Strategy::BufferedFlushOnce);
    order.push(Strategy::SyncPerWrite);
    order.push(Strategy::BulkSingleWrite);
    assert(order@ =~= standard_order());
    order
}

/// Whether no two of the trials write the same file.
pub open spec fn paths_distinct(trials: Seq<TrialDescriptor>) -> bool {
    forall|i: int, j: int|
        0 <= i < j < trials.len() ==> (#[trigger] trials[i]).path@ != (#[trigger] trials[j]).path@
}

/// Whether no two of the trials write the same file, so that none
/// interferes with another.
pub fn distinct_paths(trials: &Vec<TrialDescriptor>) -> (distinct: bool)
    ensures
        distinct == paths_distinct(trials@),
{
    let mut j: usize = 0;
    while j < trials.len()
        invariant
            j <= trials@.len(),
            paths_distinct(trials@.take(j as int)),
        decreases trials@.len() - j,
    {
        let mut i: usize = 0;
        while i < j
            invariant
                i <= j < trials@.len(),
                forall|k: int| 0 <= k < i ==> (#[trigger] trials@[k]).path@ != trials@[j as int].path@,
            decreases j - i,
        {
            if trials[i].path == trials[j].path {
                return false;
            }
            i = i + 1;
        }
        assert(paths_distinct(trials@.take(j + 1))) by {
            let longer = trials@.take(j + 1);
            let shorter = trials@.take(j as int);
            assert forall|a: int, b: int| 0 <= a < b < longer.len() implies (#[trigger] longer[a]).path@
                != (#[trigger] longer[b]).path@ by {
                if b < j {
                    assert(shorter[a] == longer[a]);
                    assert(shorter[b] == longer[b]);
                }
            }
        }
        j = j + 1;
    }
    assert(trials@.take(trials@.len() as int) =~= trials@);
    true
}

/// A span of time, in nanoseconds.
#[derive(Clone, Copy, Debug, PartialEq, Eq, Structural)]
pub struct Elapsed {
    pub nanos: u128,
}

impl Elapsed {
    /// The span in whole milliseconds.
    pub fn millis(&self) -> (ms: u128)
        ensures
            ms == self.nanos / 1_000_000,
    {
        self.nanos / 1_000_000
    }
}

/// What a trial found: how long its writing took.
#[derive(Clone, Copy, Debug, PartialEq, Eq, Structural)]
pub struct TrialResult {
    pub strategy: Strategy,
    pub elapsed: Elapsed,
}

/// An operation that the machine asks its caller to perform.
#[derive(Clone, Copy, Debug, PartialEq, Eq, Structural)]
pub enum TrialAction {
    /// Create the file, or empty it if it is there, and put a buffer before
    /// it if the strategy is buffered.
    Create,
    /// Start the timer.
    StartTimer,
    /// Write the payload.
    WritePayload,
    /// Write the block of all payloads.
    WriteBlock,
    /// Flush what was written to the file.
    Flush,
    /// Stop the timer and report the time since it was started.
    StopTimer,
    /// Nothing is left to do: the trial has passed or failed.
    Finish,
}

/// The outcome of an operation.
#[derive(Debug, Clone, PartialEq, Eq)]
pub enum TrialEvent {
    /// The operation succeeded and has nothing to report.
    Done,
    /// The time that [`TrialAction::StopTimer`] measured.
    Stopped(Elapsed),
    /// The operation failed, with what the system said about it.
    Failed(String),
}

/// The mathematical content of a [`TrialEvent`].
pub enum TrialEventView {
    Done,
    Stopped(Elapsed),
    Failed(Seq<char>),
}

impl View for TrialEvent {
    type V = TrialEventView;

    open spec fn view(&self) -> TrialEventView {
        match self {
            TrialEvent::Done => TrialEventView::Done,
            TrialEvent::Stopped(elapsed) => TrialEventView::Stopped(*elapsed),
            TrialEvent::Failed(detail) => TrialEventView::Failed(detail@),
        }
    }
}

/// Where a trial stands: the operation it is waiting for, or how it ended.
#[derive(Clone, Copy, Debug, PartialEq, Eq, Structural)]
pub enum TrialPhase {
    Creating,
    Starting,
    Writing,
    Flushing,
    WritingBlock,
    FinalFlush,
    Stopping,
    Passed,
    Failed,
}

/// The mathematical state of a trial.
pub struct TrialView {
    pub path: Seq<char>,
    pub strategy: Strategy,
    pub payload: Seq<u8>,
    pub iterations: nat,
    pub phase: TrialPhase,
    /// The number of payloads written so far.
    pub written: nat,
    /// The time measured, once the trial has passed.
    pub elapsed: Option<Elapsed>,
    /// Why the trial failed, once it has.
    pub failure: Option<FailureView>,
}

impl TrialView {
    /// A trial before its first operation.
    pub open spec fn start(
        path: Seq<char>,
        strategy: Strategy,
        payload: Seq<u8>,
        iterations: nat,
    ) -> TrialView {
        TrialView {
            path,
            strategy,
            payload,
            iterations,
            phase: TrialPhase::Creating,
            written: 0,
            elapsed: None,
            failure: None,
        }
    }

    /// The block of all payloads, as the bulk strategy writes it.
    pub open spec fn block(self) -> Seq<u8> {
        repeated(self.payload, self.iterations)
    }

    /// Whether the trial has ended.
    pub open spec fn finished(self) -> bool {
        self.phase == TrialPhase::Passed || self.phase == TrialPhase::Failed
    }

    /// The iteration, counted from zero, that the pending operation belongs
    /// to: the one of the payload about to be written, or of the payload
    /// just written when its flush is pending. After the loop it is the
    /// number of iterations.
    pub open spec fn iteration(self) -> nat {
        if self.phase == TrialPhase::Flushing {
            (self.written - 1) as nat
        } else {
            self.written
        }
    }

    /// The phase that follows the last write and its flush.
    pub open spec fn epilogue(self) -> TrialPhase {
        if self.strategy == Strategy::BufferedFlushOnce {
            TrialPhase::FinalFlush
        } else {
            TrialPhase::Stopping
        }
    }

    /// The phase in which the next payload is written, or the one after the
    /// loop when `done` payloads are all there are.
    pub open spec fn entry(self, done: nat) -> TrialPhase {
        if done >= self.iterations {
            self.epilogue()
        } else {
            TrialPhase::Writing
        }
    }

    /// What holds of every state that a trial can reach.
    pub open spec fn wf(self) -> bool {
        &&& self.written <= self.iterations
        &&& self.phase == TrialPhase::Creating || self.phase == TrialPhase::Starting
            ==> self.written == 0
        &&& self.phase == TrialPhase::Writing ==> self.written < self.iterations
            && self.strategy != Strategy::BulkSingleWrite
        &&& self.phase == TrialPhase::Flushing ==> self.written >= 1
            && self.strategy.flushes_each()
        &&& self.phase == TrialPhase::WritingBlock ==> self.written == 0 && self.strategy
            == Strategy::BulkSingleWrite
        &&& self.phase == TrialPhase::FinalFlush ==> self.written == self.iterations
            && self.strategy == Strategy::BufferedFlushOnce
        &&& self.phase == TrialPhase::Stopping || self.phase == TrialPhase::Passed ==> if self.strategy
            == Strategy::BulkSingleWrite {
            self.written == 0
        } else {
            self.written == self.iterations
        }
        &&& self.phase == TrialPhase::Passed <==> self.elapsed is Some
        &&& self.phase == TrialPhase::Failed <==> self.failure is Some
        &&& self.failure matches Some(f) ==> f is IoError && f.iteration() <= self.written
    }

    /// The operation that the trial is waiting for.
    pub open spec fn pending(self) -> TrialAction {
        match self.phase {
            TrialPhase::Creating => TrialAction::Create,
            TrialPhase::Starting => TrialAction::StartTimer,
            TrialPhase::Writing => TrialAction::WritePayload,
            TrialPhase::Flushing => TrialAction::Flush,
            TrialPhase::WritingBlock => TrialAction::WriteBlock,
            TrialPhase::FinalFlush => TrialAction::Flush,
            TrialPhase::Stopping => TrialAction::StopTimer,
            TrialPhase::Passed => TrialAction::Finish,
            TrialPhase::Failed => TrialAction::Finish,
        }
    }

    /// Whether the timer is running while the pending operation is
    /// performed: from when it was started until it is stopped.
    pub open spec fn timed(self) -> bool {
        self.phase == TrialPhase::Writing || self.phase == TrialPhase::Flushing || self.phase
            == TrialPhase::WritingBlock || self.phase == TrialPhase::FinalFlush
    }

    /// Whether `event` is an outcome that the pending operation can have.
    /// A failure can come of any operation; a time only of stopping the
    /// timer, and a bare success of all others. A finished trial takes no
    /// event.
    pub open spec fn accepts(self, event: TrialEventView) -> bool {
        !self.finished() && match event {
            TrialEventView::Failed(_) => true,
            TrialEventView::Stopped(_) => self.phase == TrialPhase::Stopping,
            TrialEventView::Done => self.phase != TrialPhase::Stopping,
        }
    }

    /// The state after an accepted event that is no failure.
    pub open spec fn advance(self, event: TrialEventView) -> TrialView {
        match self.phase {
            TrialPhase::Creating => TrialView { phase: TrialPhase::Starting, ..self },
            TrialPhase::Starting => TrialView {
                phase: if self.strategy == Strategy::BulkSingleWrite {
                    TrialPhase::WritingBlock
                } else {
                    self.entry(0)
                },
                ..self
            },
            TrialPhase::Writing => TrialView {
                phase: if self.strategy.flushes_each() {
                    TrialPhase::Flushing
                } else {
                    self.entry(self.written + 1)
                },
                written: self.written + 1,
                ..self
            },
            TrialPhase::Flushing => TrialView { phase: self.entry(self.written), ..self },
            TrialPhase::WritingBlock => TrialView { phase: TrialPhase::Stopping, ..self },
            TrialPhase::FinalFlush => TrialView { phase: TrialPhase::Stopping, ..self },
            TrialPhase::Stopping => TrialView {
                phase: TrialPhase::Passed,
                elapsed: Some(event->Stopped_0),
                ..self
            },
            TrialPhase::Passed => self,
            TrialPhase::Failed => self,
        }
    }

    /// The state after `event`. An event that the pending operation cannot
    /// have changes nothing. A failure ends the trial, as an I/O error of
    /// the iteration that the operation belongs to. Any other moves the
    /// trial on to its next operation.
    pub open spec fn step(self, event: TrialEventView) -> TrialView {
        if !self.accepts(event) {
            self
        } else if let TrialEventView::Failed(detail) = event {
            TrialView {
                phase: TrialPhase::Failed,
                failure: Some(FailureView::IoError { iteration: self.iteration(), detail }),
                ..self
            }
        } else {
            self.advance(event)
        }
    }
}

/// The well-formed states are closed under events.
pub proof fn lemma_trial_step_preserves_wf(state: TrialView, event: TrialEventView)
    requires
        state.wf(),
    ensures
        state.step(event).wf(),
{
}

/// A failed operation ends the trial at once, whichever operation it was:
/// the trial fails with an I/O error that carries what the system said, and
/// asks for nothing more.
pub proof fn lemma_trial_failure_is_fatal(state: TrialView, detail: Seq<char>)
    requires
        !state.finished(),
    ensures
        state.accepts(TrialEventView::Failed(detail)),
        state.step(TrialEventView::Failed(detail)).phase == TrialPhase::Failed,
        state.step(TrialEventView::Failed(detail)).failure == Some(
            FailureView::IoError { iteration: state.iteration(), detail },
        ),
        state.step(TrialEventView::Failed(detail)).pending() == TrialAction::Finish,
        state.step(TrialEventView::Failed(detail)).elapsed == state.elapsed,
{
}

/// A trial that has ended takes no further event.
pub proof fn lemma_trial_finished_is_final(state: TrialView, event: TrialEventView)
    requires
        state.finished(),
    ensures
        state.step(event) == state,
{
}

/// A trial under way: its descriptor, how far it has come and how it ended.
pub struct TrialRun {
    descriptor: TrialDescriptor,
    block: Vec<u8>,
    phase: TrialPhase,
    written: u64,
    elapsed: Option<Elapsed>,
    failure: Option<Failure>,
}

impl View for TrialRun {
    type V = TrialView;

    closed spec fn view(&self) -> TrialView {
        TrialView {
            path: self.descriptor.path@,
            strategy: self.descriptor.strategy,
            payload: self.descriptor.payload@,
            iterations: self.descriptor.iterations as nat,
            phase: self.phase,
            written: self.written as nat,
            elapsed: self.elapsed,
            failure: match self.failure {
                Some(failure) => Some(failure@),
                None => None,
            },
        }
    }
}

impl TrialRun {
    /// The invariant of a trial: its state is one that a trial can reach,
    /// and a bulk trial holds its block.
    pub closed spec fn inv(&self) -> bool {
        &&& self@.wf()
        &&& self.descriptor.strategy == Strategy::BulkSingleWrite ==> self.block@ == self@.block()
        &&& self.descriptor.strategy != Strategy::BulkSingleWrite ==> self.block@
            == Seq::<u8>::empty()
    }

    /// A trial of `descriptor`, before its first operation. For the bulk
    /// strategy the block of all payloads is built here, ahead of the timed
    /// region.
    ///
    /// The descriptor is refused, with `None`, exactly when it asks for a
    /// bulk write whose block would not fit in memory.
    pub fn new(descriptor: TrialDescriptor) -> (out: Option<TrialRun>)
        ensures
            out is None <==> descriptor.strategy == Strategy::BulkSingleWrite
                && descriptor.payload@.len() * descriptor.iterations > usize::MAX,
            out matches Some(run) ==> run.inv() && run@.wf() && run@ == TrialView::start(
                descriptor.path@,
                descriptor.strategy,
                descriptor.payload@,
                descriptor.iterations as nat,
            ),
    {
        let block: Vec<u8> = match descriptor.strategy {
            Strategy::BulkSingleWrite => {
                match repeat_bytes(descriptor.payload.as_slice(), descriptor.iterations) {
                    Some(block) => block,
                    None => {
                        assert(descriptor.payload@.len() * descriptor.iterations
                            == descriptor.iterations * descriptor.payload@.len())
                            by (nonlinear_arith);
                        return None;
                    },
                }
            },
            _ => Vec::new(),
        };
        assert(descriptor.payload@.len() * descriptor.iterations == descriptor.iterations
            * descriptor.payload@.len()) by (nonlinear_arith);
        Some(
            TrialRun {
                descriptor,
                block,
                phase: TrialPhase::Creating,
                written: 0,
                elapsed: None,
                failure: None,
            },
        )
    }

    /// The file that the trial creates and writes.
    pub fn path(&self) -> (path: &String)
        ensures
            path@ == self@.path,
    {
        &self.descriptor.path
    }

    /// The manner of writing.
    pub fn strategy(&self) -> (strategy: Strategy)
        ensures
            strategy == self@.strategy,
    {
        self.descriptor.strategy
    }

    /// The record written in every iteration.
    pub fn payload(&self) -> (payload: &Vec<u8>)
        ensures
            payload@ == self@.payload,
    {
        &self.descriptor.payload
    }

    /// How many payloads are written.
    pub fn iterations(&self) -> (iterations: u64)
        ensures
            iterations == self@.iterations,
    {
        self.descriptor.iterations
    }

    /// The block of all payloads in a row, for the bulk strategy; empty for
    /// the others, which write payload by payload.
    pub fn block(&self) -> (block: &Vec<u8>)
        requires
            self.inv(),
        ensures
            self@.strategy == Strategy::BulkSingleWrite ==> block@ == self@.block(),
            self@.strategy != Strategy::BulkSingleWrite ==> block@ == Seq::<u8>::empty(),
    {
        &self.block
    }

    /// Where the trial stands.
    pub fn phase(&self) -> (phase: TrialPhase)
        ensures
            phase == self@.phase,
    {
        self.phase
    }

    /// The number of payloads written so far.
    pub fn written(&self) -> (written: u64)
        ensures
            written == self@.written,
    {
        self.written
    }

    /// Whether the trial has ended, passed or failed.
    pub fn is_finished(&self) -> (finished: bool)
        ensures
            finished == self@.finished(),
    {
        match self.phase {
            TrialPhase::Passed => true,
            TrialPhase::Failed => true,
            _ => false,
        }
    }

    /// The operation to perform next; [`TrialAction::Finish`] once the trial
    /// has ended.
    pub fn pending(&self) -> (action: TrialAction)
        ensures
            action == self@.pending(),
    {
        match self.phase {
            TrialPhase::Creating => TrialAction::Create,
            TrialPhase::Starting => TrialAction::StartTimer,
            TrialPhase::Writing => TrialAction::WritePayload,
            TrialPhase::Flushing => TrialAction::Flush,
            TrialPhase::WritingBlock => TrialAction::WriteBlock,
            TrialPhase::FinalFlush => TrialAction::Flush,
            TrialPhase::Stopping => TrialAction::StopTimer,
            TrialPhase::Passed => TrialAction::Finish,
            TrialPhase::Failed => TrialAction::Finish,
        }
    }

    /// Takes the outcome of the pending operation and moves the trial on,
    /// or ends it if the operation failed.
    pub fn step(&mut self, event: TrialEvent)
        requires
            old(self).inv(),
        ensures
            final(self).inv(),
            final(self)@.wf(),
            final(self)@ == old(self)@.step(event@),
    {
        proof {
            lemma_trial_step_preserves_wf(self@, event@);
        }
        let phase = self.phase;
        match phase {
            TrialPhase::Passed => {
                return ;
            },
            TrialPhase::Failed => {
                return ;
            },
            _ => {},
        }
        let bulk: bool = match self.descriptor.strategy {
            Strategy::BulkSingleWrite => true,
            _ => false,
        };
        let epilogue: TrialPhase = match self.descriptor.strategy {
            Strategy::BufferedFlushOnce => TrialPhase::FinalFlush,
            _ => TrialPhase::Stopping,
        };
        match event {
            TrialEvent::Failed(detail) => {
                let iteration: u64 = match phase {
                    TrialPhase::Flushing => self.written - 1,
                    _ => self.written,
                };
                self.failure = Some(Failure::IoError { iteration, detail });
                self.phase = TrialPhase::Failed;
            },
            TrialEvent::Stopped(elapsed) => {
                if let TrialPhase::Stopping = phase {
                    self.elapsed = Some(elapsed);
                    self.phase = TrialPhase::Passed;
                }
            },
            TrialEvent::Done => {
                match phase {
                    TrialPhase::Creating => {
                        self.phase = TrialPhase::Starting;
                    },
                    TrialPhase::Starting => {
                        self.phase = if bulk {
                            TrialPhase::WritingBlock
                        } else if self.descriptor.iterations == 0 {
                            epilogue
                        } else {
                            TrialPhase::Writing
                        };
                    },
                    TrialPhase::Writing => {
                        self.written = self.written + 1;
                        self.phase = if self.descriptor.strategy.is_flushed_each() {
                            TrialPhase::Flushing
                        } else if self.written >= self.descriptor.iterations {
                            epilogue
                        } else {
                            TrialPhase::Writing
                        };
                    },
                    TrialPhase::Flushing => {
                        self.phase = if self.written >= self.descriptor.iterations {
                            epilogue
                        } else {
                            TrialPhase::Writing
                        };
                    },
                    TrialPhase::WritingBlock => {
                        self.phase = TrialPhase::Stopping;
                    },
                    TrialPhase::FinalFlush => {
                        self.phase = TrialPhase::Stopping;
                    },
                    _ => {},
                }
            },
        }
    }

    /// How the trial ended: its result if it passed, the failure if it
    /// failed, and `None` while it is still under way.
    pub fn into_result(self) -> (result: Option<Result<TrialResult, Failure>>)
        requires
            self.inv(),
        ensures
            result is Some == self@.finished(),
            result matches Some(Ok(found)) ==> self@.phase == TrialPhase::Passed && found.strategy
                == self@.strategy && Some(found.elapsed) == self@.elapsed,
            result matches Some(Err(failure)) ==> self@.phase == TrialPhase::Failed && Some(
                failure@,
            ) == self@.failure,
    {
        match self.phase {
            TrialPhase::Passed => match self.elapsed {
                Some(elapsed) => Some(
                    Ok(TrialResult { strategy: self.descriptor.strategy, elapsed }),
                ),
                None => None,
            },
            TrialPhase::Failed => match self.failure {
                Some(failure) => Some(Err(failure)),
                None => None,
            },
            _ => None,
        }
    }
}

} // verus!
