//! The durability verification loop as a state machine.
//!
//! One iteration appends the payload, forces a data sync, asks for the
//! file's length, and reads the last payload-sized bytes back through a
//! freshly opened, independent handle. The machine names each operation in
//! turn ([`Verifier::pending`]) and judges its outcome ([`Verifier::step`]).
//! It moves on only when the outcome passes; the first failure ends the run
//! for good.

use vstd::prelude::*;
use crate::bytes::{copy_bytes, same_bytes};
use crate::failure::{Failure, FailureView, failure_of};

verus! {

/// How the handles that write and sync are laid out.
#[derive(Clone, Copy, Debug, PartialEq, Eq, Structural)]
pub enum Topology {
    /// One handle writes and syncs; it is opened anew in every iteration.
    SingleReopen,
    /// One handle writes and syncs; it is opened once and kept for the run.
    SingleReuse,
    /// One handle writes, a second one only syncs; both are opened once.
    Split,
}

/// The handles of a run. Each is opened on the same path.
#[derive(Clone, Copy, Debug, PartialEq, Eq, Structural)]
pub enum Handle {
    /// Opened for appending, creating the file if need be. The only handle
    /// that writes.
    Writer,
    /// Opened for writing on the existing file, and used for nothing but the
    /// data sync.
    Syncer,
    /// Opened read-only, afresh in every iteration, for the read-back.
    Reader,
}

/// An operation that the machine asks its caller to perform.
#[derive(Clone, Copy, Debug, PartialEq, Eq, Structural)]
pub enum Action {
    /// Delete the file if it exists.
    Remove,
    /// Open the handle, replacing an earlier one of the same role.
    Open(Handle),
    /// Write the whole payload through the writer.
    Write,
    /// Force a data sync through the handle: return only when what was
    /// written is durable. A flush of buffers is no substitute.
    Sync(Handle),
    /// Look up the file's current length by its path.
    QueryLength,
    /// Move the reader to this offset from the start of the file.
    Seek(u64),
    /// Read this many bytes through the reader, fewer only at end of file.
    Read(u64),
    /// Nothing is left to do: the run has passed or failed.
    Finish,
}

/// The outcome of an operation.
#[derive(Debug, Clone, PartialEq, Eq)]
pub enum Event {
    /// The operation succeeded and has nothing to report.
    Done,
    /// The length that [`Action::QueryLength`] found.
    Length(u64),
    /// The bytes that [`Action::Read`] got.
    Data(Vec<u8>),
    /// The operation failed, with what the system said about it.
    Failed(String),
}

/// The mathematical content of an [`Event`].
pub enum EventView {
    Done,
    Length(nat),
    Data(Seq<u8>),
    Failed(Seq<char>),
}

impl View for Event {
    type V = EventView;

    open spec fn view(&self) -> EventView {
        match self {
            Event::Done => EventView::Done,
            Event::Length(len) => EventView::Length(*len as nat),
            Event::Data(bytes) => EventView::Data(bytes@),
            Event::Failed(detail) => EventView::Failed(detail@),
        }
    }
}

/// Where a run stands: the operation it is waiting for, or how it ended.
#[derive(Clone, Copy, Debug, PartialEq, Eq, Structural)]
pub enum Phase {
    Removing,
    OpeningWriter,
    OpeningSyncer,
    Writing,
    Syncing,
    Measuring,
    OpeningReader,
    Seeking,
    Reading,
    Passed,
    Failed,
}

/// What a run is to do. Fixed for the whole run.
#[derive(Debug, Clone, PartialEq, Eq)]
pub struct Scenario {
    /// The file that the run writes and reads.
    pub path: String,
    /// The record appended in every iteration.
    pub payload: Vec<u8>,
    /// How many iterations make up the run.
    pub iterations: u64,
    /// The layout of the handles.
    pub topology: Topology,
}

/// The length that a file of `iteration` earlier records has after one more.
pub open spec fn expected_length(payload_len: nat, iteration: nat) -> nat {
    payload_len * (iteration + 1)
}

/// How a measured length is judged: it passes only if it is exactly the
/// expected one. A shorter file has lost a write, a longer one holds a
/// write too many; both fail.
pub open spec fn length_verdict(iteration: nat, expected: nat, actual: nat) -> Option<
    FailureView,
> {
    if actual == expected {
        None
    } else {
        Some(FailureView::LengthMismatch { iteration, expected, actual })
    }
}

/// How the bytes read back are judged: they pass only if they are the
/// payload, byte for byte. No bytes at all is the empty read; anything else
/// is a content mismatch.
pub open spec fn read_verdict(iteration: nat, payload: Seq<u8>, data: Seq<u8>) -> Option<
    FailureView,
> {
    if data == payload {
        None
    } else if data.len() == 0 {
        Some(FailureView::EmptyRead { iteration })
    } else {
        Some(FailureView::ContentMismatch { iteration, expected: payload, actual: data })
    }
}

/// Judges the length measured in `iteration` against the expected one.
pub fn check_length(iteration: u64, expected: u64, actual: u64) -> (checked: Result<(), Failure>)
    ensures
        failure_of(checked) == length_verdict(iteration as nat, expected as nat, actual as nat),
{
    if actual == expected {
        Ok(())
    } else {
        Err(Failure::LengthMismatch { iteration, expected, actual })
    }
}

/// Judges the bytes read back in `iteration` against the payload.
pub fn check_read(iteration: u64, payload: &[u8], data: Vec<u8>) -> (checked: Result<(), Failure>)
    ensures
        failure_of(checked) == read_verdict(iteration as nat, payload@, data@),
{
    if same_bytes(payload, data.as_slice()) {
        Ok(())
    } else if data.len() == 0 {
        Err(Failure::EmptyRead { iteration })
    } else {
        Err(Failure::ContentMismatch { iteration, expected: copy_bytes(payload), actual: data })
    }
}

/// The mathematical state of a run.
pub struct VerifierView {
    pub path: Seq<char>,
    pub topology: Topology,
    pub payload: Seq<u8>,
    pub iterations: nat,
    pub phase: Phase,
    /// The number of iterations that have passed all their checks.
    pub iteration: nat,
    /// Why the run failed, once it has.
    pub failure: Option<FailureView>,
    /// The lengths that passed, one for each iteration measured so far.
    pub lengths: Seq<nat>,
    /// The reads that passed, one for each iteration completed so far.
    pub reads: Seq<Seq<u8>>,
}

impl VerifierView {
    /// A run before its first operation.
    pub open spec fn start(
        path: Seq<char>,
        topology: Topology,
        payload: Seq<u8>,
        iterations: nat,
    ) -> VerifierView {
        VerifierView {
            path,
            topology,
            payload,
            iterations,
            phase: Phase::Removing,
            iteration: 0,
            failure: None,
            lengths: Seq::empty(),
            reads: Seq::empty(),
        }
    }

    /// The length that all completed iterations together account for.
    pub open spec fn expected_len(self) -> nat {
        self.payload.len() * self.iteration
    }

    /// The handle through which this run syncs.
    pub open spec fn sync_handle(self) -> Handle {
        if self.topology == Topology::Split {
            Handle::Syncer
        } else {
            Handle::Writer
        }
    }

    /// Whether the run has ended.
    pub open spec fn finished(self) -> bool {
        self.phase == Phase::Passed || self.phase == Phase::Failed
    }

    /// Whether the current iteration's length has been measured and passed.
    pub open spec fn measured(self) -> bool {
        self.phase == Phase::OpeningReader || self.phase == Phase::Seeking || self.phase
            == Phase::Reading
    }

    /// Whether the run is inside an iteration.
    pub open spec fn in_iteration(self) -> bool {
        ||| self.phase == Phase::OpeningWriter && self.topology == Topology::SingleReopen
        ||| self.phase == Phase::Writing
        ||| self.phase == Phase::Syncing
        ||| self.phase == Phase::Measuring
        ||| self.measured()
    }

    /// The phase in which an iteration begins, or the end of the run when
    /// `done` iterations are all there are.
    pub open spec fn entry(self, done: nat) -> Phase {
        if done >= self.iterations {
            Phase::Passed
        } else if self.topology == Topology::SingleReopen {
            Phase::OpeningWriter
        } else {
            Phase::Writing
        }
    }

    /// What holds of every state that a run can reach.
    pub open spec fn wf(self) -> bool {
        &&& self.payload.len() <= usize::MAX
        &&& self.payload.len() * self.iterations <= u64::MAX
        &&& self.iteration <= self.iterations
        &&& self.in_iteration() ==> self.iteration < self.iterations
        &&& self.phase == Phase::Passed ==> self.iteration == self.iterations
        &&& self.phase == Phase::Failed <==> self.failure is Some
        &&& self.phase == Phase::Removing ==> self.iteration == 0
        &&& self.phase == Phase::OpeningSyncer ==> self.topology == Topology::Split
            && self.iteration == 0
        &&& self.phase == Phase::OpeningWriter && self.topology != Topology::SingleReopen
            ==> self.iteration == 0
        &&& self.failure matches Some(f) ==> f.iteration() == self.iteration
        &&& self.reads.len() == self.iteration
        &&& self.iteration <= self.lengths.len() <= self.iteration + 1
        &&& self.measured() ==> self.lengths.len() == self.iteration + 1
        &&& !self.measured() && self.phase != Phase::Failed ==> self.lengths.len()
            == self.iteration
        &&& forall|i: int|
            0 <= i < self.lengths.len() ==> #[trigger] self.lengths[i] == expected_length(
                self.payload.len(),
                i as nat,
            )
        &&& forall|i: int| 0 <= i < self.reads.len() ==> #[trigger] self.reads[i] == self.payload
    }

    /// The operation that the run is waiting for.
    pub open spec fn pending(self) -> Action {
        match self.phase {
            Phase::Removing => Action::Remove,
            Phase::OpeningWriter => Action::Open(Handle::Writer),
            Phase::OpeningSyncer => Action::Open(Handle::Syncer),
            Phase::Writing => Action::Write,
            Phase::Syncing => Action::Sync(self.sync_handle()),
            Phase::Measuring => Action::QueryLength,
            Phase::OpeningReader => Action::Open(Handle::Reader),
            Phase::Seeking => Action::Seek(self.expected_len() as u64),
            Phase::Reading => Action::Read(self.payload.len() as u64),
            Phase::Passed => Action::Finish,
            Phase::Failed => Action::Finish,
        }
    }

    /// Whether `event` is an outcome that the pending operation can have.
    /// A failure can come of any operation; a length only of the length
    /// query, bytes only of the read, and a bare success of all others. A
    /// finished run takes no event.
    pub open spec fn accepts(self, event: EventView) -> bool {
        !self.finished() && match event {
            EventView::Failed(_) => true,
            EventView::Length(_) => self.phase == Phase::Measuring,
            EventView::Data(_) => self.phase == Phase::Reading,
            EventView::Done => self.phase != Phase::Measuring && self.phase != Phase::Reading,
        }
    }

    /// The failure that an accepted event amounts to, if it is one.
    pub open spec fn verdict(self, event: EventView) -> Option<FailureView> {
        match event {
            EventView::Done => None,
            EventView::Failed(detail) => Some(
                FailureView::IoError { iteration: self.iteration, detail },
            ),
            EventView::Length(actual) => length_verdict(
                self.iteration,
                expected_length(self.payload.len(), self.iteration),
                actual,
            ),
            EventView::Data(data) => read_verdict(self.iteration, self.payload, data),
        }
    }

    /// The state after an accepted event that passed.
    pub open spec fn advance(self, event: EventView) -> VerifierView {
        match self.phase {
            Phase::Removing => VerifierView {
                phase: if self.topology == Topology::SingleReopen {
                    self.entry(0)
                } else {
                    Phase::OpeningWriter
                },
                ..self
            },
            Phase::OpeningWriter => VerifierView {
                phase: if self.topology == Topology::SingleReopen {
                    Phase::Writing
                } else if self.topology == Topology::Split {
                    Phase::OpeningSyncer
                } else {
                    self.entry(0)
                },
                ..self
            },
            Phase::OpeningSyncer => VerifierView { phase: self.entry(0), ..self },
            Phase::Writing => VerifierView { phase: Phase::Syncing, ..self },
            Phase::Syncing => VerifierView { phase: Phase::Measuring, ..self },
            Phase::Measuring => VerifierView {
                phase: Phase::OpeningReader,
                lengths: self.lengths.push(event->Length_0),
                ..self
            },
            Phase::OpeningReader => VerifierView { phase: Phase::Seeking, ..self },
            Phase::Seeking => VerifierView { phase: Phase::Reading, ..self },
            Phase::Reading => VerifierView {
                phase: self.entry(self.iteration + 1),
                iteration: self.iteration + 1,
                reads: self.reads.push(event->Data_0),
                ..self
            },
            Phase::Passed => self,
            Phase::Failed => self,
        }
    }

    /// The state after `event`. An event that the pending operation cannot
    /// have changes nothing. One that amounts to a failure ends the run with
    /// it. Any other moves the run on to its next operation.
    pub open spec fn step(self, event: EventView) -> VerifierView {
        if !self.accepts(event) {
            self
        } else if let Some(failure) = self.verdict(event) {
            VerifierView { phase: Phase::Failed, failure: Some(failure), ..self }
        } else {
            self.advance(event)
        }
    }
}

/// The well-formed states are closed under events.
pub proof fn lemma_step_preserves_wf(state: VerifierView, event: EventView)
    requires
        state.wf(),
    ensures
        state.step(event).wf(),
{
    let next = state.step(event);
    if state.accepts(event) && state.verdict(event) is None {
        let len = state.payload.len();
        if state.phase == Phase::Measuring {
            assert forall|i: int| 0 <= i < next.lengths.len() implies #[trigger] next.lengths[i]
                == expected_length(len, i as nat) by {
                if i < state.lengths.len() {
                    assert(next.lengths[i] == state.lengths[i]);
                }
            }
        }
        if state.phase == Phase::Reading {
            assert forall|i: int| 0 <= i < next.reads.len() implies #[trigger] next.reads[i]
                == next.payload by {
                if i < state.reads.len() {
                    assert(next.reads[i] == state.reads[i]);
                }
            }
        }
    }
}

impl VerifierView {
    /// The state after a sequence of events, taken one by one.
    pub open spec fn run(self, events: Seq<EventView>) -> VerifierView
        decreases events.len(),
    {
        if events.len() == 0 {
            self
        } else {
            self.run(events.drop_last()).step(events.last())
        }
    }
}

/// A run starts in a well-formed state, provided the file it is to write
/// has a length that fits.
pub proof fn lemma_start_wf(
    path: Seq<char>,
    topology: Topology,
    payload: Seq<u8>,
    iterations: nat,
)
    requires
        payload.len() <= usize::MAX,
        payload.len() * iterations <= u64::MAX,
    ensures
        VerifierView::start(path, topology, payload, iterations).wf(),
{
}

/// Whatever events come, a run stays in well-formed states.
pub proof fn lemma_run_preserves_wf(state: VerifierView, events: Seq<EventView>)
    requires
        state.wf(),
    ensures
        state.run(events).wf(),
    decreases events.len(),
{
    if events.len() > 0 {
        lemma_run_preserves_wf(state, events.drop_last());
        lemma_step_preserves_wf(state.run(events.drop_last()), events.last());
    }
}

/// A run that has ended takes no further event: a failure is final, and so
/// is a pass.
pub proof fn lemma_finished_is_final(state: VerifierView, events: Seq<EventView>)
    requires
        state.finished(),
    ensures
        state.run(events) == state,
    decreases events.len(),
{
    if events.len() > 0 {
        lemma_finished_is_final(state, events.drop_last());
    }
}

/// An outcome that amounts to a failure ends the run at once, in the
/// iteration it arose in, whatever the operation was.
pub proof fn lemma_failure_is_fatal(state: VerifierView, event: EventView)
    requires
        state.accepts(event),
        state.verdict(event) is Some,
    ensures
        state.step(event).phase == Phase::Failed,
        state.step(event).failure == state.verdict(event),
        state.step(event).pending() == Action::Finish,
        state.step(event).iteration == state.iteration,
{
}

/// What the history of a run records: a length is added to the lengths
/// exactly when it is measured and passes, and bytes are added to the reads
/// exactly when they are read back and pass. Nothing is ever taken out or
/// changed.
pub proof fn lemma_history_records(state: VerifierView, event: EventView)
    ensures
        state.step(event).lengths == if state.phase == Phase::Measuring && event
            == EventView::Length(expected_length(state.payload.len(), state.iteration)) {
            state.lengths.push(expected_length(state.payload.len(), state.iteration))
        } else {
            state.lengths
        },
        state.step(event).reads == if state.phase == Phase::Reading && event == EventView::Data(
            state.payload,
        ) {
            state.reads.push(state.payload)
        } else {
            state.reads
        },
{
    if state.phase == Phase::Reading && event is Data {
        assert(event == EventView::Data(state.payload) <==> event->Data_0 == state.payload);
    }
    if state.phase == Phase::Measuring && event is Length {
        let wanted = expected_length(state.payload.len(), state.iteration);
        assert(event == EventView::Length(wanted) <==> event->Length_0 == wanted);
    }
}

/// Lengths grow by exactly one payload per iteration: in a run that
/// passed, whatever events it was given, the length measured after
/// iteration `i`, counted from zero, was the payload size times `i + 1`,
/// for every iteration of the run.
pub proof fn lemma_passed_lengths(
    path: Seq<char>,
    topology: Topology,
    payload: Seq<u8>,
    iterations: nat,
    events: Seq<EventView>,
)
    requires
        payload.len() <= usize::MAX,
        payload.len() * iterations <= u64::MAX,
        VerifierView::start(path, topology, payload, iterations).run(events).phase
            == Phase::Passed,
    ensures
        ({
            let end = VerifierView::start(path, topology, payload, iterations).run(events);
            &&& end.lengths.len() == iterations
            &&& forall|i: int|
                0 <= i < iterations ==> #[trigger] end.lengths[i] == payload.len() * (i + 1)
        }),
{
    let start = VerifierView::start(path, topology, payload, iterations);
    lemma_run_preserves_wf(start, events);
    lemma_run_keeps_scenario(start, events);
    let end = start.run(events);
    assert forall|i: int| 0 <= i < iterations implies #[trigger] end.lengths[i] == payload.len()
        * (i + 1) by {
        assert(end.lengths[i] == expected_length(end.payload.len(), i as nat));
    }
}

/// Every write was seen: in a run that passed, whatever events it was
/// given, the bytes read back in every iteration were the payload, byte
/// for byte.
pub proof fn lemma_passed_reads(
    path: Seq<char>,
    topology: Topology,
    payload: Seq<u8>,
    iterations: nat,
    events: Seq<EventView>,
)
    requires
        payload.len() <= usize::MAX,
        payload.len() * iterations <= u64::MAX,
        VerifierView::start(path, topology, payload, iterations).run(events).phase
            == Phase::Passed,
    ensures
        ({
            let end = VerifierView::start(path, topology, payload, iterations).run(events);
            &&& end.reads.len() == iterations
            &&& forall|i: int| 0 <= i < iterations ==> #[trigger] end.reads[i] == payload
        }),
{
    let start = VerifierView::start(path, topology, payload, iterations);
    lemma_run_preserves_wf(start, events);
    lemma_run_keeps_scenario(start, events);
}

/// The expected length starts at nothing and never shrinks: an event leaves
/// it as it was or adds one payload to it, and it adds one exactly when the
/// event completes an iteration.
pub proof fn lemma_expected_len_grows(state: VerifierView, event: EventView)
    ensures
        VerifierView::start(state.path, state.topology, state.payload, state.iterations).expected_len()
            == 0,
        state.step(event).iteration == state.iteration || state.step(event).iteration
            == state.iteration + 1,
        state.step(event).expected_len() == state.expected_len() + if state.step(event).iteration
            == state.iteration {
            0
        } else {
            state.payload.len() as int
        },
        state.step(event).iteration == state.iteration + 1 <==> state.phase == Phase::Reading
            && event == EventView::Data(state.payload),
{
    let len = state.payload.len();
    let i = state.iteration;
    assert(len * 0 == 0) by (nonlinear_arith);
    assert(len * (i + 1) == len * i + len) by (nonlinear_arith);
    if state.phase == Phase::Reading && event is Data {
        assert(event == EventView::Data(state.payload) <==> event->Data_0 == state.payload);
    }
}

/// The scenario of a run never changes.
pub proof fn lemma_run_keeps_scenario(state: VerifierView, events: Seq<EventView>)
    ensures
        state.run(events).path == state.path,
        state.run(events).topology == state.topology,
        state.run(events).payload == state.payload,
        state.run(events).iterations == state.iterations,
    decreases events.len(),
{
    if events.len() > 0 {
        lemma_run_keeps_scenario(state, events.drop_last());
    }
}

/// The order of an iteration: the reader is opened, sent to its place and
/// read only after the length measured in this iteration has passed, and
/// the read-back starts exactly one payload before the end of the file as
/// measured. The length is asked for only after the sync, and the sync only
/// after the write.
pub proof fn lemma_read_back_position(state: VerifierView)
    requires
        state.wf(),
    ensures
        state.pending() == Action::Open(Handle::Reader) ==> state.measured(),
        state.pending() is Seek ==> state.measured() && state.pending() == Action::Seek(
            (state.lengths.last() - state.payload.len()) as u64,
        ),
        state.pending() is Read ==> state.measured() && state.pending() == Action::Read(
            state.payload.len() as u64,
        ),
        forall|event: EventView|
            state.step(event).pending() is Sync && !(state.pending() is Sync) ==> state.pending()
                == Action::Write,
        forall|event: EventView|
            state.step(event).pending() == Action::QueryLength && state.pending()
                != Action::QueryLength ==> state.pending() is Sync,
{
    if state.measured() {
        let i = state.iteration;
        let len = state.payload.len();
        assert(state.lengths.last() == state.lengths[i as int]);
        assert(state.lengths[i as int] == expected_length(len, i));
        assert(len * (i + 1) == len * i + len) by (nonlinear_arith);
    }
}

/// The split layout is held to the same checks as the single one: a split
/// run and a run that reuses one handle, at the same point of the same
/// scenario, accept the same events, judge them alike and move alike. They
/// ask for the same operations too, but for the sync, which the split run
/// asks of the handle that never writes.
pub proof fn lemma_split_checks_alike(single: VerifierView, event: EventView)
    requires
        single.wf(),
        single.topology == Topology::SingleReuse,
        single.in_iteration() || single.finished(),
    ensures
        ({
            let split = VerifierView { topology: Topology::Split, ..single };
            &&& split.wf()
            &&& split.accepts(event) == single.accepts(event)
            &&& split.verdict(event) == single.verdict(event)
            &&& split.step(event) == VerifierView { topology: Topology::Split, ..single.step(event) }
            &&& single.pending() is Sync ==> single.pending() == Action::Sync(Handle::Writer)
                && split.pending() == Action::Sync(Handle::Syncer)
            &&& !(single.pending() is Sync) ==> split.pending() == single.pending()
            &&& split.pending() != Action::Open(Handle::Syncer)
        }),
{
}

/// A read-back that yields no bytes is never taken for the end of a file
/// that is as it should be. Judged on its own it is the empty read; and a
/// run that gets it fails with the empty read, in the iteration under way.
pub proof fn lemma_empty_read_is_flagged(state: VerifierView)
    requires
        state.wf(),
        state.phase == Phase::Reading,
        state.payload.len() > 0,
    ensures
        read_verdict(state.iteration, state.payload, Seq::<u8>::empty()) == Some(
            FailureView::EmptyRead { iteration: state.iteration },
        ),
        state.accepts(EventView::Data(Seq::<u8>::empty())),
        state.step(EventView::Data(Seq::<u8>::empty())).phase == Phase::Failed,
        state.step(EventView::Data(Seq::<u8>::empty())).failure == Some(
            FailureView::EmptyRead { iteration: state.iteration },
        ),
{
}

/// A length that is not exactly the expected one, be it shorter or longer,
/// never passes: it ends the run with a length mismatch that names the
/// iteration, the expected length and the length found.
pub proof fn lemma_wrong_length_is_fatal(state: VerifierView, actual: nat)
    requires
        state.wf(),
        state.phase == Phase::Measuring,
        actual != state.payload.len() * (state.iteration + 1),
    ensures
        state.accepts(EventView::Length(actual)),
        state.step(EventView::Length(actual)).phase == Phase::Failed,
        state.step(EventView::Length(actual)).failure == Some(
            FailureView::LengthMismatch {
                iteration: state.iteration,
                expected: state.payload.len() * (state.iteration + 1),
                actual,
            },
        ),
{
}

/// A run of the verification loop: its scenario, how far it has come and
/// how it ended.
pub struct Verifier {
    scenario: Scenario,
    phase: Phase,
    iteration: u64,
    expected_len: u64,
    failure: Option<Failure>,
    lengths: Ghost<Seq<nat>>,
    reads: Ghost<Seq<Seq<u8>>>,
}

impl View for Verifier {
    type V = VerifierView;

    closed spec fn view(&self) -> VerifierView {
        VerifierView {
            path: self.scenario.path@,
            topology: self.scenario.topology,
            payload: self.scenario.payload@,
            iterations: self.scenario.iterations as nat,
            phase: self.phase,
            iteration: self.iteration as nat,
            failure: match self.failure {
                Some(failure) => Some(failure@),
                None => None,
            },
            lengths: self.lengths@,
            reads: self.reads@,
        }
    }
}

impl Verifier {
    /// The invariant of a run: its state is one that a run can reach, and
    /// the expected length it keeps is the one its completed iterations
    /// account for.
    pub closed spec fn inv(&self) -> bool {
        &&& self@.wf()
        &&& self.expected_len == self@.expected_len()
    }

    /// A run of `scenario`, before its first operation.
    ///
    /// The scenario is refused, with `None`, exactly when the file it would
    /// write is longer than a length can say.
    pub fn new(scenario: Scenario) -> (out: Option<Verifier>)
        ensures
            out is Some <==> scenario.payload@.len() * scenario.iterations <= u64::MAX,
            out matches Some(run) ==> run.inv() && run@.wf() && run@ == VerifierView::start(
                scenario.path@,
                scenario.topology,
                scenario.payload@,
                scenario.iterations as nat,
            ),
    {
        let payload_len: usize = scenario.payload.len();
        assert(payload_len * scenario.iterations <= usize::MAX * u64::MAX) by (nonlinear_arith)
            requires
                0 <= payload_len <= usize::MAX,
                0 <= scenario.iterations <= u64::MAX,
        ;
        let total: u128 = (payload_len as u128) * (scenario.iterations as u128);
        if total > u64::MAX as u128 {
            return None;
        }
        let run = Verifier {
            scenario,
            phase: Phase::Removing,
            iteration: 0,
            expected_len: 0,
            failure: None,
            lengths: Ghost(Seq::empty()),
            reads: Ghost(Seq::empty()),
        };
        assert(run@.payload.len() * 0 == 0) by (nonlinear_arith);
        Some(run)
    }

    /// The file that the run writes and reads.
    pub fn path(&self) -> (path: &String)
        ensures
            path@ == self@.path,
    {
        &self.scenario.path
    }

    /// The record appended in every iteration.
    pub fn payload(&self) -> (payload: &Vec<u8>)
        ensures
            payload@ == self@.payload,
    {
        &self.scenario.payload
    }

    /// The layout of the handles.
    pub fn topology(&self) -> (topology: Topology)
        ensures
            topology == self@.topology,
    {
        self.scenario.topology
    }

    /// How many iterations make up the run.
    pub fn iterations(&self) -> (iterations: u64)
        ensures
            iterations == self@.iterations,
    {
        self.scenario.iterations
    }

    /// Where the run stands.
    pub fn phase(&self) -> (phase: Phase)
        ensures
            phase == self@.phase,
    {
        self.phase
    }

    /// The number of iterations that have passed all their checks; also the
    /// number, counted from zero, of the iteration under way.
    pub fn iteration(&self) -> (iteration: u64)
        ensures
            iteration == self@.iteration,
    {
        self.iteration
    }

    /// The length that the completed iterations account for: the payload
    /// size times their number.
    pub fn expected_len(&self) -> (len: u64)
        requires
            self.inv(),
        ensures
            len == self@.payload.len() * self@.iteration,
    {
        self.expected_len
    }

    /// Whether the run has ended, passed or failed.
    pub fn is_finished(&self) -> (finished: bool)
        ensures
            finished == self@.finished(),
    {
        match self.phase {
            Phase::Passed => true,
            Phase::Failed => true,
            _ => false,
        }
    }

    /// Why the run failed, if it has.
    pub fn failure(&self) -> (failure: &Option<Failure>)
        ensures
            failure is Some == self@.failure is Some,
            failure matches Some(f) ==> Some(f@) == self@.failure,
    {
        &self.failure
    }

    /// How the run ended: `Ok` if it passed, the failure if it failed, and
    /// `None` while it is still under way.
    pub fn into_verdict(self) -> (verdict: Option<Result<(), Failure>>)
        requires
            self.inv(),
        ensures
            verdict is Some == self@.finished(),
            verdict matches Some(ended) ==> failure_of(ended) == self@.failure,
            verdict matches Some(ended) ==> (ended is Ok <==> self@.phase == Phase::Passed),
    {
        match self.phase {
            Phase::Passed => Some(Ok(())),
            Phase::Failed => match self.failure {
                Some(failure) => Some(Err(failure)),
                None => None,
            },
            _ => None,
        }
    }

    /// The operation to perform next; [`Action::Finish`] once the run has
    /// ended.
    pub fn pending(&self) -> (action: Action)
        requires
            self.inv(),
        ensures
            action == self@.pending(),
    {
        match self.phase {
            Phase::Removing => Action::Remove,
            Phase::OpeningWriter => Action::Open(Handle::Writer),
            Phase::OpeningSyncer => Action::Open(Handle::Syncer),
            Phase::Writing => Action::Write,
            Phase::Syncing => match self.scenario.topology {
                Topology::Split => Action::Sync(Handle::Syncer),
                _ => Action::Sync(Handle::Writer),
            },
            Phase::Measuring => Action::QueryLength,
            Phase::OpeningReader => Action::Open(Handle::Reader),
            Phase::Seeking => Action::Seek(self.expected_len),
            Phase::Reading => Action::Read(self.scenario.payload.len() as u64),
            Phase::Passed => Action::Finish,
            Phase::Failed => Action::Finish,
        }
    }

    /// Takes the outcome of the pending operation and moves the run on, or
    /// ends it with the failure that the outcome amounts to.
    pub fn step(&mut self, event: Event)
        requires
            old(self).inv(),
        ensures
            final(self).inv(),
            final(self)@.wf(),
            final(self)@ == old(self)@.step(event@),
    {
        proof {
            lemma_step_preserves_wf(self@, event@);
        }
        let phase = self.phase;
        let payload_len: u64 = self.scenario.payload.len() as u64;
        let reopen: bool = match self.scenario.topology {
            Topology::SingleReopen => true,
            _ => false,
        };
        let split: bool = match self.scenario.topology {
            Topology::Split => true,
            _ => false,
        };
        let entry: Phase = if self.scenario.iterations == 0 {
            Phase::Passed
        } else if reopen {
            Phase::OpeningWriter
        } else {
            Phase::Writing
        };
        match phase {
            Phase::Passed => {
                return ;
            },
            Phase::Failed => {
                return ;
            },
            _ => {},
        }
        match event {
            Event::Failed(detail) => {
                self.failure = Some(Failure::IoError { iteration: self.iteration, detail });
                self.phase = Phase::Failed;
            },
            Event::Length(actual) => {
                if let Phase::Measuring = phase {
                    assert(payload_len * (self.iteration + 1) <= payload_len
                        * self.scenario.iterations) by (nonlinear_arith)
                        requires
                            self.iteration + 1 <= self.scenario.iterations,
                            payload_len >= 0,
                    ;
                    assert(payload_len * (self.iteration + 1) == payload_len * self.iteration
                        + payload_len) by (nonlinear_arith);
                    let expected: u64 = self.expected_len + payload_len;
                    match check_length(self.iteration, expected, actual) {
                        Ok(_) => {
                            self.lengths = Ghost(self.lengths@.push(actual as nat));
                            self.phase = Phase::OpeningReader;
                        },
                        Err(failure) => {
                            self.failure = Some(failure);
                            self.phase = Phase::Failed;
                        },
                    }
                }
            },
            Event::Data(data) => {
                if let Phase::Reading = phase {
                    let ghost bytes = data@;
                    match check_read(self.iteration, self.scenario.payload.as_slice(), data) {
                        Ok(_) => {
                            assert(payload_len * (self.iteration + 1) <= payload_len
                                * self.scenario.iterations) by (nonlinear_arith)
                                requires
                                    self.iteration + 1 <= self.scenario.iterations,
                                    payload_len >= 0,
                            ;
                            assert(payload_len * (self.iteration + 1) == payload_len
                                * self.iteration + payload_len) by (nonlinear_arith);
                            self.reads = Ghost(self.reads@.push(bytes));
                            self.iteration = self.iteration + 1;
                            self.expected_len = self.expected_len + payload_len;
                            self.phase = if self.iteration == self.scenario.iterations {
                                Phase::Passed
                            } else if reopen {
                                Phase::OpeningWriter
                            } else {
                                Phase::Writing
                            };
                        },
                        Err(failure) => {
                            self.failure = Some(failure);
                            self.phase = Phase::Failed;
                        },
                    }
                }
            },
            Event::Done => {
                match phase {
                    Phase::Removing => {
                        self.phase = if reopen {
                            entry
                        } else {
                            Phase::OpeningWriter
                        };
                    },
                    Phase::OpeningWriter => {
                        self.phase = if reopen {
                            Phase::Writing
                        } else if split {
                            Phase::OpeningSyncer
                        } else {
                            entry
                        };
                    },
                    Phase::OpeningSyncer => {
                        self.phase = entry;
                    },
                    Phase::Writing => {
                        self.phase = Phase::Syncing;
                    },
                    Phase::Syncing => {
                        self.phase = Phase::Measuring;
                    },
                    Phase::OpeningReader => {
                        self.phase = Phase::Seeking;
                    },
                    Phase::Seeking => {
                        self.phase = Phase::Reading;
                    },
                    _ => {},
                }
            },
        }
    }
}

} // verus!
