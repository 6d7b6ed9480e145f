//! The verification loop run against the in-memory disk.
//!
//! [`verify_on_disk`] performs every operation that a run asks for on a
//! [`Disk`] and hands the outcome back, until the run ends. Because the disk
//! shows nothing before a sync, a run can pass on it only by syncing between
//! each write and its checks; and because the disk can be made to write
//! short or twice, the checks can be seen to catch a write that went wrong.

use vstd::prelude::*;
use crate::bytes::{lemma_repeated_last, lemma_repeated_len, repeated};
use crate::disk::{harmed, Disk, DiskView, Fault, FaultKind};
use crate::durability::{
    expected_length,
    lemma_step_preserves_wf,
    Action,
    EventView,
    Phase,
    Scenario,
    Topology,
    Verifier,
    VerifierView,
};
use crate::failure::{failure_of, Failure, FailureView};

verus! {

/// What the write of iteration `i` puts into the file, on a disk planted
/// with `fault`.
pub open spec fn write_of(fault: Option<Fault>, payload: Seq<u8>, i: nat) -> Seq<u8> {
    match fault {
        Some(planted) => if planted.after == i {
            harmed(planted.kind, payload)
        } else {
            payload
        },
        None => payload,
    }
}

/// Whether the fault falls on one of the first `n` writes and changes the
/// number of bytes written.
pub open spec fn strikes(fault: Option<Fault>, payload: Seq<u8>, n: nat) -> bool {
    fault matches Some(planted) && planted.after < n && harmed(planted.kind, payload).len()
        != payload.len()
}

/// What is left of the fault after `writes` writes.
pub open spec fn fault_left(fault: Option<Fault>, writes: nat) -> Option<Fault> {
    match fault {
        Some(planted) => if planted.after >= writes {
            Some(Fault { after: (planted.after - writes) as u64, kind: planted.kind })
        } else {
            None
        },
        None => None,
    }
}

/// How a run of `n` iterations ends on a disk planted with `fault`: with a
/// length mismatch in the iteration whose write the fault struck, and well
/// otherwise.
pub open spec fn replay_verdict(fault: Option<Fault>, payload: Seq<u8>, n: nat) -> Option<
    FailureView,
> {
    if strikes(fault, payload, n) {
        let at = fault->Some_0.after as nat;
        Some(
            FailureView::LengthMismatch {
                iteration: at,
                expected: expected_length(payload.len(), at),
                actual: payload.len() * at + harmed(fault->Some_0.kind, payload).len(),
            },
        )
    } else {
        None
    }
}

/// What the file holds when the run has ended: every whole payload written,
/// and after them the write that went wrong, if one did.
pub open spec fn replay_content(fault: Option<Fault>, payload: Seq<u8>, n: nat) -> Seq<u8> {
    if strikes(fault, payload, n) {
        repeated(payload, fault->Some_0.after as nat) + harmed(fault->Some_0.kind, payload)
    } else {
        repeated(payload, n)
    }
}

/// A write that went wrong never goes unnoticed: a short write, or a
/// second copy of a payload that is not empty, planted on any write of a
/// run, ends the run in that very iteration with a length mismatch. The
/// length found is below the expected one after a short write and above it
/// after a duplicate. The run never passes.
pub proof fn lemma_fault_is_caught(fault: Fault, payload: Seq<u8>, n: nat)
    requires
        fault.after < n,
        payload.len() > 0,
        fault.kind matches FaultKind::ShortWrite { kept } ==> kept < payload.len(),
    ensures
        strikes(Some(fault), payload, n),
        replay_verdict(Some(fault), payload, n) matches Some(
            FailureView::LengthMismatch { iteration, expected, actual },
        ) && iteration == fault.after && expected == payload.len() * (fault.after + 1) && actual
            != expected && (fault.kind is ShortWrite ==> actual < expected) && (fault.kind
            is DuplicateWrite ==> actual > expected),
{
    let len = payload.len();
    let at = fault.after as nat;
    assert(len * (at + 1) == len * at + len) by (nonlinear_arith);
}

/// A run on a sound disk passes, and leaves the payload in the file as
/// many times over as the run has iterations, so that the file's length is
/// the payload's size times their number.
pub proof fn lemma_sound_run(payload: Seq<u8>, n: nat)
    ensures
        replay_verdict(None, payload, n) is None,
        replay_content(None, payload, n) == repeated(payload, n),
        replay_content(None, payload, n).len() == n * payload.len(),
{
    lemma_repeated_len(payload, n);
}

/// How far a phase is from the end of the run, among the phases of one
/// iteration.
pub open spec fn rank(phase: Phase) -> nat {
    match phase {
        Phase::Removing => 10,
        Phase::OpeningWriter => 9,
        Phase::OpeningSyncer => 8,
        Phase::Writing => 7,
        Phase::Syncing => 6,
        Phase::Measuring => 5,
        Phase::OpeningReader => 4,
        Phase::Seeking => 3,
        Phase::Reading => 2,
        Phase::Passed => 0,
        Phase::Failed => 0,
    }
}

/// Whether the write of the iteration under way has been issued.
pub open spec fn wrote(phase: Phase) -> bool {
    phase == Phase::Syncing || phase == Phase::Measuring || phase == Phase::OpeningReader || phase
        == Phase::Seeking || phase == Phase::Reading
}

/// Whether the handles that the rest of the run relies on are open.
pub open spec fn handles_open(run: VerifierView, disk: DiskView) -> bool {
    &&& disk.present
    &&& disk.writer
    &&& run.topology == Topology::Split ==> disk.syncer
}

/// How the disk stands to a run that is performed on it, at every point of
/// the run. `fault` is the fault that the disk was planted with.
pub open spec fn coupled(run: VerifierView, disk: DiskView, fault: Option<Fault>) -> bool {
    let i = run.iteration;
    let payload = run.payload;
    let base = repeated(payload, i);
    let put = write_of(fault, payload, i);
    &&& run.wf()
    &&& !strikes(fault, payload, i)
    &&& run.phase != Phase::Failed ==> disk.fault == fault_left(
        fault,
        if wrote(run.phase) {
            i + 1
        } else {
            i
        },
    )
    &&& match run.phase {
        Phase::Removing => true,
        Phase::OpeningWriter => {
            &&& disk.staged == Seq::<u8>::empty()
            &&& disk.visible == base
        },
        Phase::OpeningSyncer => {
            &&& disk.staged == Seq::<u8>::empty()
            &&& disk.visible == base
            &&& disk.present
            &&& disk.writer
        },
        Phase::Writing => {
            &&& disk.staged == Seq::<u8>::empty()
            &&& disk.visible == base
            &&& handles_open(run, disk)
        },
        Phase::Syncing => {
            &&& disk.staged == put
            &&& disk.visible == base
            &&& handles_open(run, disk)
        },
        Phase::Measuring => {
            &&& disk.staged == Seq::<u8>::empty()
            &&& disk.visible == base + put
            &&& handles_open(run, disk)
        },
        Phase::OpeningReader => {
            &&& disk.staged == Seq::<u8>::empty()
            &&& disk.visible == repeated(payload, i + 1)
            &&& put.len() == payload.len()
            &&& handles_open(run, disk)
        },
        Phase::Seeking => {
            &&& disk.staged == Seq::<u8>::empty()
            &&& disk.visible == repeated(payload, i + 1)
            &&& put.len() == payload.len()
            &&& handles_open(run, disk)
            &&& disk.reader is Some
        },
        Phase::Reading => {
            &&& disk.staged == Seq::<u8>::empty()
            &&& disk.visible == repeated(payload, i + 1)
            &&& put.len() == payload.len()
            &&& handles_open(run, disk)
            &&& disk.reader == Some(payload.len() * i)
        },
        Phase::Passed => {
            &&& disk.staged == Seq::<u8>::empty()
            &&& disk.visible == base
        },
        Phase::Failed => {
            &&& disk.staged == Seq::<u8>::empty()
            &&& strikes(fault, payload, run.iterations)
            &&& fault->Some_0.after == i
            &&& disk.visible == base + put
            &&& run.failure == replay_verdict(fault, payload, run.iterations)
        },
    }
}

/// A faulty write that puts as many bytes as the payload has puts the
/// payload.
pub proof fn lemma_harmless(kind: FaultKind, payload: Seq<u8>)
    requires
        harmed(kind, payload).len() == payload.len(),
    ensures
        harmed(kind, payload) == payload,
{
    assert(harmed(kind, payload) =~= payload);
}

/// The coupling of run and disk holds on through every operation: when the
/// disk performs what the run asks for and the run takes the outcome, they
/// stand to each other as before.
pub proof fn lemma_coupled_step(run: VerifierView, disk: DiskView, fault: Option<Fault>)
    requires
        coupled(run, disk, fault),
        !run.finished(),
    ensures
        run.accepts(disk.outcome(run.pending(), run.payload)),
        coupled(
            run.step(disk.outcome(run.pending(), run.payload)),
            disk.after(run.pending(), run.payload),
            fault,
        ),
{
    let action = run.pending();
    let payload = run.payload;
    let event = disk.outcome(action, payload);
    let next = run.step(event);
    let after = disk.after(action, payload);
    let i = run.iteration;
    let len = payload.len();
    let put = write_of(fault, payload, i);
    lemma_step_preserves_wf(run, event);
    lemma_repeated_len(payload, i);
    assert(len * (i + 1) == len * i + len) by (nonlinear_arith);
    assert(len * 0 == 0) by (nonlinear_arith);
    if run.in_iteration() {
        assert(len * (i + 1) <= len * run.iterations) by (nonlinear_arith)
            requires
                i + 1 <= run.iterations,
                len >= 0,
        ;
        lemma_repeated_last(payload, i + 1);
        lemma_repeated_len(payload, i + 1);
    }
    match run.phase {
        Phase::Removing => {
            assert(repeated(payload, 0) =~= Seq::<u8>::empty());
        },
        Phase::Syncing => {
            assert(disk.visible + disk.staged =~= repeated(payload, i) + put);
        },
        Phase::Writing => {
            assert(disk.staged + disk.written(payload) =~= put);
        },
        Phase::Measuring => {
            if put.len() == len {
                if fault is Some && fault->Some_0.after == i {
                    lemma_harmless(fault->Some_0.kind, payload);
                }
                assert(put == payload);
                assert(repeated(payload, i + 1) == repeated(payload, i) + payload);
            }
        },
        Phase::Reading => {
            let whole = repeated(payload, i + 1);
            assert(disk.span(len * i, len) =~= payload);
            if fault is Some && fault->Some_0.after == i {
                lemma_harmless(fault->Some_0.kind, payload);
            }
        },
        _ => {},
    }
}

/// The run and the disk after the first `k` operations of the run have been
/// performed on the disk and each outcome handed back to the run. A run
/// that has ended performs nothing more.
pub open spec fn replayed(run: VerifierView, disk: DiskView, k: nat) -> (VerifierView, DiskView)
    decreases k,
{
    if k == 0 {
        (run, disk)
    } else {
        let (before, on) = replayed(run, disk, (k - 1) as nat);
        if before.finished() {
            (before, on)
        } else {
            (
                before.step(on.outcome(before.pending(), before.payload)),
                on.after(before.pending(), before.payload),
            )
        }
    }
}

/// A number of operations that no run of `n` iterations exceeds.
pub open spec fn enough(n: nat) -> nat {
    10 * n + 10
}

/// An upper bound of the operations that a run has still to perform.
pub open spec fn distance(run: VerifierView) -> nat {
    ((run.iterations - run.iteration) * 10 + rank(run.phase)) as nat
}

/// Through any number of operations the run and the disk stay coupled, the
/// scenario stays what it was, and the run comes closer to its end with
/// every operation.
pub proof fn lemma_replayed_coupled(
    run: VerifierView,
    disk: DiskView,
    fault: Option<Fault>,
    k: nat,
)
    requires
        coupled(run, disk, fault),
    ensures
        coupled(replayed(run, disk, k).0, replayed(run, disk, k).1, fault),
        replayed(run, disk, k).0.payload == run.payload,
        replayed(run, disk, k).0.iterations == run.iterations,
        replayed(run, disk, k).0.finished() || distance(replayed(run, disk, k).0) + k <= distance(
            run,
        ),
    decreases k,
{
    if k > 0 {
        let (before, on) = replayed(run, disk, (k - 1) as nat);
        lemma_replayed_coupled(run, disk, fault, (k - 1) as nat);
        if !before.finished() {
            lemma_coupled_step(before, on, fault);
        }
    }
}

/// Once a run has ended, further operations change neither it nor the disk.
pub proof fn lemma_replayed_stays(run: VerifierView, disk: DiskView, k: nat, more: nat)
    requires
        replayed(run, disk, k).0.finished(),
        k <= more,
    ensures
        replayed(run, disk, more) == replayed(run, disk, k),
    decreases more,
{
    if more > k {
        lemma_replayed_stays(run, disk, k, (more - 1) as nat);
    }
}

/// How every run ends on the disk, whichever handles it uses: after
/// [`enough`] operations it has ended; it has failed with the length
/// mismatch of the iteration that the disk's fault struck, or passed if the
/// fault struck none; and the file holds every whole payload written and
/// then the write that went wrong. In a run that passed, every length
/// measured was the payload's size times the number of writes so far, and
/// every read-back was the payload.
pub proof fn lemma_replay(
    path: Seq<char>,
    topology: Topology,
    payload: Seq<u8>,
    n: nat,
    disk: DiskView,
)
    requires
        payload.len() <= usize::MAX,
        payload.len() * n <= u64::MAX,
    ensures
        ({
            let (run, end) = replayed(
                VerifierView::start(path, topology, payload, n),
                disk,
                enough(n),
            );
            &&& run.finished()
            &&& run.wf()
            &&& run.failure == replay_verdict(disk.fault, payload, n)
            &&& run.phase == Phase::Passed <==> !strikes(disk.fault, payload, n)
            &&& end.visible == replay_content(disk.fault, payload, n)
            &&& end.staged == Seq::<u8>::empty()
            &&& run.phase == Phase::Passed ==> run.lengths.len() == n && run.reads.len() == n
            &&& run.phase == Phase::Passed ==> forall|i: int|
                0 <= i < n ==> #[trigger] run.lengths[i] == payload.len() * (i + 1)
            &&& run.phase == Phase::Passed ==> forall|i: int|
                0 <= i < n ==> #[trigger] run.reads[i] == payload
        }),
{
    let start = VerifierView::start(path, topology, payload, n);
    lemma_replayed_coupled(start, disk, disk.fault, enough(n));
    let (run, end) = replayed(start, disk, enough(n));
    assert(run.finished());
    if run.phase == Phase::Passed {
        assert forall|i: int| 0 <= i < n implies #[trigger] run.lengths[i] == payload.len() * (i
            + 1) by {
            assert(run.lengths[i] == expected_length(run.payload.len(), i as nat));
        }
    }
}

/// The layout of the handles makes no difference to the end of a run: on
/// equal disks, a run that syncs through a handle that never wrote ends as
/// a run does that syncs through the handle that wrote, with the same
/// verdict and the same bytes in the file.
pub proof fn lemma_topologies_end_alike(
    path: Seq<char>,
    one: Topology,
    other: Topology,
    payload: Seq<u8>,
    n: nat,
    disk: DiskView,
)
    requires
        payload.len() <= usize::MAX,
        payload.len() * n <= u64::MAX,
    ensures
        ({
            let (run_one, end_one) = replayed(
                VerifierView::start(path, one, payload, n),
                disk,
                enough(n),
            );
            let (run_other, end_other) = replayed(
                VerifierView::start(path, other, payload, n),
                disk,
                enough(n),
            );
            &&& run_one.finished() && run_other.finished()
            &&& run_one.phase == run_other.phase
            &&& run_one.failure == run_other.failure
            &&& end_one.visible == end_other.visible
            &&& disk.fault is None ==> run_one.phase == Phase::Passed
        }),
{
    lemma_replay(path, one, payload, n, disk);
    lemma_replay(path, other, payload, n, disk);
}

/// Runs `scenario` on `disk`, from the first operation to the last, and
/// says how the run ended.
///
/// `None` is returned, and nothing done, exactly when the scenario's file
/// would be longer than a length can say. Otherwise the run passes unless
/// the disk's fault strikes one of its writes, and then it fails with the
/// length mismatch of that iteration. The disk is left as [`replayed`] says:
/// as its own operations, performed one after another for the run, leave
/// it. Which handles the scenario uses makes no difference to the verdict
/// or to the bytes in the file.
pub fn verify_on_disk(scenario: Scenario, disk: &mut Disk) -> (verdict: Option<
    Result<(), Failure>,
>)
    ensures
        verdict is Some <==> scenario.payload@.len() * scenario.iterations <= u64::MAX,
        verdict is None ==> final(disk)@ == old(disk)@,
        verdict matches Some(ended) ==> {
            &&& failure_of(ended) == replay_verdict(
                old(disk)@.fault,
                scenario.payload@,
                scenario.iterations as nat,
            )
            &&& final(disk)@.visible == replay_content(
                old(disk)@.fault,
                scenario.payload@,
                scenario.iterations as nat,
            )
            &&& final(disk)@.staged == Seq::<u8>::empty()
            &&& final(disk)@ == replayed(
                VerifierView::start(
                    scenario.path@,
                    scenario.topology,
                    scenario.payload@,
                    scenario.iterations as nat,
                ),
                old(disk)@,
                enough(scenario.iterations as nat),
            ).1
        },
{
    let ghost fault = disk@.fault;
    let ghost before = disk@;
    let ghost payload = scenario.payload@;
    let ghost iterations = scenario.iterations as nat;
    let ghost start = VerifierView::start(
        scenario.path@,
        scenario.topology,
        payload,
        iterations,
    );
    let mut run = match Verifier::new(scenario) {
        Some(run) => run,
        None => {
            return None;
        },
    };
    let ghost mut steps: nat = 0;
    loop
        invariant
            run.inv(),
            run@.payload == payload,
            run@.iterations == iterations,
            coupled(start, before, fault),
            coupled(run@, disk@, fault),
            distance(start) == enough(iterations),
            steps <= enough(iterations),
            (run@, disk@) == replayed(start, before, steps),
        ensures
            run.inv(),
            run@.payload == payload,
            run@.iterations == iterations,
            coupled(run@, disk@, fault),
            run@.finished(),
            steps <= enough(iterations),
            (run@, disk@) == replayed(start, before, steps),
        decreases run@.iterations - run@.iteration, rank(run@.phase),
    {
        let action = run.pending();
        if let Action::Finish = action {
            break ;
        }
        proof {
            lemma_coupled_step(run@, disk@, fault);
            lemma_replayed_coupled(start, before, fault, steps);
            steps = steps + 1;
        }
        let event = disk.perform(action, run.payload().as_slice());
        run.step(event);
    }
    proof {
        lemma_replayed_stays(start, before, steps, enough(iterations));
    }
    run.into_verdict()
}

} // verus!
