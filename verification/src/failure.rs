//! What can end a run: a broken invariant or an I/O error.

use vstd::prelude::*;

verus! {

/// Why a run was aborted. Every failure is fatal to its run and carries the
/// number of the iteration, counted from zero, in which it arose.
#[derive(Debug, Clone, PartialEq, Eq)]
#[allow(inconsistent_fields)]
pub enum Failure {
    /// The file was shorter or longer than the writes so far account for.
    LengthMismatch { iteration: u64, expected: u64, actual: u64 },
    /// The bytes read back differ from the payload, in content or in number.
    ContentMismatch { iteration: u64, expected: Vec<u8>, actual: Vec<u8> },
    /// The reader got no bytes at all where the payload was due: it saw the
    /// file as it was before the write.
    EmptyRead { iteration: u64 },
    /// An operation on the file failed; `detail` is what the system said.
    IoError { iteration: u64, detail: String },
}

/// The mathematical content of a [`Failure`].
#[allow(inconsistent_fields)]
pub enum FailureView {
    LengthMismatch { iteration: nat, expected: nat, actual: nat },
    ContentMismatch { iteration: nat, expected: Seq<u8>, actual: Seq<u8> },
    EmptyRead { iteration: nat },
    IoError { iteration: nat, detail: Seq<char> },
}

impl View for Failure {
    type V = FailureView;

    open spec fn view(&self) -> FailureView {
        match self {
            Failure::LengthMismatch { iteration, expected, actual } => FailureView::LengthMismatch {
                iteration: *iteration as nat,
                expected: *expected as nat,
                actual: *actual as nat,
            },
            Failure::ContentMismatch { iteration, expected, actual } => {
                FailureView::ContentMismatch {
                    iteration: *iteration as nat,
                    expected: expected@,
                    actual: actual@,
                }
            },
            Failure::EmptyRead { iteration } => FailureView::EmptyRead {
                iteration: *iteration as nat,
            },
            Failure::IoError { iteration, detail } => FailureView::IoError {
                iteration: *iteration as nat,
                detail: detail@,
            },
        }
    }
}

impl FailureView {
    /// The iteration in which the failure arose.
    pub open spec fn iteration(self) -> nat {
        match self {
            FailureView::LengthMismatch { iteration, .. } => iteration,
            FailureView::ContentMismatch { iteration, .. } => iteration,
            FailureView::EmptyRead { iteration } => iteration,
            FailureView::IoError { iteration, .. } => iteration,
        }
    }

    /// Whether the failure is a broken invariant rather than an I/O error.
    pub open spec fn is_violation(self) -> bool {
        !(self is IoError)
    }
}

/// The failure, if any, that the result of a check stands for.
pub open spec fn failure_of(checked: Result<(), Failure>) -> Option<FailureView> {
    match checked {
        Ok(_) => None,
        Err(failure) => Some(failure@),
    }
}

impl Failure {
    /// The iteration, counted from zero, in which the failure arose.
    pub fn iteration(&self) -> (i: u64)
        ensures
            i == self@.iteration(),
    {
        match self {
            Failure::LengthMismatch { iteration, .. } => *iteration,
            Failure::ContentMismatch { iteration, .. } => *iteration,
            Failure::EmptyRead { iteration } => *iteration,
            Failure::IoError { iteration, .. } => *iteration,
        }
    }

    /// Whether the failure is a broken invariant, the thing a run hunts for,
    /// rather than an I/O error.
    pub fn is_violation(&self) -> (v: bool)
        ensures
            v == self@.is_violation(),
    {
        match self {
            Failure::IoError { .. } => false,
            _ => true,
        }
    }
}

} // verus!
