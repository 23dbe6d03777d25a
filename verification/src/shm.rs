//! Decisions taken while a shared-memory file is allocated for a buffer.
//!
//! The system calls are made elsewhere; after each one that fails, this
//! module says how to go on.

use vstd::prelude::*;

verus! {

/// The two ways to obtain the file.
#[derive(Clone, Copy, Debug, PartialEq, Eq)]
pub enum ShmMethod {
    /// An anonymous memory file. Tried first.
    MemFd,
    /// A named shared-memory object, unlinked as soon as it is open.
    ShmOpen,
}

/// Why an attempt failed, as far as the allocation tells errors apart.
#[derive(Clone, Copy, Debug, PartialEq, Eq)]
pub enum ShmFailure {
    /// A signal interrupted the call.
    Interrupted,
    /// The system does not implement the call.
    Unsupported,
    /// An object of the chosen name exists already.
    NameTaken,
    /// Any other error.
    Other,
}

/// How to go on after a failed attempt.
#[derive(Clone, Copy, Debug, PartialEq, Eq)]
pub enum ShmStep {
    /// Make the same call again.
    Retry,
    /// Choose a new name, then make the same call again.
    RetryRenamed,
    /// Give up on memory files and open a named object instead.
    FallBack,
    /// Report the error to the caller.
    GiveUp,
}

/// How to go on after an attempt by `method` failed with `failure`. An
/// interrupted call is always repeated. Only a missing memory-file call leads
/// to the named object, and only a taken name to a new one; every other error
/// ends the allocation.
pub open spec fn step_after(method: ShmMethod, failure: ShmFailure) -> ShmStep {
    match (method, failure) {
        (_, ShmFailure::Interrupted) => ShmStep::Retry,
        (ShmMethod::MemFd, ShmFailure::Unsupported) => ShmStep::FallBack,
        (ShmMethod::ShmOpen, ShmFailure::NameTaken) => ShmStep::RetryRenamed,
        _ => ShmStep::GiveUp,
    }
}

/// How to go on after an attempt by `method` failed with `failure`.
pub fn after_failure(method: ShmMethod, failure: ShmFailure) -> (step: ShmStep)
    ensures
        step == step_after(method, failure),
{
    match failure {
        ShmFailure::Interrupted => ShmStep::Retry,
        ShmFailure::Unsupported => match method {
            ShmMethod::MemFd => ShmStep::FallBack,
            ShmMethod::ShmOpen => ShmStep::GiveUp,
        },
        ShmFailure::NameTaken => match method {
            ShmMethod::MemFd => ShmStep::GiveUp,
            ShmMethod::ShmOpen => ShmStep::RetryRenamed,
        },
        ShmFailure::Other => ShmStep::GiveUp,
    }
}

/// The error to report when a named object was opened but could not be
/// unlinked: the object is closed, and if closing fails too, that later error
/// is the one reported.
pub open spec fn error_after_unlink(unlink_error: i32, close_error: Option<i32>) -> i32 {
    match close_error {
        Some(later) => later,
        None => unlink_error,
    }
}

/// The error to report when a named object was opened but could not be
/// unlinked.
pub fn reported_error(unlink_error: i32, close_error: Option<i32>) -> (error: i32)
    ensures
        error == error_after_unlink(unlink_error, close_error),
{
    match close_error {
        Some(later) => later,
        None => unlink_error,
    }
}

/// The fallback is entered at most once and never left: no failure leads from
/// the named object back to memory files, and none repeats the fallback.
pub proof fn lemma_fallback_is_one_way(failure: ShmFailure)
    ensures
        step_after(ShmMethod::ShmOpen, failure) != ShmStep::FallBack,
        step_after(ShmMethod::MemFd, failure) != ShmStep::RetryRenamed,
{
}

} // verus!
