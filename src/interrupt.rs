//! A process-wide cancellation flag, polled by every wait.

use vstd::prelude::*;
use std::sync::atomic::{AtomicBool, Ordering};

verus! {

/// A flag that any thread may raise and that waits poll. Nothing lowers it
/// again.
#[derive(Clone, Copy, Debug)]
pub struct InterruptFlag(pub &'static AtomicBool);

/// A wait was cancelled.
#[derive(Clone, Copy, Debug, PartialEq, Eq, Structural)]
pub struct InterruptError;

impl InterruptError {
    /// The notice shown for a cancelled build.
    pub fn message(&self) -> (r: &'static str)
        ensures
            r@ == "Interrupted."@,
    {
        "Interrupted."
    }

    /// The outcome of a check of the flag that read `raised`.
    pub fn check(raised: bool) -> (r: Result<(), InterruptError>)
        ensures
            r is Err <==> raised,
    {
        if raised {
            Err(InterruptError)
        } else {
            Ok(())
        }
    }
}

impl InterruptFlag {
    /// Whether the flag is raised. Other threads may raise it at any time,
    /// so two reads may differ.
    pub fn interrupted(&self) -> bool {
        self.0.load(Ordering::Relaxed)
    }

    /// Raises the flag.
    pub fn interrupt(&self) {
        self.0.store(true, Ordering::Relaxed);
    }

    /// Fails when the flag is raised.
    pub fn check_interrupted(&self) -> (r: Result<(), InterruptError>) {
        InterruptError::check(self.interrupted())
    }

    /// What one poll of a channel receive decides: a value or a closed
    /// channel ends the wait; a timeout ends it with an error when the flag
    /// was read raised, and otherwise asks for another poll.
    pub fn after_poll<T>(&self, outcome: RecvOutcome<T>) -> (r: PollStep<T>)
        ensures
            match outcome {
                RecvOutcome::Value(v) => r matches PollStep::Done(Ok(Some(w))) && w == v,
                RecvOutcome::Disconnected => r matches PollStep::Done(Ok(None)),
                RecvOutcome::Timeout => r is Again || r matches PollStep::Done(Err(_)),
            },
    {
        decide_poll(outcome, self.interrupted())
    }
}

/// What one bounded wait on a channel gave.
pub enum RecvOutcome<T> {
    Value(T),
    Disconnected,
    Timeout,
}

/// Whether a wait is over, and with what.
pub enum PollStep<T> {
    Done(Result<Option<T>, InterruptError>),
    Again,
}

/// What one poll decides, given whether the flag was read raised.
pub fn decide_poll<T>(outcome: RecvOutcome<T>, raised: bool) -> (r: PollStep<T>)
    ensures
        match outcome {
            RecvOutcome::Value(v) => r matches PollStep::Done(Ok(Some(w))) && w == v,
            RecvOutcome::Disconnected => r matches PollStep::Done(Ok(None)),
            RecvOutcome::Timeout => if raised {
                r matches PollStep::Done(Err(_))
            } else {
                r is Again
            },
        },
{
    match outcome {
        RecvOutcome::Value(v) => PollStep::Done(Ok(Some(v))),
        RecvOutcome::Disconnected => PollStep::Done(Ok(None)),
        RecvOutcome::Timeout => {
            if raised {
                PollStep::Done(Err(InterruptError))
            } else {
                PollStep::Again
            }
        },
    }
}

} // verus!
