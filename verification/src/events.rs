//! What an operation hands back to the host.

use vstd::prelude::*;

use crate::error::Error;

verus! {

/// Which part of an entry a `SecretReady` event carries.
#[derive(Debug, Clone, Copy, PartialEq, Eq, Structural)]
pub enum FieldKind {
    /// The whole decrypted entry.
    Entry,
    /// The current one-time password.
    Otp,
}

/// The one event that a dispatched operation ends with.
#[derive(Debug, PartialEq, Eq)]
pub enum PasswordEvent {
    /// The operation is over: it has a line for the user, or nothing to say,
    /// or it failed.
    Status(Result<Option<String>, Error>),
    /// The operation fetched a secret.
    SecretReady { credential_id: String, field_kind: FieldKind, value: String },
}

/// The event of a task whose work ended with `outcome`: the event itself, or
/// the failure as a status.
pub open spec fn event_of(outcome: Result<PasswordEvent, Error>) -> PasswordEvent {
    match outcome {
        Ok(event) => event,
        Err(error) => PasswordEvent::Status(Err(error)),
    }
}

/// Turns what a task's work ended with into the one event it sends. A task
/// that failed reports the failure; none ends without an event.
pub fn task_event(outcome: Result<PasswordEvent, Error>) -> (event: PasswordEvent)
    ensures
        event == event_of(outcome),
{
    match outcome {
        Ok(event) => event,
        Err(error) => PasswordEvent::Status(Err(error)),
    }
}

} // verus!
