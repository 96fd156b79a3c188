//! Commands, events, and the error taxonomy of the aggregate.

use vstd::prelude::*;

verus! {

/// A request to change the aggregate's state. May be rejected by `decide`.
#[derive(Debug, Clone)]
pub enum Command {
    RegisterUser { username: String, email: String },
    DeleteUser { username: String },
}

/// An immutable fact recording an accepted state change; the unit of
/// persistence and notification.
#[derive(Debug, PartialEq, Eq)]
pub enum Event {
    UserRegistered { username: String, email: String },
    UserDeleted { username: String },
}

impl Clone for Event {
    /// An event's clone is the event itself, field for field.
    fn clone(&self) -> (r: Event)
        ensures
            r == *self,
    {
        match self {
            Event::UserRegistered { username, email } => Event::UserRegistered {
                username: username.clone(),
                email: email.clone(),
            },
            Event::UserDeleted { username } => Event::UserDeleted { username: username.clone() },
        }
    }
}

/// A business-rule failure: the command was rejected, no state changed.
#[derive(Debug, Clone, PartialEq, Eq)]
pub enum RejectionReason {
    /// A `RegisterUser` command named a username that is already taken.
    UsernameTaken,
}

/// The optimistic-concurrency precondition of an append failed: the log's
/// recorded generation no longer matches the expected generation.
#[derive(Debug, Clone, PartialEq, Eq)]
pub struct ConflictError {
    /// The generation the caller expected the log to be at.
    pub expected_generation: u64,
    /// The generation the log actually recorded.
    pub recorded_generation: u64,
}

/// Why a submitted command produced no committed events.
#[derive(Debug, Clone, PartialEq, Eq)]
pub enum CommandError {
    /// `decide` rejected the command; no state change, nothing persisted.
    Rejected(RejectionReason),
    /// The log's generation had advanced past the runtime's state; nothing
    /// was applied or persisted.
    Conflict(ConflictError),
}

/// The username a command speaks of.
pub open spec fn command_username(c: Command) -> Seq<char> {
    match c {
        Command::RegisterUser { username, .. } => username@,
        Command::DeleteUser { username } => username@,
    }
}

/// The username an event speaks of.
pub open spec fn event_username(e: Event) -> Seq<char> {
    match e {
        Event::UserRegistered { username, .. } => username@,
        Event::UserDeleted { username } => username@,
    }
}

/// Whether `e` registers the username `u`.
pub open spec fn is_registration_of(e: Event, u: Seq<char>) -> bool {
    e is UserRegistered && event_username(e) == u
}

/// Whether `e` deletes the username `u`.
pub open spec fn is_deletion_of(e: Event, u: Seq<char>) -> bool {
    e is UserDeleted && event_username(e) == u
}

/// The type tag an event carries on the wire.
pub open spec fn event_type_tag(e: Event) -> Seq<char> {
    match e {
        Event::UserRegistered { .. } => "UserRegistered"@,
        Event::UserDeleted { .. } => "UserDeleted"@,
    }
}

impl Event {
    /// The name of this event's variant, as it appears in the wire
    /// representation's type tag.
    pub fn type_tag(&self) -> (r: String)
        ensures
            r@ == event_type_tag(*self),
    {
        match self {
            Event::UserRegistered { .. } => "UserRegistered".to_owned(),
            Event::UserDeleted { .. } => "UserDeleted".to_owned(),
        }
    }
}

} // verus!
