//! An event-sourced aggregate engine for an organization that tracks
//! registered usernames.
//!
//! The engine separates *decision* from *mutation*: `aggregate::decide`
//! validates a command against the current state and produces events or a
//! rejection, while `aggregate::evolve` applies one event to a state and
//! returns the next state. Committed events are held in an append-only
//! `log::EventLog` guarded by an optimistic-concurrency generation
//! counter, and `runtime::AggregateRuntime` coordinates the
//! decide / append / evolve cycle for one aggregate instance.

pub mod aggregate;
pub mod events;
pub mod log;
pub mod runtime;
pub mod state;
