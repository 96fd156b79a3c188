//! The single-writer coordinator: owns the current state of one aggregate
//! instance and serializes command processing against it.
//!
//! Exclusive access is Rust ownership itself: `submit` takes the runtime and
//! the instance's log by `&mut`, so at most one decide / append / evolve
//! cycle per instance is in flight at a time, while independent instances
//! proceed fully in parallel. A hosting process that shares one instance
//! across execution contexts wraps the pair in its own exclusion discipline
//! (a mutex, a single-owner task, or a channel-fed consumer).

use vstd::prelude::*;

use crate::aggregate::decide;
use crate::aggregate::decide_spec;
use crate::aggregate::evolve_all;
use crate::aggregate::evolve_all_spec;
use crate::aggregate::evolve_spec;
use crate::aggregate::lemma_evolve_all_singleton;
use crate::events::Command;
use crate::events::CommandError;
use crate::events::ConflictError;
use crate::events::Event;
use crate::events::RejectionReason;
use crate::events::command_username;
use crate::events::event_type_tag;
use crate::log::EventLog;
use crate::state::AggregateState;
use crate::state::StateView;

verus! {

/// The wire representation of one committed event: its type tag, the
/// domain-version identifier, the source identifier, and the event's own
/// fields — enough for a consumer to deserialize without out-of-band schema
/// knowledge.
pub struct EventEnvelope {
    pub event_type: String,
    pub version: String,
    pub source: String,
    pub event: Event,
}

/// The coordinator for exactly one aggregate instance: its current state,
/// and the version and source identifiers it attaches to each committed
/// event's envelope.
pub struct AggregateRuntime {
    pub state: AggregateState,
    pub version: String,
    pub source: String,
}

impl AggregateRuntime {
    /// The runtime's state never lists a username twice.
    pub open spec fn wf(&self) -> bool {
        self.state.wf()
    }

    /// A runtime for a fresh instance: empty username set, generation 0.
    pub fn new(version: String, source: String) -> (r: AggregateRuntime)
        ensures
            r.wf(),
            r.state@ == StateView::initial(),
            r.version == version,
            r.source == source,
    {
        AggregateRuntime { state: AggregateState::new(), version, source }
    }

    /// A runtime whose state is reconstructed by replaying all committed
    /// events of the instance from its log, in persisted order, over the
    /// initial state.
    pub fn replay(log: &EventLog, version: String, source: String) -> (r: AggregateRuntime)
        requires
            log@.len() <= u64::MAX,
        ensures
            r.wf(),
            r.state@ == evolve_all_spec(StateView::initial(), log@),
            r.version == version,
            r.source == source,
    {
        let initial = AggregateState::new();
        let state = evolve_all(&initial, log.load());
        AggregateRuntime { state, version, source }
    }

    /// Process one command: decide against the current state; on acceptance
    /// append the events to the log under this state's generation as the
    /// optimistic-concurrency token, fold them into the new current state,
    /// and hand the committed events back for publication.
    ///
    /// On rejection or conflict neither the state nor the log changes, and
    /// no event exists to publish: in particular, a conflicting append
    /// applies no event. A conflict is only reachable if the log was
    /// advanced past this runtime's state by some external writer.
    pub fn submit(&mut self, log: &mut EventLog, command: &Command) -> (r: Result<
        Vec<Event>,
        CommandError,
    >)
        requires
            old(self).wf(),
            old(log).wf(),
            old(self).state@.generation < u64::MAX,
            old(log)@.len() < u64::MAX,
        ensures
            final(self).wf(),
            final(log).wf(),
            final(self).version == old(self).version,
            final(self).source == old(self).source,
            (match decide_spec(old(self).state@, *command) {
                Err(reason) => r == Err::<Vec<Event>, CommandError>(CommandError::Rejected(reason))
                    && *final(self) == *old(self) && final(log)@ == old(log)@,
                Ok(events) => if old(self).state@.generation == old(log)@.len() {
                    (match r {
                        Ok(committed) => committed@ == events,
                        Err(_) => false,
                    }) && final(log)@ == old(log)@ + events && final(self).state@
                        == evolve_all_spec(old(self).state@, events)
                } else {
                    r == Err::<Vec<Event>, CommandError>(
                        CommandError::Conflict(
                            ConflictError {
                                expected_generation: (old(self).state@.generation as u64),
                                recorded_generation: (old(log)@.len() as u64),
                            },
                        ),
                    ) && *final(self) == *old(self) && final(log)@ == old(log)@
                },
            }),
    {
        let events = match decide(&self.state, command) {
            Ok(events) => events,
            Err(reason) => {
                return Err(CommandError::Rejected(reason));
            },
        };
        proof {
            assert(events@.len() == 1);
        }
        let expected_generation = self.state.generation();
        match log.append(expected_generation, &events) {
            Ok(_) => {},
            Err(conflict) => {
                return Err(CommandError::Conflict(conflict));
            },
        }
        let next = evolve_all(&self.state, &events);
        self.state = next;
        Ok(events)
    }

    /// Wrap one committed event in its wire envelope, attaching this
    /// runtime's version and source identifiers and the event's type tag.
    pub fn wrap(&self, event: &Event) -> (r: EventEnvelope)
        ensures
            r.event_type@ == event_type_tag(*event),
            r.version == self.version,
            r.source == self.source,
            r.event == *event,
    {
        EventEnvelope {
            event_type: event.type_tag(),
            version: self.version.clone(),
            source: self.source.clone(),
            event: event.clone(),
        }
    }

    /// Wrap each committed event of a batch, keeping the order.
    pub fn wrap_all(&self, events: &Vec<Event>) -> (r: Vec<EventEnvelope>)
        ensures
            r@.len() == events@.len(),
            forall|i: int|
                0 <= i < events@.len() ==> #[trigger] r@[i].event == events@[i]
                    && r@[i].event_type@ == event_type_tag(events@[i]) && r@[i].version
                    == self.version && r@[i].source == self.source,
    {
        let mut r: Vec<EventEnvelope> = Vec::new();
        let mut i: usize = 0;
        while i < events.len()
            invariant
                i <= events@.len(),
                r@.len() == i,
                forall|k: int|
                    0 <= k < i ==> #[trigger] r@[k].event == events@[k] && r@[k].event_type@
                        == event_type_tag(events@[k]) && r@[k].version == self.version
                        && r@[k].source == self.source,
            decreases events@.len() - i,
        {
            r.push(self.wrap(&events[i]));
            i += 1;
        }
        r
    }
}

/// The effect of one submitted command on the state, absent a log conflict:
/// an accepted command folds its events in, a rejected one leaves the state
/// unchanged.
pub open spec fn submit_spec(s: StateView, c: Command) -> StateView {
    match decide_spec(s, c) {
        Ok(events) => evolve_all_spec(s, events),
        Err(_) => s,
    }
}

/// The state after a batch of commands is submitted one after another, each
/// decided against the state the previous one left behind.
pub open spec fn submit_all_spec(s: StateView, cs: Seq<Command>) -> StateView
    decreases cs.len(),
{
    if cs.len() == 0 {
        s
    } else {
        submit_all_spec(submit_spec(s, cs[0]), cs.subrange(1, cs.len() as int))
    }
}

/// Whether every command of a batch, submitted one after another, is
/// accepted.
pub open spec fn all_accepted_spec(s: StateView, cs: Seq<Command>) -> bool
    decreases cs.len(),
{
    cs.len() == 0 || (decide_spec(s, cs[0]) is Ok && all_accepted_spec(
        submit_spec(s, cs[0]),
        cs.subrange(1, cs.len() as int),
    ))
}

/// Registering the same username twice succeeds once and is then rejected:
/// after a free username is registered, any further `RegisterUser` for it is
/// rejected with `UsernameTaken` and leaves the state unchanged, so the
/// username is taken exactly once however often the command is resubmitted.
pub proof fn lemma_reregister_rejected(s: StateView, username: String, email1: String, email2: String)
    requires
        !s.taken.contains(username@),
    ensures
        ({
            let first = Command::RegisterUser { username, email: email1 };
            let second = Command::RegisterUser { username, email: email2 };
            let s1 = submit_spec(s, first);
            decide_spec(s, first) is Ok && decide_spec(s1, second) == Err::<
                Seq<Event>,
                RejectionReason,
            >(RejectionReason::UsernameTaken) && submit_spec(s1, second) == s1
                && s1.taken.contains(username@)
        }),
{
    lemma_evolve_all_singleton(s, Event::UserRegistered { username, email: email1 });
}

/// The set of username views a batch of commands speaks of.
pub open spec fn command_usernames(cs: Seq<Command>) -> Set<Seq<char>> {
    Set::new(|n: Seq<char>| exists|i: int| 0 <= i < cs.len() && command_username(cs[i]) == n)
}

/// No lost updates: a batch of `RegisterUser` commands with pairwise
/// distinct, currently free usernames — submitted against one instance, one
/// after another, as the runtime serializes concurrent callers — is accepted
/// in full; the final generation has advanced by exactly the batch size and
/// the final username set is the old one plus every submitted username.
pub proof fn lemma_distinct_registrations_all_accepted(s: StateView, cs: Seq<Command>)
    requires
        forall|i: int| 0 <= i < cs.len() ==> cs[i] is RegisterUser,
        forall|i: int, j: int|
            0 <= i < j < cs.len() ==> command_username(cs[i]) != command_username(cs[j]),
        forall|i: int| 0 <= i < cs.len() ==> !s.taken.contains(command_username(cs[i])),
    ensures
        all_accepted_spec(s, cs),
        submit_all_spec(s, cs).generation == s.generation + cs.len(),
        submit_all_spec(s, cs).taken =~= s.taken.union(command_usernames(cs)),
    decreases cs.len(),
{
    if cs.len() == 0 {
        assert(command_usernames(cs) =~= Set::<Seq<char>>::empty());
        assert(s.taken.union(command_usernames(cs)) =~= s.taken);
    } else {
        let c0 = cs[0];
        let tail = cs.subrange(1, cs.len() as int);
        match c0 {
            Command::RegisterUser { username, email } => {
                let reg = Event::UserRegistered { username, email };
                assert(!s.taken.contains(username@));
                assert(decide_spec(s, c0) == Ok::<Seq<Event>, RejectionReason>(seq![reg]));
                lemma_evolve_all_singleton(s, reg);
                let s1 = submit_spec(s, c0);
                assert(s1 == evolve_spec(s, reg));
                assert(s1.taken == s.taken.insert(username@));
                assert forall|i: int| 0 <= i < tail.len() implies !s1.taken.contains(
                    command_username(tail[i]),
                ) by {
                    assert(tail[i] == cs[i + 1]);
                    assert(command_username(cs[i + 1]) != command_username(cs[0]));
                }
                lemma_distinct_registrations_all_accepted(s1, tail);
                assert(command_usernames(cs) =~= command_usernames(tail).insert(username@)) by {
                    assert forall|n: Seq<char>| command_usernames(cs).contains(n)
                        implies command_usernames(tail).insert(username@).contains(n) by {
                        let i = choose|i: int|
                            0 <= i < cs.len() && command_username(cs[i]) == n;
                        if i > 0 {
                            assert(command_username(tail[i - 1]) == n);
                        }
                    }
                    assert forall|n: Seq<char>| command_usernames(tail).insert(
                        username@,
                    ).contains(n) implies command_usernames(cs).contains(n) by {
                        if n == username@ {
                            assert(command_username(cs[0]) == n);
                        } else {
                            let i = choose|i: int|
                                0 <= i < tail.len() && command_username(tail[i]) == n;
                            assert(command_username(cs[i + 1]) == n);
                        }
                    }
                }
                assert(submit_all_spec(s, cs).taken =~= s.taken.union(command_usernames(cs)));
            },
            Command::DeleteUser { .. } => {
                assert(false);
            },
        }
    }
}

} // verus!
