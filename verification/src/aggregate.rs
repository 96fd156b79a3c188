//! The pure decision / evolution pair: `decide` validates a command against
//! the current state and produces events or a rejection; `evolve` applies
//! one event to a state and returns the next state.
//!
//! Policy note: `DeleteUser` produces a `UserDeleted` event unconditionally,
//! even for a username that is not currently taken; applying that event
//! leaves the username set unchanged and still advances the generation.

use vstd::prelude::*;

use crate::events::Command;
use crate::events::Event;
use crate::events::RejectionReason;
use crate::events::is_deletion_of;
use crate::events::is_registration_of;
use crate::state::AggregateState;
use crate::state::StateView;
use crate::state::lemma_usernames_push;
use crate::state::lemma_usernames_remove_at;
use crate::state::usernames_as_set;

verus! {

/// What `decide` returns: the events a command gives rise to against a given
/// state, or the reason it is rejected.
pub open spec fn decide_spec(s: StateView, c: Command) -> Result<Seq<Event>, RejectionReason> {
    match c {
        Command::RegisterUser { username, email } => {
            if s.taken.contains(username@) {
                Err(RejectionReason::UsernameTaken)
            } else {
                Ok(seq![Event::UserRegistered { username, email }])
            }
        },
        Command::DeleteUser { username } => Ok(seq![Event::UserDeleted { username }]),
    }
}

/// What `evolve` returns: the state after one event. Total: every event
/// advances the generation by exactly one.
pub open spec fn evolve_spec(s: StateView, e: Event) -> StateView {
    match e {
        Event::UserRegistered { username, email } => StateView {
            taken: s.taken.insert(username@),
            generation: s.generation + 1,
        },
        Event::UserDeleted { username } => StateView {
            taken: s.taken.remove(username@),
            generation: s.generation + 1,
        },
    }
}

/// Folding an ordered sequence of events over a state, each event applied to
/// the result of the previous one.
pub open spec fn evolve_all_spec(s: StateView, events: Seq<Event>) -> StateView
    decreases events.len(),
{
    if events.len() == 0 {
        s
    } else {
        evolve_all_spec(evolve_spec(s, events[0]), events.subrange(1, events.len() as int))
    }
}

/// Folding a sequence with one more event at its end applies that event to
/// the fold of the prefix.
pub proof fn lemma_evolve_all_snoc(s: StateView, events: Seq<Event>, e: Event)
    ensures
        evolve_all_spec(s, events.push(e)) == evolve_spec(evolve_all_spec(s, events), e),
    decreases events.len(),
{
    if events.len() == 0 {
        assert(events.push(e)[0] == e);
        assert(events.push(e).subrange(1, 1) =~= Seq::<Event>::empty());
        assert(evolve_all_spec(evolve_spec(s, e), Seq::<Event>::empty()) == evolve_spec(s, e));
    } else {
        assert(events.push(e)[0] == events[0]);
        assert(events.push(e).subrange(1, events.len() as int + 1) =~= events.subrange(
            1,
            events.len() as int,
        ).push(e));
        lemma_evolve_all_snoc(evolve_spec(s, events[0]), events.subrange(1, events.len() as int), e);
    }
}

/// Folding a single event is one application of `evolve`.
pub proof fn lemma_evolve_all_singleton(s: StateView, e: Event)
    ensures
        evolve_all_spec(s, seq![e]) == evolve_spec(s, e),
{
    assert(seq![e].subrange(1, 1) =~= Seq::<Event>::empty());
    assert(evolve_all_spec(evolve_spec(s, e), Seq::<Event>::empty()) == evolve_spec(s, e));
}

/// The generation after applying N events equals the initial generation
/// plus N, always.
pub proof fn lemma_generation_advances(s: StateView, events: Seq<Event>)
    ensures
        evolve_all_spec(s, events).generation == s.generation + events.len(),
    decreases events.len(),
{
    if events.len() > 0 {
        lemma_generation_advances(
            evolve_spec(s, events[0]),
            events.subrange(1, events.len() as int),
        );
    }
}

/// Folding is order-sensitive: `evolve` is not commutative across a
/// `UserRegistered` / `UserDeleted` pair on the same username. Registering
/// then deleting leaves the username free; deleting then registering leaves
/// it taken. (That the fold is deterministic needs no lemma: `evolve_all`'s
/// contract pins its result to `evolve_all_spec`, a function of the state
/// and the event sequence alone.)
pub proof fn lemma_order_matters(s: StateView, username: String, email: String)
    ensures
        ({
            let reg = Event::UserRegistered { username, email };
            let del = Event::UserDeleted { username };
            evolve_all_spec(s, seq![reg, del]).taken != evolve_all_spec(s, seq![del, reg]).taken
        }),
{
    let reg = Event::UserRegistered { username, email };
    let del = Event::UserDeleted { username };
    let reg_del = seq![reg, del];
    let del_reg = seq![del, reg];
    assert(reg_del.subrange(1, 2) =~= seq![del]);
    assert(del_reg.subrange(1, 2) =~= seq![reg]);
    lemma_evolve_all_singleton(evolve_spec(s, reg), del);
    lemma_evolve_all_singleton(evolve_spec(s, del), reg);
    assert(!evolve_all_spec(s, reg_del).taken.contains(username@));
    assert(evolve_all_spec(s, del_reg).taken.contains(username@));
}

/// Round trip: registering a free username and then deleting it returns the
/// username set to what it was and advances the generation by exactly two.
/// (For a username that is already taken the round trip instead removes it:
/// the registration leaves the set unchanged, the deletion takes it out.)
pub proof fn lemma_register_delete_round_trip(s0: StateView, username: String, email: String)
    requires
        !s0.taken.contains(username@),
    ensures
        ({
            let s2 = evolve_spec(
                evolve_spec(s0, Event::UserRegistered { username, email }),
                Event::UserDeleted { username },
            );
            s2.taken == s0.taken && s2.generation == s0.generation + 2
        }),
{
    assert(s0.taken.insert(username@).remove(username@) =~= s0.taken);
}

/// After a fold, a username is taken exactly when some event of the sequence
/// registered it and no later event of the sequence deleted it, or it was
/// already taken and the sequence never deleted it. In particular, folding
/// from the initial state leaves `taken` holding exactly the usernames with
/// an applied registration and no subsequent deletion.
pub proof fn lemma_taken_characterization(s: StateView, es: Seq<Event>, u: Seq<char>)
    ensures
        evolve_all_spec(s, es).taken.contains(u) <==> ((exists|i: int|
            0 <= i < es.len() && is_registration_of(#[trigger] es[i], u) && (forall|j: int|
                i < j < es.len() ==> !is_deletion_of(#[trigger] es[j], u))) || (s.taken.contains(u)
            && (forall|j: int| 0 <= j < es.len() ==> !is_deletion_of(#[trigger] es[j], u)))),
    decreases es.len(),
{
    if es.len() > 0 {
        let e0 = es[0];
        let tail = es.subrange(1, es.len() as int);
        let s1 = evolve_spec(s, e0);
        lemma_taken_characterization(s1, tail, u);
        assert(forall|k: int| 0 <= k < tail.len() ==> tail[k] == es[k + 1]);
        if evolve_all_spec(s, es).taken.contains(u) {
            if exists|i: int|
                0 <= i < tail.len() && is_registration_of(#[trigger] tail[i], u) && (forall|j: int|
                    i < j < tail.len() ==> !is_deletion_of(#[trigger] tail[j], u)) {
                let i = choose|i: int|
                    0 <= i < tail.len() && is_registration_of(#[trigger] tail[i], u) && (forall|
                        j: int,
                    | i < j < tail.len() ==> !is_deletion_of(#[trigger] tail[j], u));
                assert(is_registration_of(es[i + 1], u));
                assert forall|j: int| i + 1 < j < es.len() implies !is_deletion_of(
                    #[trigger] es[j],
                    u,
                ) by {
                    assert(es[j] == tail[j - 1]);
                }
            } else {
                assert(s1.taken.contains(u));
                if is_deletion_of(e0, u) {
                    assert(false);
                } else if is_registration_of(e0, u) {
                    assert forall|j: int| 0 < j < es.len() implies !is_deletion_of(
                        #[trigger] es[j],
                        u,
                    ) by {
                        assert(es[j] == tail[j - 1]);
                    }
                } else {
                    assert(s.taken.contains(u));
                    assert forall|j: int| 0 <= j < es.len() implies !is_deletion_of(
                        #[trigger] es[j],
                        u,
                    ) by {
                        if j > 0 {
                            assert(es[j] == tail[j - 1]);
                        }
                    }
                }
            }
        }
        if exists|i: int|
            0 <= i < es.len() && is_registration_of(#[trigger] es[i], u) && (forall|j: int|
                i < j < es.len() ==> !is_deletion_of(#[trigger] es[j], u)) {
            let i = choose|i: int|
                0 <= i < es.len() && is_registration_of(#[trigger] es[i], u) && (forall|j: int|
                    i < j < es.len() ==> !is_deletion_of(#[trigger] es[j], u));
            if i == 0 {
                assert(is_registration_of(e0, u));
                assert(s1.taken.contains(u));
                assert forall|j: int| 0 <= j < tail.len() implies !is_deletion_of(
                    #[trigger] tail[j],
                    u,
                ) by {
                    assert(tail[j] == es[j + 1]);
                }
            } else {
                assert(is_registration_of(tail[i - 1], u));
                assert forall|j: int| i - 1 < j < tail.len() implies !is_deletion_of(
                    #[trigger] tail[j],
                    u,
                ) by {
                    assert(tail[j] == es[j + 1]);
                }
            }
            assert(evolve_all_spec(s1, tail).taken.contains(u));
        } else if s.taken.contains(u) && (forall|j: int|
            0 <= j < es.len() ==> !is_deletion_of(#[trigger] es[j], u)) {
            assert(!is_deletion_of(e0, u));
            assert(s1.taken.contains(u));
            assert forall|j: int| 0 <= j < tail.len() implies !is_deletion_of(
                #[trigger] tail[j],
                u,
            ) by {
                assert(tail[j] == es[j + 1]);
            }
            assert(evolve_all_spec(s1, tail).taken.contains(u));
        }
    }
}

/// Validate a command against the current state. Pure: reads only `state`
/// and `command`, returns either a non-empty ordered list of events to
/// apply, or a rejection; the state is untouched either way.
pub fn decide(state: &AggregateState, command: &Command) -> (r: Result<Vec<Event>, RejectionReason>)
    ensures
        (match r {
            Ok(events) => decide_spec(state@, *command) == Ok::<Seq<Event>, RejectionReason>(
                events@,
            ),
            Err(reason) => decide_spec(state@, *command) == Err::<Seq<Event>, RejectionReason>(
                reason,
            ),
        }),
{
    match command {
        Command::RegisterUser { username, email } => {
            if state.is_taken(username) {
                Err(RejectionReason::UsernameTaken)
            } else {
                let mut events: Vec<Event> = Vec::new();
                events.push(
                    Event::UserRegistered { username: username.clone(), email: email.clone() },
                );
                proof {
                    assert(events@ =~= seq![
                        Event::UserRegistered { username: *username, email: *email },
                    ]);
                }
                Ok(events)
            }
        },
        Command::DeleteUser { username } => {
            let mut events: Vec<Event> = Vec::new();
            events.push(Event::UserDeleted { username: username.clone() });
            proof {
                assert(events@ =~= seq![Event::UserDeleted { username: *username }]);
            }
            Ok(events)
        },
    }
}

/// Copy a username list, element for element.
fn clone_usernames(names: &Vec<String>) -> (r: Vec<String>)
    ensures
        r@ == names@,
{
    let mut r: Vec<String> = Vec::new();
    let mut i: usize = 0;
    while i < names.len()
        invariant
            i <= names@.len(),
            r@.len() == i,
            forall|k: int| 0 <= k < i ==> r@[k] == names@[k],
        decreases names@.len() - i,
    {
        r.push(names[i].clone());
        i += 1;
    }
    proof {
        assert(r@ =~= names@);
    }
    r
}

/// Apply one event to a state and return the next state. Total: never
/// rejects; the input state is untouched and a new value is returned.
pub fn evolve(state: &AggregateState, event: &Event) -> (r: AggregateState)
    requires
        state.wf(),
        state@.generation < u64::MAX,
    ensures
        r.wf(),
        r@ == evolve_spec(state@, *event),
{
    let next_generation = state.generation + 1;
    match event {
        Event::UserRegistered { username, email: _ } => {
            let mut names = clone_usernames(&state.taken_usernames);
            if !state.is_taken(username) {
                names.push(username.clone());
                proof {
                    lemma_usernames_push(state.taken_usernames@, *username);
                }
            } else {
                proof {
                    assert(usernames_as_set(names@) =~= usernames_as_set(names@).insert(
                        username@,
                    ));
                }
            }
            let r = AggregateState { taken_usernames: names, generation: next_generation };
            proof {
                assert(r@ =~= evolve_spec(state@, *event));
            }
            r
        },
        Event::UserDeleted { username } => {
            let mut names = clone_usernames(&state.taken_usernames);
            let count = names.len();
            let mut i: usize = 0;
            while i < count
                invariant
                    i <= count,
                    count == names@.len(),
                    names@ == state.taken_usernames@,
                    state.wf(),
                    state@.generation < u64::MAX,
                    next_generation == state@.generation + 1,
                    *event == (Event::UserDeleted { username: *username }),
                    forall|k: int| 0 <= k < i ==> names@[k]@ != username@,
                decreases count - i,
            {
                if names[i] == *username {
                    proof {
                        lemma_usernames_remove_at(names@, i as int);
                    }
                    names.remove(i);
                    let r = AggregateState {
                        taken_usernames: names,
                        generation: next_generation,
                    };
                    proof {
                        assert(r@ =~= evolve_spec(state@, *event));
                    }
                    return r;
                }
                i += 1;
            }
            proof {
                assert(!usernames_as_set(names@).contains(username@));
                assert(usernames_as_set(names@).remove(username@) =~= usernames_as_set(names@));
            }
            let r = AggregateState { taken_usernames: names, generation: next_generation };
            proof {
                assert(r@ =~= evolve_spec(state@, *event));
            }
            r
        },
    }
}

/// Fold an ordered sequence of events over a state: each event is applied to
/// the result of the previous application, never to a stale snapshot.
pub fn evolve_all(state: &AggregateState, events: &Vec<Event>) -> (r: AggregateState)
    requires
        state.wf(),
        state@.generation + events@.len() <= u64::MAX,
    ensures
        r.wf(),
        r@ == evolve_all_spec(state@, events@),
{
    let mut current = AggregateState {
        taken_usernames: clone_usernames(&state.taken_usernames),
        generation: state.generation,
    };
    proof {
        assert(current@ =~= state@);
        assert(events@.subrange(0, 0) =~= Seq::<Event>::empty());
    }
    let mut i: usize = 0;
    while i < events.len()
        invariant
            i <= events@.len(),
            current.wf(),
            current@ == evolve_all_spec(state@, events@.subrange(0, i as int)),
            current@.generation == state@.generation + i,
            state@.generation + events@.len() <= u64::MAX,
        decreases events@.len() - i,
    {
        let next = evolve(&current, &events[i]);
        proof {
            let ghost prefix = events@.subrange(0, i as int);
            assert(events@.subrange(0, i + 1) =~= prefix.push(events@[i as int]));
            lemma_evolve_all_snoc(state@, events@.subrange(0, i as int), events@[i as int]);
        }
        current = next;
        i += 1;
    }
    proof {
        assert(events@.subrange(0, events@.len() as int) =~= events@);
    }
    current
}

} // verus!
