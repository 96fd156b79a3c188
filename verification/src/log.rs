//! The append-only event log: the durability boundary for one aggregate
//! instance, guarded by an optimistic-concurrency generation check.

use vstd::prelude::*;

use crate::events::ConflictError;
use crate::events::Event;

verus! {

/// An append-only, ordered store of the committed events of one aggregate
/// instance. Its recorded generation always equals the number of events it
/// holds, since every committed event advances the generation by one.
pub struct EventLog {
    events: Vec<Event>,
    generation: u64,
}

impl View for EventLog {
    type V = Seq<Event>;

    /// The log is modelled as the ordered sequence of its committed events.
    closed spec fn view(&self) -> Seq<Event> {
        self.events@
    }
}

impl EventLog {
    /// The recorded generation counts exactly the committed events.
    pub closed spec fn wf(&self) -> bool {
        self.generation == self@.len()
    }

    /// An empty log at generation 0.
    pub fn new() -> (r: EventLog)
        ensures
            r.wf(),
            r@ == Seq::<Event>::empty(),
    {
        let r = EventLog { events: Vec::new(), generation: 0 };
        proof {
            assert(r@ =~= Seq::<Event>::empty());
        }
        r
    }

    /// The optimistic-concurrency token an appender must present.
    pub fn recorded_generation(&self) -> (r: u64)
        requires
            self.wf(),
        ensures
            r == self@.len(),
    {
        self.generation
    }

    /// All committed events, in the order they were committed.
    pub fn load(&self) -> (r: &Vec<Event>)
        ensures
            r@ == self@,
    {
        &self.events
    }

    /// Append a batch of events, conditioned on `expected_generation`
    /// matching the recorded generation. Atomic: on a match all events are
    /// appended in order; on a mismatch the log is untouched and the
    /// conflict is reported. Nothing is ever removed or reordered.
    pub fn append(&mut self, expected_generation: u64, new_events: &Vec<Event>) -> (r: Result<
        (),
        ConflictError,
    >)
        requires
            old(self).wf(),
            old(self)@.len() + new_events@.len() <= u64::MAX,
        ensures
            final(self).wf(),
            expected_generation == old(self)@.len() ==> r == Ok::<(), ConflictError>(())
                && final(self)@ == old(self)@ + new_events@,
            expected_generation != old(self)@.len() ==> r == Err::<(), ConflictError>(
                ConflictError {
                    expected_generation,
                    recorded_generation: (old(self)@.len() as u64),
                },
            ) && final(self)@ == old(self)@,
    {
        if expected_generation != self.generation {
            return Err(
                ConflictError { expected_generation, recorded_generation: self.generation },
            );
        }
        let count = new_events.len();
        let mut i: usize = 0;
        proof {
            assert(old(self)@ + new_events@.subrange(0, 0) =~= old(self)@);
        }
        while i < count
            invariant
                i <= count,
                count == new_events@.len(),
                old(self)@.len() + new_events@.len() <= u64::MAX,
                self.generation == old(self)@.len(),
                self.events@ == old(self)@ + new_events@.subrange(0, i as int),
            decreases count - i,
        {
            proof {
                let ghost before = self.events@;
                assert(before.push(new_events@[i as int]) =~= old(self)@ + new_events@.subrange(
                    0,
                    i as int + 1,
                ));
            }
            self.events.push(new_events[i].clone());
            i += 1;
        }
        self.generation = self.generation + (count as u64);
        proof {
            assert(new_events@.subrange(0, new_events@.len() as int) =~= new_events@);
        }
        Ok(())
    }
}

} // verus!
