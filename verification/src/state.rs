//! The aggregate's state: the set of taken usernames and the generation
//! counter, with its mathematical model.

use vstd::prelude::*;

verus! {

/// The mathematical model of an aggregate state: the set of usernames for
/// which a registration has been applied and not since deleted, and the
/// number of events applied so far.
#[verifier::ext_equal]
pub struct StateView {
    pub taken: Set<Seq<char>>,
    pub generation: nat,
}

impl StateView {
    /// The state of a freshly created instance: no usernames, generation 0.
    pub open spec fn initial() -> StateView {
        StateView { taken: Set::empty(), generation: 0 }
    }
}

/// The set of username views that occur in a sequence of usernames.
pub open spec fn usernames_as_set(names: Seq<String>) -> Set<Seq<char>> {
    Set::new(|n: Seq<char>| exists|i: int| 0 <= i < names.len() && names[i]@ == n)
}

/// No username occurs twice in the sequence.
pub open spec fn unique_usernames(names: Seq<String>) -> bool {
    forall|i: int, j: int| 0 <= i < j < names.len() ==> names[i]@ != names[j]@
}

/// Appending a username to a sequence inserts its view into the set the
/// sequence stands for.
pub proof fn lemma_usernames_push(names: Seq<String>, u: String)
    ensures
        usernames_as_set(names.push(u)) =~= usernames_as_set(names).insert(u@),
{
    assert forall|n: Seq<char>| usernames_as_set(names.push(u)).contains(n) implies usernames_as_set(
        names,
    ).insert(u@).contains(n) by {
        let i = choose|i: int| 0 <= i < names.push(u).len() && names.push(u)[i]@ == n;
        if i < names.len() {
            assert(names[i]@ == n);
        } else {
            assert(u@ == n);
        }
    }
    assert forall|n: Seq<char>| usernames_as_set(names).insert(u@).contains(n) implies usernames_as_set(
        names.push(u),
    ).contains(n) by {
        if n == u@ {
            assert(names.push(u)[names.len() as int]@ == n);
        } else {
            let i = choose|i: int| 0 <= i < names.len() && names[i]@ == n;
            assert(names.push(u)[i]@ == n);
        }
    }
}

/// Removing the one position that holds a username removes exactly its view
/// from the set the sequence stands for, and keeps the rest unique.
pub proof fn lemma_usernames_remove_at(names: Seq<String>, k: int)
    requires
        unique_usernames(names),
        0 <= k < names.len(),
    ensures
        usernames_as_set(names.remove(k)) =~= usernames_as_set(names).remove(names[k]@),
        unique_usernames(names.remove(k)),
{
    let removed = names.remove(k);
    assert forall|n: Seq<char>| usernames_as_set(removed).contains(n) implies usernames_as_set(
        names,
    ).remove(names[k]@).contains(n) by {
        let i = choose|i: int| 0 <= i < removed.len() && removed[i]@ == n;
        if i < k {
            assert(names[i]@ == n);
        } else {
            assert(names[i + 1]@ == n);
        }
    }
    assert forall|n: Seq<char>| usernames_as_set(names).remove(names[k]@).contains(n)
        implies usernames_as_set(removed).contains(n) by {
        let i = choose|i: int| 0 <= i < names.len() && names[i]@ == n;
        if i < k {
            assert(removed[i]@ == n);
        } else {
            assert(removed[i - 1]@ == n);
        }
    }
}

/// A snapshot of one aggregate instance's derived data plus its generation
/// number. `taken_usernames` lists each taken username exactly once.
pub struct AggregateState {
    pub taken_usernames: Vec<String>,
    pub generation: u64,
}

impl View for AggregateState {
    type V = StateView;

    open spec fn view(&self) -> StateView {
        StateView {
            taken: usernames_as_set(self.taken_usernames@),
            generation: self.generation as nat,
        }
    }
}

impl AggregateState {
    /// No username is listed twice.
    pub open spec fn wf(&self) -> bool {
        unique_usernames(self.taken_usernames@)
    }

    /// A fresh state: empty username set, generation 0.
    pub fn new() -> (r: AggregateState)
        ensures
            r.wf(),
            r@ == StateView::initial(),
    {
        let r = AggregateState { taken_usernames: Vec::new(), generation: 0 };
        proof {
            assert(r@.taken =~= Set::<Seq<char>>::empty());
        }
        r
    }

    /// The optimistic-concurrency token: how many events have been applied.
    pub fn generation(&self) -> (r: u64)
        ensures
            r == self@.generation,
    {
        self.generation
    }

    /// Whether `username` is currently taken.
    pub fn is_taken(&self, username: &String) -> (r: bool)
        ensures
            r == self@.taken.contains(username@),
    {
        let mut i: usize = 0;
        while i < self.taken_usernames.len()
            invariant
                0 <= i <= self.taken_usernames@.len(),
                forall|k: int| 0 <= k < i ==> self.taken_usernames@[k]@ != username@,
            decreases self.taken_usernames@.len() - i,
        {
            if self.taken_usernames[i] == *username {
                return true;
            }
            i += 1;
        }
        false
    }
}

} // verus!
