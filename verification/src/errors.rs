//! The ids error types travel under.
//!
//! A fallible function returns `{ which, word }`: `which` is 0 for an ordinary
//! return and otherwise the raised error's type id, so one field says both
//! whether it raised and what. Ids are handed out in the order error types
//! are first met, starting at 1, within one whole-program module, which makes
//! them deterministic for a given program.

use vstd::prelude::*;

use crate::text::{owned, same_text};

verus! {

broadcast use vstd::string::group_string_axioms;

/// The error types met so far, in the order they were met.
pub struct ErrorIds {
    names: Vec<String>,
}

/// The id of `name` among the names met, in order: its position plus one.
pub open spec fn id_in(names: Seq<Seq<char>>, name: Seq<char>) -> Option<nat>
    decreases names.len(),
{
    if names.len() == 0 {
        None
    } else {
        match id_in(names.drop_last(), name) {
            Some(id) => Some(id),
            None => if names.last() == name { Some(names.len()) } else { None },
        }
    }
}

/// Whether no name occurs twice.
pub open spec fn all_different(names: Seq<Seq<char>>) -> bool {
    forall|i: int, j: int| 0 <= i < j < names.len() ==> names[i] != names[j]
}

proof fn lemma_id_in(names: Seq<Seq<char>>, name: Seq<char>)
    requires
        all_different(names),
    ensures
        match id_in(names, name) {
            Some(id) => 1 <= id <= names.len() && names[id - 1] == name,
            None => !names.contains(name),
        },
    decreases names.len(),
{
    if names.len() > 0 {
        let init = names.drop_last();
        assert(all_different(init)) by {
            assert forall|i: int, j: int| 0 <= i < j < init.len() implies init[i] != init[j] by {
                assert(init[i] == names[i] && init[j] == names[j]);
            }
        }
        lemma_id_in(init, name);
        if id_in(init, name) is None && names.last() != name {
            assert forall|k: int| 0 <= k < names.len() implies names[k] != name by {
                if k < init.len() {
                    assert(init[k] == names[k]);
                    assert(!init.contains(name));
                }
            }
        }
        if let Some(id) = id_in(init, name) {
            assert(init[id - 1] == names[id - 1]);
        }
    }
}

impl ErrorIds {
    /// The names met so far, in order.
    pub closed spec fn names(&self) -> Seq<Seq<char>> {
        self.names@.map_values(|s: String| s@)
    }

    /// No name is met twice, and every id fits the 32 bits a tag carries.
    pub open spec fn wf(&self) -> bool {
        all_different(self.names()) && self.names().len() <= u32::MAX
    }

    /// No error type met yet.
    pub fn new() -> (ids: ErrorIds)
        ensures
            ids.wf(),
            ids.names() == Seq::<Seq<char>>::empty(),
    {
        let ids = ErrorIds { names: Vec::new() };
        assert(ids.names() =~= Seq::<Seq<char>>::empty());
        ids
    }

    /// How many error types have an id.
    pub fn len(&self) -> (n: usize)
        ensures
            n == self.names().len(),
    {
        self.names.len()
    }

    /// The id of an error type, given one if this is the first sight of it:
    /// one more than the number of types met before it.
    pub fn error_id(&mut self, name: &str) -> (id: u32)
        requires
            old(self).wf(),
            old(self).names().len() < u32::MAX,
        ensures
            final(self).wf(),
            id_in(old(self).names(), name@) matches Some(known)
                ==> (id == known && final(self).names() == old(self).names()),
            id_in(old(self).names(), name@) is None
                ==> (id == old(self).names().len() + 1 && final(self).names() == old(self).names().push(name@)),
            id_in(final(self).names(), name@) == Some(id as nat),
    {
        let ghost before = self.names();
        proof {
            lemma_id_in(before, name@);
        }
        let mut i: usize = 0;
        while i < self.names.len()
            invariant
                before == self.names(),
                all_different(before),
                self.names.len() < u32::MAX,
                i <= self.names.len(),
                forall|k: int| 0 <= k < i ==> before[k] != name@,
                match id_in(before, name@) {
                    Some(id) => 1 <= id <= before.len() && before[id - 1] == name@,
                    None => !before.contains(name@),
                },
            decreases self.names.len() - i,
        {
            if same_text(self.names[i].as_str(), name) {
                proof {
                    assert(before[i as int] == name@);
                    if let Some(known) = id_in(before, name@) {
                        if known - 1 < i {
                            assert(before[known - 1] == name@);
                        } else if known - 1 > i {
                            assert(before[i as int] == before[known - 1]);
                        }
                    } else {
                        assert(before.contains(name@));
                    }
                }
                return (i + 1) as u32;
            }
            i = i + 1;
        }
        proof {
            assert(!before.contains(name@)) by {
                assert forall|k: int| 0 <= k < before.len() implies before[k] != name@ by {}
            }
            if let Some(known) = id_in(before, name@) {
                assert(before[known - 1] == name@);
            }
        }
        let id = (self.names.len() + 1) as u32;
        self.names.push(owned(name));
        proof {
            assert(self.names() =~= before.push(name@));
            assert(self.names().drop_last() =~= before);
            assert forall|a: int, b: int| 0 <= a < b < self.names().len() implies self.names()[a] != self.names()[b] by {
                if b == before.len() {
                    assert(self.names()[a] == before[a]);
                }
            }
        }
        id
    }

    /// Every error type with its id, in the order of the ids: the order the
    /// releaser switches in, so two compilations of one program emit the
    /// same function.
    pub fn known(&self) -> (all: Vec<(String, u32)>)
        requires
            self.wf(),
        ensures
            all@.len() == self.names().len(),
            forall|k: int| 0 <= k < all@.len() ==> (#[trigger] all@[k]).0@ == self.names()[k] && all@[k].1 == k + 1,
    {
        let mut all: Vec<(String, u32)> = Vec::new();
        let mut i: usize = 0;
        while i < self.names.len()
            invariant
                i <= self.names.len(),
                self.names.len() <= u32::MAX,
                all@.len() == i,
                forall|k: int| 0 <= k < i ==> (#[trigger] all@[k]).0@ == self.names()[k] && all@[k].1 == k + 1,
            decreases self.names.len() - i,
        {
            all.push((self.names[i].clone(), (i + 1) as u32));
            i = i + 1;
        }
        all
    }
}

/// Ids start at 1, so no error travels under the 0 an ordinary return
/// carries; two different error types never share one; and an id, once
/// given, is the one the name keeps.
pub proof fn law_error_ids_are_distinct_and_start_at_one(names: Seq<Seq<char>>, a: Seq<char>, b: Seq<char>, more: Seq<char>)
    requires
        all_different(names),
        id_in(names, a) is Some,
        id_in(names, b) is Some,
    ensures
        id_in(names, a).unwrap() >= 1,
        a != b ==> id_in(names, a) != id_in(names, b),
        id_in(names.push(more), a) == id_in(names, a),
{
    lemma_id_in(names, a);
    lemma_id_in(names, b);
    assert(names.push(more).drop_last() =~= names);
}

} // verus!
