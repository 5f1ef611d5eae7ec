//! A set of transaction ids.

use vstd::prelude::*;
use vstd::string::*;
use crate::hashing::{clone_strings, string_views};

verus! {

/// A finite set of ids. Each id is held once.
#[derive(Debug)]
pub struct IdSet {
    ids: Vec<String>,
}

impl View for IdSet {
    type V = Set<Seq<char>>;

    closed spec fn view(&self) -> Set<Seq<char>> {
        string_views(self.ids@).to_set()
    }
}

impl IdSet {
    #[verifier::type_invariant]
    spec fn no_id_twice(self) -> bool {
        string_views(self.ids@).no_duplicates()
    }

    /// The set is finite.
    pub proof fn lemma_finite(&self)
        ensures
            self@.finite(),
    {
        vstd::seq_lib::seq_to_set_is_finite(string_views(self.ids@));
    }

    /// The empty set.
    pub fn new() -> (set: IdSet)
        ensures
            set@ == Set::<Seq<char>>::empty(),
    {
        let set = IdSet { ids: Vec::new() };
        assert(string_views(set.ids@).to_set() =~= Set::<Seq<char>>::empty());
        set
    }

    /// Whether `id` is in the set.
    pub fn contains(&self, id: &str) -> (found: bool)
        ensures
            found == self@.contains(id@),
    {
        let needle = String::from_str(id);
        let mut i: usize = 0;
        while i < self.ids.len()
            invariant
                i <= self.ids.len(),
                needle@ == id@,
                forall|j: int| 0 <= j < i ==> string_views(self.ids@)[j] != id@,
            decreases self.ids.len() - i,
        {
            if self.ids[i] == needle {
                assert(string_views(self.ids@)[i as int] == id@);
                return true;
            }
            i += 1;
        }
        false
    }

    /// Adds `id` to the set; a set that holds it already is left as it is.
    pub fn insert(&mut self, id: String)
        ensures
            final(self)@ == old(self)@.insert(id@),
    {
        proof {
            use_type_invariant(&*self);
        }
        if !self.contains(id.as_str()) {
            proof {
                let before = string_views(self.ids@);
                assert(string_views(self.ids@.push(id)) =~= before.push(id@));
                before.lemma_push_to_set_commute(id@);
            }
            let mut taken = IdSet { ids: Vec::new() };
            core::mem::swap(self, &mut taken);
            let mut ids = taken.ids;
            ids.push(id);
            *self = IdSet { ids };
        } else {
            assert(self@.insert(id@) =~= self@);
        }
    }

    /// The number of ids in the set.
    pub fn len(&self) -> (count: usize)
        ensures
            count == self@.len(),
    {
        proof {
            use_type_invariant(self);
            string_views(self.ids@).unique_seq_to_set();
        }
        self.ids.len()
    }

    /// Removes every id.
    pub fn clear(&mut self)
        ensures
            final(self)@ == Set::<Seq<char>>::empty(),
    {
        let ids: Vec<String> = Vec::new();
        assert(string_views(ids@).to_set() =~= Set::<Seq<char>>::empty());
        *self = IdSet { ids };
    }

    /// A copy of this set.
    pub fn duplicate(&self) -> (copy: IdSet)
        ensures
            copy@ == self@,
    {
        proof {
            use_type_invariant(self);
        }
        IdSet { ids: clone_strings(&self.ids) }
    }

    /// The ids of the set, each once, in the order they were added.
    pub fn to_vec(&self) -> (ids: Vec<String>)
        ensures
            string_views(ids@).to_set() == self@,
            string_views(ids@).no_duplicates(),
    {
        proof {
            use_type_invariant(self);
        }
        clone_strings(&self.ids)
    }
}

} // verus!
