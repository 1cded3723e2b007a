//! The category registry: stable 1-based IDs for category names, given in
//! the order in which the names are first seen.
use vstd::prelude::*;
use crate::error::ConvertError;

verus! {

/// The names hold no duplicates.
pub open spec fn distinct_names(names: Seq<Seq<char>>) -> bool {
    forall|i: int, j: int| 0 <= i < names.len() && 0 <= j < names.len() && i != j
        ==> names[i] != names[j]
}

/// The ID of `name` in a registry whose names, in order of registration,
/// are `names`: its position plus one.
pub open spec fn registered_id(names: Seq<Seq<char>>, name: Seq<char>) -> Option<nat> {
    if names.contains(name) {
        Some((names.index_of(name) + 1) as nat)
    } else {
        None
    }
}

/// Category names in the order of their registration; the ID of a name is
/// its position plus one.
pub struct CategoryRegistry {
    names: Vec<String>,
}

impl View for CategoryRegistry {
    type V = Seq<Seq<char>>;

    closed spec fn view(&self) -> Seq<Seq<char>> {
        self.names@.map_values(|s: String| s@)
    }
}

impl CategoryRegistry {
    pub open spec fn wf(&self) -> bool {
        distinct_names(self@)
    }

    /// An empty registry.
    pub fn new() -> (r: Self)
        ensures
            r.wf(),
            r@ == Seq::<Seq<char>>::empty(),
    {
        let r = CategoryRegistry { names: Vec::new() };
        proof {
            assert(r@ =~= Seq::<Seq<char>>::empty());
        }
        r
    }

    /// The number of registered categories.
    pub fn len(&self) -> (r: usize)
        ensures
            r == self@.len(),
    {
        self.names.len()
    }

    /// The name of the `i`-th registered category (ID `i + 1`).
    pub fn name_at(&self, i: usize) -> (r: &String)
        requires
            i < self@.len(),
        ensures
            r@ == self@[i as int],
    {
        &self.names[i]
    }

    /// The position of `name` among the registered names, if it is there.
    fn position(&self, name: &String) -> (r: Option<usize>)
        requires
            self.wf(),
        ensures
            match r {
                Some(i) => i < self@.len() && self@[i as int] == name@ && self@.contains(name@)
                    && self@.index_of(name@) == i && self@.len() <= usize::MAX,
                None => !self@.contains(name@),
            },
    {
        let mut i: usize = 0;
        proof {
            assert(self@.len() == self.names@.len());
        }
        while i < self.names.len()
            invariant
                self.wf(),
                self@.len() == self.names@.len(),
                i <= self.names@.len(),
                forall|j: int| 0 <= j < i ==> self@[j] != name@,
            decreases self.names@.len() - i,
        {
            let ghost stored = self.names@[i as int];
            proof {
                assert(self@[i as int] == stored@);
            }
            if self.names[i] == *name {
                proof {
                    assert(self@.contains(name@));
                    assert(self@[i as int] == name@);
                    let k = self@.index_of(name@);
                    assert(self@[k] == name@);
                }
                return Some(i);
            }
            i = i + 1;
        }
        proof {
            if self@.contains(name@) {
                let k = choose|k: int| 0 <= k < self@.len() && self@[k] == name@;
                assert(self@[k] == name@);
            }
        }
        None
    }

    /// The ID of `name`, allocating the next one if the name is new.
    pub fn register(&mut self, name: String) -> (id: usize)
        requires
            old(self).wf(),
            old(self)@.len() < usize::MAX,
        ensures
            final(self).wf(),
            old(self)@.contains(name@) ==> final(self)@ == old(self)@,
            !old(self)@.contains(name@) ==> final(self)@ == old(self)@.push(name@),
            registered_id(final(self)@, name@) == Some(id as nat),
            forall|n: Seq<char>| #[trigger] old(self)@.contains(n)
                ==> registered_id(final(self)@, n) == registered_id(old(self)@, n),
    {
        match self.position(&name) {
            Some(i) => i + 1,
            None => {
                let ghost before = self@;
                self.names.push(name);
                let id = self.names.len();
                proof {
                    let after = self@;
                    assert(after =~= before.push(name@));
                    assert(after[after.len() - 1] == name@);
                    assert forall|i: int, j: int|
                        0 <= i < after.len() && 0 <= j < after.len() && i != j
                        implies after[i] != after[j] by {
                        if i == after.len() - 1 {
                            assert(!before.contains(name@));
                            assert(after[j] == before[j]);
                        } else if j == after.len() - 1 {
                            assert(after[i] == before[i]);
                        }
                    }
                    assert(after.contains(name@));
                    let k = after.index_of(name@);
                    if k != after.len() - 1 {
                        assert(after[k] == name@);
                    }
                    assert forall|n: Seq<char>| #[trigger] before.contains(n)
                        implies registered_id(after, n) == registered_id(before, n) by {
                        let p = before.index_of(n);
                        assert(after[p] == n);
                        assert(after.contains(n));
                        let q = after.index_of(n);
                        assert(after[q] == n);
                        if q == after.len() - 1 {
                            assert(false);
                        }
                        assert(before[q] == n);
                    }
                }
                id
            },
        }
    }

    /// The ID of a registered name.
    pub fn lookup(&self, name: &String) -> (r: Result<usize, ConvertError>)
        requires
            self.wf(),
        ensures
            match r {
                Ok(id) => registered_id(self@, name@) == Some(id as nat),
                Err(e) => registered_id(self@, name@) is None && e is UnknownCategory
                    && e->UnknownCategory_name@ == name@,
            },
    {
        match self.position(name) {
            Some(i) => Ok(i + 1),
            None => Err(ConvertError::UnknownCategory { name: name.clone() }),
        }
    }
}

} // verus!
