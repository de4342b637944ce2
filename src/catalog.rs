//! The catalog: dependency records by name.

use vstd::prelude::*;
use crate::dependency::{Dependency, DependencyView};

verus! {

/// The map that a sequence of (name, record) pairs describes.
pub open spec fn map_of(s: Seq<(String, Dependency)>) -> Map<Seq<char>, DependencyView>
    decreases s.len(),
{
    if s.len() == 0 {
        Map::empty()
    } else {
        map_of(s.drop_last()).insert(s.last().0@, s.last().1@)
    }
}

pub open spec fn names_unique(s: Seq<(String, Dependency)>) -> bool {
    forall|i: int, j: int|
        0 <= i < s.len() && 0 <= j < s.len() && i != j ==> #[trigger] s[i].0@ != #[trigger] s[j].0@
}

/// Records by dependency name. Each name occurs once.
#[derive(Debug, Clone)]
pub struct RepositoryLocations {
    entries: Vec<(String, Dependency)>,
}

impl View for RepositoryLocations {
    type V = Map<Seq<char>, DependencyView>;

    closed spec fn view(&self) -> Map<Seq<char>, DependencyView> {
        map_of(self.entries@)
    }
}

proof fn lemma_map_of(s: Seq<(String, Dependency)>)
    requires
        names_unique(s),
    ensures
        map_of(s).dom().finite(),
        map_of(s).dom().len() == s.len(),
        forall|k: Seq<char>|
            #[trigger] map_of(s).contains_key(k) <==> exists|i: int| 0 <= i < s.len() && s[i].0@ == k,
        forall|i: int| 0 <= i < s.len() ==> #[trigger] map_of(s)[s[i].0@] == s[i].1@,
    decreases s.len(),
{
    if s.len() > 0 {
        let p = s.drop_last();
        assert(names_unique(p)) by {
            assert forall|i: int, j: int|
                0 <= i < p.len() && 0 <= j < p.len() && i != j implies #[trigger] p[i].0@
                != #[trigger] p[j].0@ by {
                assert(s[i] == p[i] && s[j] == p[j]);
            }
        }
        lemma_map_of(p);
        let k = s.last().0@;
        assert(!map_of(p).contains_key(k)) by {
            if map_of(p).contains_key(k) {
                let i = choose|i: int| 0 <= i < p.len() && p[i].0@ == k;
                assert(s[i] == p[i]);
                assert(s[s.len() - 1].0@ == k);
            }
        }
        assert forall|k2: Seq<char>|
            #[trigger] map_of(s).contains_key(k2) <==> exists|i: int|
                0 <= i < s.len() && s[i].0@ == k2 by {
            if map_of(s).contains_key(k2) && k2 != k {
                let i = choose|i: int| 0 <= i < p.len() && p[i].0@ == k2;
                assert(s[i] == p[i]);
            }
            if exists|i: int| 0 <= i < s.len() && s[i].0@ == k2 {
                let i = choose|i: int| 0 <= i < s.len() && s[i].0@ == k2;
                if i < s.len() - 1 {
                    assert(s[i] == p[i]);
                }
            }
        }
        assert forall|i: int| 0 <= i < s.len() implies #[trigger] map_of(s)[s[i].0@] == s[i].1@ by {
            if i < s.len() - 1 {
                assert(s[i] == p[i]);
                assert(s[i].0@ != k);
            }
        }
    }
}

/// Replacing the record of a name that occurs in a sequence with unique names
/// is a map insertion.
proof fn lemma_map_of_update(s: Seq<(String, Dependency)>, j: int, e: (String, Dependency))
    requires
        names_unique(s),
        0 <= j < s.len(),
        s[j].0@ == e.0@,
    ensures
        map_of(s.update(j, e)) == map_of(s).insert(e.0@, e.1@),
    decreases s.len(),
{
    let t = s.update(j, e);
    if j == s.len() - 1 {
        assert(t.drop_last() =~= s.drop_last());
        lemma_map_of(s);
        assert(map_of(s).insert(e.0@, e.1@) =~= map_of(t));
    } else {
        let p = s.drop_last();
        assert(names_unique(p)) by {
            assert forall|a: int, b: int|
                0 <= a < p.len() && 0 <= b < p.len() && a != b implies #[trigger] p[a].0@
                != #[trigger] p[b].0@ by {
                assert(s[a] == p[a] && s[b] == p[b]);
            }
        }
        assert(t.drop_last() =~= p.update(j, e));
        lemma_map_of_update(p, j, e);
        assert(s[j] == p[j]);
        assert(s.last().0@ != e.0@);
        assert(map_of(t) =~= map_of(s).insert(e.0@, e.1@));
    }
}

impl RepositoryLocations {
    pub closed spec fn wf(&self) -> bool {
        names_unique(self.entries@)
    }

    /// An empty catalog.
    pub fn new() -> (r: Self)
        ensures
            r.wf(),
            r@ == Map::<Seq<char>, DependencyView>::empty(),
    {
        RepositoryLocations { entries: Vec::new() }
    }

    /// The index of `name` among the entries.
    fn position(&self, name: &String) -> (r: Option<usize>)
        requires
            self.wf(),
        ensures
            match r {
                Some(j) => j < self.entries@.len() && self.entries@[j as int].0@ == name@,
                None => forall|i: int|
                    0 <= i < self.entries@.len() ==> #[trigger] self.entries@[i].0@ != name@,
            },
    {
        let mut i: usize = 0;
        while i < self.entries.len()
            invariant
                i <= self.entries@.len(),
                forall|k: int| 0 <= k < i ==> #[trigger] self.entries@[k].0@ != name@,
            decreases self.entries.len() - i,
        {
            if self.entries[i].0 == *name {
                return Some(i);
            }
            i = i + 1;
        }
        None
    }

    /// Stores `dep` under `name`, replacing any record already there.
    pub fn insert(&mut self, name: String, dep: Dependency)
        requires
            old(self).wf(),
        ensures
            final(self).wf(),
            final(self)@ == old(self)@.insert(name@, dep@),
    {
        let ghost s = self.entries@;
        match self.position(&name) {
            Some(j) => {
                let ghost e = (name, dep);
                proof { lemma_map_of_update(s, j as int, e); }
                self.entries.set(j, (name, dep));
                assert(self.entries@ == s.update(j as int, e));
                assert(names_unique(self.entries@)) by {
                    assert forall|a: int, b: int|
                        0 <= a < self.entries@.len() && 0 <= b < self.entries@.len() && a != b
                            implies #[trigger] self.entries@[a].0@
                        != #[trigger] self.entries@[b].0@ by {
                        assert(s[j as int].0@ == e.0@);
                    }
                }
            },
            None => {
                let ghost e = (name, dep);
                self.entries.push((name, dep));
                assert(self.entries@ == s.push(e));
                assert(self.entries@.drop_last() =~= s);
                assert(names_unique(self.entries@)) by {
                    assert forall|a: int, b: int|
                        0 <= a < self.entries@.len() && 0 <= b < self.entries@.len() && a != b
                            implies #[trigger] self.entries@[a].0@
                        != #[trigger] self.entries@[b].0@ by {
                        if a < s.len() && b < s.len() {
                            assert(self.entries@[a] == s[a] && self.entries@[b] == s[b]);
                        } else if a < s.len() {
                            assert(self.entries@[a] == s[a]);
                        } else {
                            assert(self.entries@[b] == s[b]);
                        }
                    }
                }
            },
        }
    }

    /// The number of records.
    pub fn len(&self) -> (r: usize)
        requires
            self.wf(),
        ensures
            r == self@.len(),
    {
        proof { lemma_map_of(self.entries@); }
        self.entries.len()
    }

    /// Whether a record is stored under `name`.
    pub fn contains_key(&self, name: &str) -> (r: bool)
        requires
            self.wf(),
        ensures
            r == self@.contains_key(name@),
    {
        proof { lemma_map_of(self.entries@); }
        let wanted = name.to_owned();
        self.position(&wanted).is_some()
    }

    /// The record stored under `name`.
    pub fn get(&self, name: &str) -> (r: Option<&Dependency>)
        requires
            self.wf(),
        ensures
            r is Some <==> self@.contains_key(name@),
            r matches Some(d) ==> d@ == self@[name@],
    {
        proof { lemma_map_of(self.entries@); }
        let wanted = name.to_owned();
        match self.position(&wanted) {
            Some(j) => Some(&self.entries[j].1),
            None => None,
        }
    }

    /// The (name, record) pairs, each name once.
    pub fn entries(&self) -> (r: &Vec<(String, Dependency)>)
        ensures
            map_of(r@) == self@,
    {
        &self.entries
    }
}

} // verus!
