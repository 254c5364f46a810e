//! A map from names to values that remembers the order of insertion.
use vstd::prelude::*;

use crate::text::str_eq;

verus! {

/// Values under distinct names, in the order in which the names were first
/// inserted.
#[derive(Debug)]
pub struct FieldMap<V> {
    entries: Vec<(String, V)>,
}

/// The names of a list of entries.
pub open spec fn names_of<V>(entries: Seq<(String, V)>) -> Seq<Seq<char>> {
    Seq::new(entries.len(), |i: int| entries[i].0@)
}

/// The map that a list of entries denotes, of two entries of one name the last.
pub open spec fn map_of<V: View>(entries: Seq<(String, V)>) -> Map<Seq<char>, V::V>
    decreases entries.len(),
{
    if entries.len() == 0 {
        Map::empty()
    } else {
        map_of(entries.drop_last()).insert(entries.last().0@, entries.last().1@)
    }
}

/// A name is in the map where an entry has it; with distinct names its value is
/// that of the entry.
proof fn lemma_map_of<V: View>(entries: Seq<(String, V)>)
    requires
        names_of(entries).no_duplicates(),
    ensures
        forall|k: Seq<char>| #[trigger]
            map_of(entries).contains_key(k) <==> names_of(entries).contains(k),
        forall|i: int|
            0 <= i < entries.len() ==> map_of(entries)[#[trigger] entries[i].0@] == entries[i].1@,
    decreases entries.len(),
{
    if entries.len() > 0 {
        let front = entries.drop_last();
        let last = entries.last();
        assert(names_of(front) =~= names_of(entries).drop_last());
        assert(names_of(front).no_duplicates()) by {
            assert forall|i: int, j: int|
                0 <= i < front.len() && 0 <= j < front.len() && i != j implies names_of(front)[i]
                != names_of(front)[j] by {
                assert(names_of(entries)[i] != names_of(entries)[j]);
            }
        }
        lemma_map_of(front);
        assert forall|k: Seq<char>| #[trigger] map_of(entries).contains_key(k) implies names_of(
            entries,
        ).contains(k) by {
            if k == last.0@ {
                assert(names_of(entries)[entries.len() - 1] == k);
            } else {
                assert(map_of(front).contains_key(k));
                let i = choose|i: int| 0 <= i < front.len() && names_of(front)[i] == k;
                assert(names_of(entries)[i] == k);
            }
        }
        assert forall|k: Seq<char>| names_of(entries).contains(k) implies #[trigger] map_of(
            entries,
        ).contains_key(k) by {
            let i = choose|i: int| 0 <= i < entries.len() && names_of(entries)[i] == k;
            if i < front.len() {
                assert(names_of(front)[i] == k);
                assert(map_of(front).contains_key(k));
            }
        }
        assert forall|i: int| 0 <= i < entries.len() implies map_of(
            entries,
        )[#[trigger] entries[i].0@] == entries[i].1@ by {
            if i < front.len() {
                assert(front[i] == entries[i]);
                assert(names_of(entries)[i] != names_of(entries)[entries.len() - 1]);
            }
        }
    }
}

impl<V: View> View for FieldMap<V> {
    type V = Map<Seq<char>, V::V>;

    closed spec fn view(&self) -> Map<Seq<char>, V::V> {
        map_of(self.entries@)
    }
}

impl<V> FieldMap<V> {
    /// No name occurs twice.
    #[verifier::type_invariant]
    spec fn distinct(self) -> bool {
        names_of(self.entries@).no_duplicates()
    }
}

impl<V: View> FieldMap<V> {
    /// The names, in the order of insertion.
    pub closed spec fn names(&self) -> Seq<Seq<char>> {
        names_of(self.entries@)
    }

    /// A map without entries.
    pub fn new() -> (res: Self)
        ensures
            res@ == Map::<Seq<char>, V::V>::empty(),
            res.names() == Seq::<Seq<char>>::empty(),
    {
        FieldMap { entries: Vec::new() }
    }

    /// The number of names, which are those that the map holds, each once.
    pub fn len(&self) -> (res: usize)
        ensures
            res == self.names().len(),
            self.names().no_duplicates(),
            forall|k: Seq<char>| #[trigger]
                self@.contains_key(k) <==> self.names().contains(k),
    {
        proof {
            use_type_invariant(self);
            lemma_map_of(self.entries@);
        }
        self.entries.len()
    }

    /// The name inserted after `i` others.
    pub fn name_at(&self, i: usize) -> (res: &String)
        requires
            i < self.names().len(),
        ensures
            res@ == self.names()[i as int],
            self@.contains_key(res@),
    {
        proof {
            use_type_invariant(self);
            lemma_map_of(self.entries@);
            assert(self.names()[i as int] == self.entries@[i as int].0@);
        }
        &self.entries[i].0
    }

    /// The place of a name among the entries.
    fn position(&self, name: &str) -> (res: Option<usize>)
        ensures
            match res {
                Some(i) => i < self.entries@.len() && self.entries@[i as int].0@ == name@,
                None => !names_of(self.entries@).contains(name@),
            },
    {
        let mut i: usize = 0;
        while i < self.entries.len()
            invariant
                i <= self.entries@.len(),
                forall|j: int| 0 <= j < i ==> (#[trigger] self.entries@[j]).0@ != name@,
            decreases self.entries@.len() - i,
        {
            if str_eq(self.entries[i].0.as_str(), name) {
                return Some(i);
            }
            i = i + 1;
        }
        proof {
            assert forall|j: int| 0 <= j < names_of(self.entries@).len() implies names_of(
                self.entries@,
            )[j] != name@ by {
                assert(self.entries@[j].0@ != name@);
            }
        }
        None
    }

    /// The value under a name.
    pub fn get(&self, name: &str) -> (res: Option<&V>)
        ensures
            match res {
                Some(v) => self@.contains_key(name@) && self@[name@] == v@,
                None => !self@.contains_key(name@),
            },
    {
        proof {
            use_type_invariant(self);
            lemma_map_of(self.entries@);
        }
        match self.position(name) {
            Some(i) => {
                proof {
                    assert(names_of(self.entries@)[i as int] == name@);
                }
                Some(&self.entries[i].1)
            },
            None => None,
        }
    }

    /// Puts a value under a name, in place of an earlier one.
    pub fn insert(&mut self, name: String, value: V)
        ensures
            final(self)@ == old(self)@.insert(name@, value@),
            final(self).names() == (if old(self)@.contains_key(name@) {
                old(self).names()
            } else {
                old(self).names().push(name@)
            }),
    {
        proof {
            use_type_invariant(&*self);
            lemma_map_of(self.entries@);
        }
        let ghost before = self.entries@;
        match self.position(name.as_str()) {
            Some(i) => {
                let mut entries: Vec<(String, V)> = Vec::new();
                std::mem::swap(&mut entries, &mut self.entries);
                let ghost k = i as int;
                entries.set(i, (name, value));
                proof {
                    let after = entries@;
                    assert(names_of(after) =~= names_of(before));
                    assert(names_of(before)[k] == name@);
                    lemma_map_of(after);
                    assert forall|n: Seq<char>| #[trigger] map_of(after).contains_key(n) implies map_of(
                        after,
                    )[n] == map_of(before).insert(name@, value@)[n] by {
                        let j = choose|j: int|
                            0 <= j < after.len() && names_of(after)[j] == n;
                        assert(after[j].0@ == n);
                        if j != k {
                            assert(before[j] == after[j]);
                            assert(before[j].0@ == n);
                            assert(names_of(before)[j] != names_of(before)[k]);
                        }
                    }
                    assert(map_of(after) =~= map_of(before).insert(name@, value@));
                }
                self.entries = entries;
            },
            None => {
                proof {
                    let after = before.push((name, value));
                    assert(after.drop_last() =~= before);
                    assert(names_of(after) =~= names_of(before).push(name@));
                }
                let mut entries: Vec<(String, V)> = Vec::new();
                std::mem::swap(&mut entries, &mut self.entries);
                entries.push((name, value));
                self.entries = entries;
            },
        }
    }
}

} // verus!
