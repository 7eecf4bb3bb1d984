use vstd::prelude::*;

verus! {

/// An association list with `String` keys and unique entries: the finite-map
/// representation used for messages, assignments and port tables.  Its view
/// is the map that the entries denote.
#[derive(Debug)]
pub struct AssocList<V> {
    entries: Vec<(String, V)>,
}

/// The map denoted by a sequence of key/value entries; a later entry for the
/// same key wins.
pub open spec fn map_of<V: View>(entries: Seq<(String, V)>) -> Map<Seq<char>, V::V>
    decreases entries.len(),
{
    if entries.len() == 0 {
        Map::empty()
    } else {
        map_of(entries.drop_last()).insert(entries.last().0@, entries.last().1@)
    }
}

/// No two entries share a key.
pub open spec fn distinct_keys<V>(entries: Seq<(String, V)>) -> bool {
    forall|i: int, j: int| 0 <= i < j < entries.len() ==> entries[i].0@ != entries[j].0@
}

impl<V: View> View for AssocList<V> {
    type V = Map<Seq<char>, V::V>;

    closed spec fn view(&self) -> Map<Seq<char>, V::V> {
        map_of(self.entries@)
    }
}

proof fn lemma_map_of_index<V: View>(entries: Seq<(String, V)>, i: int)
    requires
        0 <= i < entries.len(),
        forall|j: int| i < j < entries.len() ==> entries[j].0@ != entries[i].0@,
    ensures
        map_of(entries).contains_key(entries[i].0@),
        map_of(entries)[entries[i].0@] == entries[i].1@,
    decreases entries.len(),
{
    if i == entries.len() - 1 {
    } else {
        lemma_map_of_index(entries.drop_last(), i);
    }
}

proof fn lemma_map_of_absent<V: View>(entries: Seq<(String, V)>, k: Seq<char>)
    requires
        forall|i: int| 0 <= i < entries.len() ==> entries[i].0@ != k,
    ensures
        !map_of(entries).contains_key(k),
    decreases entries.len(),
{
    if entries.len() > 0 {
        lemma_map_of_absent(entries.drop_last(), k);
    }
}

pub proof fn lemma_map_of_push<V: View>(entries: Seq<(String, V)>, e: (String, V))
    ensures
        map_of(entries.push(e)) == map_of(entries).insert(e.0@, e.1@),
{
    assert(entries.push(e).drop_last() =~= entries);
}

proof fn lemma_map_of_remove<V: View>(entries: Seq<(String, V)>, i: int)
    requires
        distinct_keys(entries),
        0 <= i < entries.len(),
    ensures
        map_of(entries.remove(i)) == map_of(entries).remove(entries[i].0@),
    decreases entries.len(),
{
    let last = entries.len() - 1;
    let k = entries[i].0@;
    if i == last {
        assert(entries.remove(i) =~= entries.drop_last());
        lemma_map_of_absent(entries.drop_last(), k);
        assert(map_of(entries.remove(i)) =~= map_of(entries).remove(k));
    } else {
        assert(entries.remove(i).drop_last() =~= entries.drop_last().remove(i));
        lemma_map_of_remove(entries.drop_last(), i);
        assert(map_of(entries.remove(i)) =~= map_of(entries).remove(k));
    }
}

proof fn lemma_map_of_update<V: View>(entries: Seq<(String, V)>, i: int, e: (String, V))
    requires
        distinct_keys(entries),
        0 <= i < entries.len(),
        e.0@ == entries[i].0@,
    ensures
        map_of(entries.update(i, e)) == map_of(entries).insert(e.0@, e.1@),
    decreases entries.len(),
{
    let last = entries.len() - 1;
    if i == last {
        assert(entries.update(i, e).drop_last() =~= entries.drop_last());
        assert(map_of(entries.update(i, e)) =~= map_of(entries).insert(e.0@, e.1@));
    } else {
        assert(entries.update(i, e).drop_last() =~= entries.drop_last().update(i, e));
        lemma_map_of_update(entries.drop_last(), i, e);
        assert(map_of(entries.update(i, e)) =~= map_of(entries).insert(e.0@, e.1@));
    }
}

impl<V: View> AssocList<V> {
    /// The entries in insertion order, for callers that step through the
    /// list; `view` gives the map they denote.
    pub closed spec fn entry_seq(&self) -> Seq<(String, V)> {
        self.entries@
    }

    /// Well-formed: no key occurs twice.
    pub open spec fn wf(&self) -> bool {
        distinct_keys(self.entry_seq())
    }

    /// The view is the map denoted by the entries.
    pub proof fn lemma_view_is_map_of(&self)
        ensures
            self@ == map_of(self.entry_seq()),
    {
    }

    /// An entry's key is in the map and carries the entry's value.
    pub proof fn lemma_entry_in_view(&self, i: int)
        requires
            self.wf(),
            0 <= i < self.entry_seq().len(),
        ensures
            self@.contains_key(self.entry_seq()[i].0@),
            self@[self.entry_seq()[i].0@] == self.entry_seq()[i].1@,
    {
        lemma_map_of_index(self.entries@, i);
    }

    /// Every key of the map comes from some entry.
    pub proof fn lemma_view_covered(&self, k: Seq<char>)
        requires
            self@.contains_key(k),
        ensures
            exists|i: int|
                0 <= i < self.entry_seq().len() && #[trigger] self.entry_seq()[i].0@ == k,
    {
        if forall|i: int| 0 <= i < self.entries@.len() ==> #[trigger] self.entries@[i].0@ != k {
            lemma_map_of_absent(self.entries@, k);
        } else {
            let i = choose|i: int|
                !(0 <= i < self.entries@.len() ==> #[trigger] self.entries@[i].0@ != k);
            assert(self.entry_seq()[i].0@ == k);
        }
    }

    pub fn new() -> (r: Self)
        ensures
            r@ == Map::<Seq<char>, V::V>::empty(),
            r.wf(),
            r.entry_seq().len() == 0,
    {
        AssocList { entries: Vec::new() }
    }

    pub fn num_entries(&self) -> (r: usize)
        ensures
            r == self.entry_seq().len(),
    {
        self.entries.len()
    }

    pub fn key_at(&self, i: usize) -> (r: &String)
        requires
            i < self.entry_seq().len(),
        ensures
            *r == self.entry_seq()[i as int].0,
    {
        &self.entries[i].0
    }

    pub fn value_at(&self, i: usize) -> (r: &V)
        requires
            i < self.entry_seq().len(),
        ensures
            *r == self.entry_seq()[i as int].1,
    {
        &self.entries[i].1
    }

    /// Binds `name` to `value`, replacing any previous binding.
    pub fn insert(&mut self, name: String, value: V)
        requires
            old(self).wf(),
        ensures
            final(self).wf(),
            final(self)@ == old(self)@.insert(name@, value@),
    {
        let n = self.entries.len();
        let mut i: usize = 0;
        while i < n
            invariant
                n == self.entries@.len(),
                i <= n,
                self.entries@ == old(self).entries@,
                self.wf(),
                forall|j: int| 0 <= j < i ==> self.entries@[j].0@ != name@,
            decreases n - i,
        {
            if self.entries[i].0.eq(&name) {
                proof {
                    lemma_map_of_update(self.entries@, i as int, (name, value));
                    assert(distinct_keys(self.entries@.update(i as int, (name, value)))) by {
                        let updated = self.entries@.update(i as int, (name, value));
                        assert forall|p: int, q: int|
                            0 <= p < q < updated.len() implies updated[p].0@ != updated[q].0@ by {
                            assert(self.entries@[p].0@ != self.entries@[q].0@);
                        }
                    }
                }
                self.entries.remove(i);
                self.entries.insert(i, (name, value));
                proof {
                    assert(self.entries@ =~= old(self).entries@.update(
                        i as int,
                        (name, value),
                    ));
                }
                return;
            }
            i += 1;
        }
        proof {
            lemma_map_of_push(self.entries@, (name, value));
            assert(distinct_keys(self.entries@.push((name, value)))) by {
                let pushed = self.entries@.push((name, value));
                assert forall|p: int, q: int|
                    0 <= p < q < pushed.len() implies pushed[p].0@ != pushed[q].0@ by {
                    if q == pushed.len() - 1 {
                        assert(self.entries@[p].0@ != name@);
                    } else {
                        assert(self.entries@[p].0@ != self.entries@[q].0@);
                    }
                }
            }
        }
        self.entries.push((name, value));
    }

    /// Looks a key up; `Some` exactly when the map contains it.
    pub fn get<'a>(&'a self, name: &String) -> (r: Option<&'a V>)
        requires
            self.wf(),
        ensures
            match r {
                Some(v) => self@.contains_key(name@) && v@ == self@[name@],
                None => !self@.contains_key(name@),
            },
    {
        let n = self.entries.len();
        let mut i: usize = 0;
        while i < n
            invariant
                n == self.entries@.len(),
                i <= n,
                self.wf(),
                forall|j: int| 0 <= j < i ==> self.entries@[j].0@ != name@,
            decreases n - i,
        {
            if self.entries[i].0.eq(name) {
                proof {
                    lemma_map_of_index(self.entries@, i as int);
                }
                return Some(&self.entries[i].1);
            }
            i += 1;
        }
        proof {
            lemma_map_of_absent(self.entries@, name@);
        }
        None
    }

    /// Whether the map binds a key.
    pub fn contains_key(&self, name: &String) -> (r: bool)
        requires
            self.wf(),
        ensures
            r == self@.contains_key(name@),
    {
        self.get(name).is_some()
    }

    /// Removes a binding and hands its value back.
    pub fn remove(&mut self, name: &String) -> (r: Option<V>)
        requires
            old(self).wf(),
        ensures
            final(self).wf(),
            match r {
                Some(v) => old(self)@.contains_key(name@) && v@ == old(self)@[name@]
                    && final(self)@ == old(self)@.remove(name@),
                None => !old(self)@.contains_key(name@) && final(self)@ == old(self)@
                    && final(self).entry_seq() == old(self).entry_seq(),
            },
    {
        let n = self.entries.len();
        let mut i: usize = 0;
        while i < n
            invariant
                n == self.entries@.len(),
                i <= n,
                self.entries@ == old(self).entries@,
                self.wf(),
                forall|j: int| 0 <= j < i ==> self.entries@[j].0@ != name@,
            decreases n - i,
        {
            if self.entries[i].0.eq(name) {
                proof {
                    lemma_map_of_index(self.entries@, i as int);
                    lemma_map_of_remove(self.entries@, i as int);
                    let removed = self.entries@.remove(i as int);
                    assert(distinct_keys(removed)) by {
                        assert forall|p: int, q: int|
                            0 <= p < q < removed.len() implies removed[p].0@ != removed[q].0@ by {
                            let p0: int = if p < i { p } else { p + 1 };
                            let q0: int = if q < i { q } else { q + 1 };
                            assert(removed[p] == self.entries@[p0]);
                            assert(removed[q] == self.entries@[q0]);
                        }
                    }
                }
                let e = self.entries.remove(i);
                return Some(e.1);
            }
            i += 1;
        }
        proof {
            lemma_map_of_absent(self.entries@, name@);
        }
        None
    }
}

} // verus!
