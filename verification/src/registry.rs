//! The connection registry: one live pool handle per logical connection
//! id, inserted by connect, replaced silently on re-connect, removed by
//! disconnect, and looked up by every delegated operation.
//!
//! The registry is generic in the handle it stores; callers wrap it in
//! whatever shared-state guard they need, and the map itself never does
//! I/O.

use vstd::prelude::*;

verus! {

/// A map from logical connection id to a live pool handle.
#[verifier::reject_recursive_types(T)]
pub struct ConnectionRegistry<T> {
    entries: Vec<(String, T)>,
}

/// The map an entry list denotes, later entries winning.
pub open spec fn entries_map<T>(entries: Seq<(String, T)>) -> Map<Seq<char>, T>
    decreases entries.len(),
{
    if entries.len() == 0 {
        Map::empty()
    } else {
        entries_map(entries.drop_last()).insert(entries.last().0@, entries.last().1)
    }
}

/// Whether no two entries share an id.
pub open spec fn keys_unique<T>(entries: Seq<(String, T)>) -> bool {
    forall|i: int, j: int|
        0 <= i < j < entries.len() ==> (#[trigger] entries[i]).0@ != (#[trigger] entries[j]).0@
}

proof fn lemma_entries_map_props<T>(entries: Seq<(String, T)>)
    requires
        keys_unique(entries),
    ensures
        forall|i: int|
            0 <= i < entries.len() ==> entries_map(entries).contains_key(
                (#[trigger] entries[i]).0@,
            ) && entries_map(entries)[entries[i].0@] == entries[i].1,
        forall|k: Seq<char>|
            entries_map(entries).contains_key(k) ==> exists|i: int|
                0 <= i < entries.len() && (#[trigger] entries[i]).0@ == k,
    decreases entries.len(),
{
    if entries.len() > 0 {
        assert(keys_unique(entries.drop_last()));
        lemma_entries_map_props(entries.drop_last());
        let m = entries_map(entries.drop_last());
        let last = entries.last();
        assert forall|i: int| 0 <= i < entries.len() implies entries_map(entries).contains_key(
            (#[trigger] entries[i]).0@,
        ) && entries_map(entries)[entries[i].0@] == entries[i].1 by {
            if i < entries.len() - 1 {
                assert(entries.drop_last()[i] == entries[i]);
                assert(entries[i].0@ != last.0@);
            }
        }
        assert forall|k: Seq<char>| entries_map(entries).contains_key(k) implies exists|i: int|
            0 <= i < entries.len() && (#[trigger] entries[i]).0@ == k by {
            if k == last.0@ {
                assert(entries[entries.len() - 1].0@ == k);
            } else {
                assert(m.contains_key(k));
                let i = choose|i: int|
                    0 <= i < entries.drop_last().len() && (#[trigger] entries.drop_last()[i]).0@
                        == k;
                assert(entries[i].0@ == k);
            }
        }
    }
}

proof fn lemma_entries_map_remove_at<T>(entries: Seq<(String, T)>, i: int)
    requires
        keys_unique(entries),
        0 <= i < entries.len(),
    ensures
        keys_unique(entries.remove(i)),
        entries_map(entries.remove(i)) == entries_map(entries).remove(entries[i].0@),
    decreases entries.len(),
{
    let k = entries[i].0@;
    let last = entries.last();
    let m_prev = entries_map(entries.drop_last());
    assert(keys_unique(entries.drop_last()));
    assert forall|a: int, b: int| 0 <= a < b < entries.remove(i).len() implies (
    #[trigger] entries.remove(i)[a]).0@ != (#[trigger] entries.remove(i)[b]).0@ by {
        let oa = if a < i {
            a
        } else {
            a + 1
        };
        let ob = if b < i {
            b
        } else {
            b + 1
        };
        assert(entries.remove(i)[a] == entries[oa]);
        assert(entries.remove(i)[b] == entries[ob]);
    }
    if i == entries.len() - 1 {
        assert(entries.remove(i) =~= entries.drop_last());
        lemma_entries_map_props(entries.drop_last());
        if m_prev.contains_key(k) {
            let j = choose|j: int|
                0 <= j < entries.drop_last().len() && (#[trigger] entries.drop_last()[j]).0@ == k;
            assert(entries[j].0@ == k);
            assert(false);
        }
        assert(entries_map(entries).remove(k) =~= m_prev);
    } else {
        lemma_entries_map_remove_at(entries.drop_last(), i);
        assert(entries.remove(i).drop_last() =~= entries.drop_last().remove(i));
        assert(entries.remove(i).last() == last);
        assert(entries.drop_last()[i] == entries[i]);
        assert(k != last.0@);
        assert(entries_map(entries.remove(i)) == entries_map(
            entries.drop_last().remove(i),
        ).insert(last.0@, last.1));
        assert(entries_map(entries).remove(k) =~= m_prev.remove(k).insert(last.0@, last.1));
    }
}

impl<T> ConnectionRegistry<T> {
    /// The map this registry holds.
    pub closed spec fn view(&self) -> Map<Seq<char>, T> {
        entries_map(self.entries@)
    }

    /// The registry's internal soundness: ids unique.
    pub closed spec fn wf(&self) -> bool {
        keys_unique(self.entries@)
    }

    /// An empty registry.
    pub fn new() -> (r: Self)
        ensures
            r.wf(),
            r@ == Map::<Seq<char>, T>::empty(),
    {
        ConnectionRegistry { entries: Vec::new() }
    }

    /// The position of an id among the entries.
    #[verifier::loop_isolation(false)]
    fn find(&self, id: &str) -> (r: Option<usize>)
        requires
            self.wf(),
        ensures
            (match r {
                Some(i) => i < self.entries@.len() && self.entries@[i as int].0@ == id@,
                None => !self@.contains_key(id@),
            }),
    {
        for i in 0..self.entries.len()
            invariant
                forall|j: int| 0 <= j < i ==> (#[trigger] self.entries@[j]).0@ != id@,
        {
            if crate::text::str_eq(self.entries[i].0.as_str(), id) {
                return Some(i);
            }
        }
        proof {
            lemma_entries_map_props(self.entries@);
            if self@.contains_key(id@) {
                let j = choose|j: int|
                    0 <= j < self.entries@.len() && (#[trigger] self.entries@[j]).0@ == id@;
                assert(false);
            }
        }
        None
    }

    /// Store the pool of a logical connection, silently replacing any
    /// pool the id already had.
    pub fn connect(&mut self, id: &str, pool: T)
        requires
            old(self).wf(),
        ensures
            final(self).wf(),
            final(self)@ == old(self)@.insert(id@, pool),
    {
        match self.find(id) {
            Some(i) => {
                proof {
                    lemma_entries_map_remove_at(self.entries@, i as int);
                }
                let _old_entry = self.entries.remove(i);
            },
            None => {},
        }
        let ghost mid = self.entries@;
        proof {
            assert(!entries_map(mid).contains_key(id@));
            lemma_entries_map_props(mid);
            assert forall|j: int| 0 <= j < mid.len() implies (#[trigger] mid[j]).0@ != id@ by {
                if mid[j].0@ == id@ {
                    assert(entries_map(mid).contains_key(mid[j].0@));
                }
            }
        }
        self.entries.push((id.to_owned(), pool));
        proof {
            assert(self.entries@.drop_last() =~= mid);
            assert(self.entries@.last().0@ == id@);
            assert forall|a: int, b: int| 0 <= a < b < self.entries@.len() implies (
            #[trigger] self.entries@[a]).0@ != (#[trigger] self.entries@[b]).0@ by {
                if b < self.entries@.len() - 1 {
                    assert(mid[a] == self.entries@[a]);
                    assert(mid[b] == self.entries@[b]);
                } else {
                    assert(mid[a] == self.entries@[a]);
                    assert(mid[a].0@ != id@);
                }
            }
            assert(self@ =~= old(self)@.insert(id@, pool));
        }
    }

    /// Remove and hand back the pool of a logical connection; absent
    /// ids are a no-op, not an error.
    pub fn disconnect(&mut self, id: &str) -> (r: Option<T>)
        requires
            old(self).wf(),
        ensures
            final(self).wf(),
            final(self)@ == old(self)@.remove(id@),
            (match r {
                Some(p) => old(self)@.contains_key(id@) && p == old(self)@[id@],
                None => !old(self)@.contains_key(id@),
            }),
    {
        match self.find(id) {
            Some(i) => {
                proof {
                    lemma_entries_map_props(self.entries@);
                    lemma_entries_map_remove_at(self.entries@, i as int);
                }
                let entry = self.entries.remove(i);
                Some(entry.1)
            },
            None => {
                proof {
                    assert(self@.remove(id@) =~= self@);
                }
                None
            },
        }
    }

    /// Whether an id has a live pool.
    pub fn is_connected(&self, id: &str) -> (r: bool)
        requires
            self.wf(),
        ensures
            r == self@.contains_key(id@),
    {
        match self.find(id) {
            Some(i) => {
                proof {
                    lemma_entries_map_props(self.entries@);
                }
                true
            },
            None => false,
        }
    }

    /// Look up the pool of an id.
    pub fn get_pool(&self, id: &str) -> (r: Option<&T>)
        requires
            self.wf(),
        ensures
            (match r {
                Some(p) => self@.contains_key(id@) && *p == self@[id@],
                None => !self@.contains_key(id@),
            }),
    {
        match self.find(id) {
            Some(i) => {
                proof {
                    lemma_entries_map_props(self.entries@);
                }
                Some(&self.entries[i].1)
            },
            None => None,
        }
    }
}

} // verus!
