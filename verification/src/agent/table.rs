use vstd::prelude::*;
use crate::agent::types::AgentId;

verus! {

/// No two entries of `s` share a key.
pub open spec fn keys_unique<T>(s: Seq<(AgentId, T)>) -> bool {
    forall|i: int, j: int| 0 <= i < j < s.len() ==> (#[trigger] s[i]).0 != (#[trigger] s[j]).0
}

/// Whether some entry of `s` has key `id`.
pub open spec fn has_key<T>(s: Seq<(AgentId, T)>, id: AgentId) -> bool {
    exists|i: int| 0 <= i < s.len() && (#[trigger] s[i]).0 == id
}

/// The position of the entry with key `id`.
pub open spec fn key_index<T>(s: Seq<(AgentId, T)>, id: AgentId) -> int {
    choose|i: int| 0 <= i < s.len() && (#[trigger] s[i]).0 == id
}

/// The map that an association list with unique keys stands for.
pub open spec fn as_map<T>(s: Seq<(AgentId, T)>) -> Map<AgentId, T> {
    Map::new(|id: AgentId| has_key(s, id), |id: AgentId| s[key_index(s, id)].1)
}

/// A small map from agent identities to values, kept as an association list.
#[derive(Debug)]
pub struct AgentTable<T> {
    entries: Vec<(AgentId, T)>,
}

impl<T> AgentTable<T> {
    pub closed spec fn wf(&self) -> bool {
        keys_unique(self.entries@)
    }

    pub closed spec fn view(&self) -> Map<AgentId, T> {
        as_map(self.entries@)
    }

    pub fn new() -> (t: AgentTable<T>)
        ensures
            t.wf(),
            t.view() == Map::<AgentId, T>::empty(),
    {
        let t = AgentTable { entries: Vec::new() };
        assert(t.view() =~= Map::<AgentId, T>::empty());
        t
    }

    fn position_of(&self, id: &AgentId) -> (r: Option<usize>)
        requires
            self.wf(),
        ensures
            r is None <==> !has_key(self.entries@, *id),
            r matches Some(i) ==> i < self.entries@.len() && self.entries@[i as int].0 == *id
                && i == key_index(self.entries@, *id),
    {
        let mut i: usize = 0;
        while i < self.entries.len()
            invariant
                self.wf(),
                i <= self.entries@.len(),
                forall|k: int| 0 <= k < i ==> (#[trigger] self.entries@[k]).0 != *id,
            decreases self.entries@.len() - i,
        {
            if self.entries[i].0 == *id {
                proof {
                    let j = key_index(self.entries@, *id);
                    assert(self.entries@[i as int].0 == *id);
                    if j != i as int {
                        if j < i as int {
                            assert(self.entries@[j].0 != self.entries@[i as int].0);
                        } else {
                            assert(self.entries@[i as int].0 != self.entries@[j].0);
                        }
                    }
                }
                return Some(i);
            }
            i = i + 1;
        }
        None
    }

    /// The value stored under `id`.
    pub fn get(&self, id: &AgentId) -> (r: Option<&T>)
        requires
            self.wf(),
        ensures
            r is Some <==> self.view().contains_key(*id),
            r matches Some(v) ==> *v == self.view()[*id],
    {
        match self.position_of(id) {
            Some(i) => Some(&self.entries[i].1),
            None => None,
        }
    }

    /// Stores `value` under `id`, replacing what was there.
    pub fn insert(&mut self, id: AgentId, value: T)
        requires
            old(self).wf(),
        ensures
            final(self).wf(),
            final(self).view() == old(self).view().insert(id, value),
    {
        let ghost old_entries = self.entries@;
        match self.position_of(&id) {
            Some(i) => {
                self.entries.set(i, (id, value));
                proof {
                    assert forall|a: int, b: int| 0 <= a < b < self.entries@.len() implies (#[trigger] self.entries@[a]).0
                        != (#[trigger] self.entries@[b]).0 by {
                        assert(old_entries[a].0 != old_entries[b].0);
                    }
                    assert forall|k: AgentId| #[trigger] has_key(self.entries@, k) == has_key(old_entries, k) || k == id by {
                        if has_key(self.entries@, k) && k != id {
                            let j = choose|j: int| 0 <= j < self.entries@.len() && (#[trigger] self.entries@[j]).0 == k;
                            assert(old_entries[j].0 == k);
                        }
                        if has_key(old_entries, k) && k != id {
                            let j = choose|j: int| 0 <= j < old_entries.len() && (#[trigger] old_entries[j]).0 == k;
                            assert(self.entries@[j].0 == k);
                        }
                    }
                    self.lemma_view_after_write(old_entries, i as int, id, value);
                }
            },
            None => {
                self.entries.push((id, value));
                proof {
                    assert forall|a: int, b: int| 0 <= a < b < self.entries@.len() implies (#[trigger] self.entries@[a]).0
                        != (#[trigger] self.entries@[b]).0 by {
                        if b == self.entries@.len() - 1 {
                            assert(old_entries[a].0 != id);
                        } else {
                            assert(old_entries[a].0 != old_entries[b].0);
                        }
                    }
                    self.lemma_view_after_write(old_entries, old_entries.len() as int, id, value);
                }
            },
        }
    }

    /// After writing `(id, value)` at position `i` (an update of the entry with
    /// key `id`, or a push when `i` is the old length) the map has `id` bound
    /// to `value` and everything else unchanged.
    proof fn lemma_view_after_write(&self, old_entries: Seq<(AgentId, T)>, i: int, id: AgentId, value: T)
        requires
            keys_unique(old_entries),
            keys_unique(self.entries@),
            0 <= i <= old_entries.len(),
            i < old_entries.len() ==> old_entries[i].0 == id && self.entries@ == old_entries.update(i, (id, value)),
            i == old_entries.len() ==> !has_key(old_entries, id) && self.entries@ == old_entries.push((id, value)),
        ensures
            self.view() == as_map(old_entries).insert(id, value),
    {
        let m = as_map(old_entries).insert(id, value);
        assert(self.entries@[i] == (id, value));
        assert forall|k: AgentId| #[trigger] self.view().contains_key(k) <==> m.contains_key(k) by {
            if self.view().contains_key(k) && k != id {
                let j = choose|j: int| 0 <= j < self.entries@.len() && (#[trigger] self.entries@[j]).0 == k;
                assert(j != i);
                assert(old_entries[j].0 == k);
            }
            if m.contains_key(k) && k != id {
                let j = choose|j: int| 0 <= j < old_entries.len() && (#[trigger] old_entries[j]).0 == k;
                assert(j != i);
                assert(self.entries@[j].0 == k);
            }
            if k == id {
                assert(self.entries@[i].0 == k);
            }
        }
        assert forall|k: AgentId| #[trigger] self.view().contains_key(k) implies self.view()[k] == m[k] by {
            let j = key_index(self.entries@, k);
            if k == id {
                if j != i {
                    if j < i {
                        assert(self.entries@[j].0 != self.entries@[i].0);
                    } else {
                        assert(self.entries@[i].0 != self.entries@[j].0);
                    }
                }
            } else {
                let oj = key_index(old_entries, k);
                assert(j != i);
                assert(self.entries@[j] == old_entries[j]);
                if oj != j {
                    assert(self.entries@[oj] == old_entries[oj]);
                    if oj < j {
                        assert(self.entries@[oj].0 != self.entries@[j].0);
                    } else {
                        assert(self.entries@[j].0 != self.entries@[oj].0);
                    }
                }
            }
        }
        assert(self.view() =~= m);
    }

    /// Removes and returns the value stored under `id`.
    pub fn remove(&mut self, id: &AgentId) -> (r: Option<T>)
        requires
            old(self).wf(),
        ensures
            final(self).wf(),
            final(self).view() == old(self).view().remove(*id),
            r is Some <==> old(self).view().contains_key(*id),
            r matches Some(v) ==> v == old(self).view()[*id],
    {
        let ghost old_entries = self.entries@;
        match self.position_of(id) {
            Some(i) => {
                let (_, v) = self.entries.remove(i);
                proof {
                    let ni = i as int;
                    assert forall|x: int, y: int| 0 <= x < y < self.entries@.len() implies (#[trigger] self.entries@[x]).0
                        != (#[trigger] self.entries@[y]).0 by {
                        let ox = if x < ni { x } else { x + 1 };
                        let oy = if y < ni { y } else { y + 1 };
                        assert(self.entries@[x] == old_entries[ox]);
                        assert(self.entries@[y] == old_entries[oy]);
                        assert(old_entries[ox].0 != old_entries[oy].0);
                    }
                    let m = as_map(old_entries).remove(*id);
                    assert forall|k: AgentId| #[trigger] self.view().contains_key(k) <==> m.contains_key(k) by {
                        if self.view().contains_key(k) {
                            let j = choose|j: int| 0 <= j < self.entries@.len() && (#[trigger] self.entries@[j]).0 == k;
                            let oj = if j < ni { j } else { j + 1 };
                            assert(self.entries@[j] == old_entries[oj]);
                            if k == *id {
                                if oj < ni {
                                    assert(old_entries[oj].0 != old_entries[ni].0);
                                } else {
                                    assert(old_entries[ni].0 != old_entries[oj].0);
                                }
                            }
                        }
                        if m.contains_key(k) {
                            let oj = choose|j: int| 0 <= j < old_entries.len() && (#[trigger] old_entries[j]).0 == k;
                            assert(oj != ni);
                            let j = if oj < ni { oj } else { oj - 1 };
                            assert(self.entries@[j] == old_entries[oj]);
                        }
                    }
                    assert forall|k: AgentId| #[trigger] self.view().contains_key(k) implies self.view()[k] == m[k] by {
                        let j = key_index(self.entries@, k);
                        let oj = if j < ni { j } else { j + 1 };
                        assert(self.entries@[j] == old_entries[oj]);
                        let ok = key_index(old_entries, k);
                        if ok != oj {
                            if ok < oj {
                                assert(old_entries[ok].0 != old_entries[oj].0);
                            } else {
                                assert(old_entries[oj].0 != old_entries[ok].0);
                            }
                        }
                    }
                    assert(self.view() =~= m);
                }
                Some(v)
            },
            None => {
                proof {
                    assert(as_map(old_entries).remove(*id) =~= as_map(old_entries));
                }
                None
            },
        }
    }
}

} // verus!
