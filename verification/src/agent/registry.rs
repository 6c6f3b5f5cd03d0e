use vstd::prelude::*;
use crate::agent::types::{short_id_text, uuid_text, Agent, AgentId};
use crate::text::{starts_with, str_eq};

verus! {

/// No two agents of `s` share an identity.
pub open spec fn ids_unique(s: Seq<Agent>) -> bool {
    forall|i: int, j: int| 0 <= i < j < s.len() ==> (#[trigger] s[i]).id != (#[trigger] s[j]).id
}

/// Whether some agent of `s` has identity `id`.
pub open spec fn has_id(s: Seq<Agent>, id: AgentId) -> bool {
    exists|i: int| 0 <= i < s.len() && (#[trigger] s[i]).id == id
}

/// The position in `s` of the agent with identity `id`, when there is one.
pub open spec fn index_of_id(s: Seq<Agent>, id: AgentId) -> int {
    choose|i: int| 0 <= i < s.len() && (#[trigger] s[i]).id == id
}

/// An identity text matches the agent whose full UUID text starts with it
/// (an exact full text is one such start).
pub open spec fn id_text_matches(a: Agent, text: Seq<char>) -> bool {
    text.is_prefix_of(uuid_text(a.id.0))
}

/// The index of the first agent of `s` (in registration order) whose identity
/// text starts with `text`, or -1.
pub open spec fn first_id_match(s: Seq<Agent>, text: Seq<char>) -> int {
    if exists|i: int| 0 <= i < s.len() && id_text_matches(#[trigger] s[i], text) {
        choose|i: int|
            0 <= i < s.len() && id_text_matches(#[trigger] s[i], text) && forall|k: int| 0 <= k < i ==> !id_text_matches(#[trigger] s[k], text)
    } else {
        -1
    }
}

proof fn lemma_first_id_match(s: Seq<Agent>, text: Seq<char>, j: int)
    requires
        0 <= j < s.len(),
        id_text_matches(s[j], text),
        forall|k: int| 0 <= k < j ==> !id_text_matches(#[trigger] s[k], text),
    ensures
        first_id_match(s, text) == j,
{
    assert(exists|i: int|
        0 <= i < s.len() && id_text_matches(#[trigger] s[i], text) && forall|k: int| 0 <= k < i ==> !id_text_matches(#[trigger] s[k], text));
    let c = first_id_match(s, text);
    if c < j {
        assert(!id_text_matches(s[c], text));
    } else if c > j {
        assert(!id_text_matches(s[j], text));
    }
}

/// All agents in the world, each under its own identity, kept in the order in
/// which they were first registered.
#[derive(Debug)]
pub struct AgentRegistry {
    agents: Vec<Agent>,
}

impl AgentRegistry {
    pub closed spec fn view(&self) -> Seq<Agent> {
        self.agents@
    }

    /// Identities are unique.
    pub closed spec fn wf(&self) -> bool {
        ids_unique(self.agents@)
    }

    pub fn new() -> (r: AgentRegistry)
        ensures
            r.wf(),
            r.view() == Seq::<Agent>::empty(),
    {
        AgentRegistry { agents: Vec::new() }
    }

    fn position_of(&self, id: &AgentId) -> (r: Option<usize>)
        requires
            self.wf(),
        ensures
            r is None <==> !has_id(self.view(), *id),
            r matches Some(i) ==> i < self.view().len() && self.view()[i as int].id == *id
                && i == index_of_id(self.view(), *id),
    {
        let mut i: usize = 0;
        while i < self.agents.len()
            invariant
                self.wf(),
                i <= self.agents@.len(),
                forall|k: int| 0 <= k < i ==> (#[trigger] self.agents@[k]).id != *id,
            decreases self.agents@.len() - i,
        {
            if self.agents[i].id == *id {
                proof {
                    let j = index_of_id(self.view(), *id);
                    assert(self.view()[i as int].id == *id);
                    assert(ids_unique(self.agents@));
                    if j != i as int {
                        if j < i as int {
                            assert(self.agents@[j].id != self.agents@[i as int].id);
                        } else {
                            assert(self.agents@[i as int].id != self.agents@[j].id);
                        }
                    }
                }
                return Some(i);
            }
            i = i + 1;
        }
        None
    }

    /// Adds `agent`, replacing (in place) any agent with the same identity.
    pub fn register(&mut self, agent: Agent) -> (id: AgentId)
        requires
            old(self).wf(),
        ensures
            id == agent.id,
            final(self).wf(),
            has_id(old(self).view(), agent.id) ==> final(self).view() == old(self).view().update(
                index_of_id(old(self).view(), agent.id),
                agent,
            ),
            !has_id(old(self).view(), agent.id) ==> final(self).view() == old(self).view().push(agent),
    {
        let id = agent.id;
        match self.position_of(&id) {
            Some(i) => {
                self.agents.set(i, agent);
                proof {
                    assert forall|a: int, b: int| 0 <= a < b < self.agents@.len() implies (#[trigger] self.agents@[a]).id
                        != (#[trigger] self.agents@[b]).id by {
                        assert(old(self).agents@[a].id != old(self).agents@[b].id);
                    }
                }
            },
            None => {
                self.agents.push(agent);
                proof {
                    assert forall|a: int, b: int| 0 <= a < b < self.agents@.len() implies (#[trigger] self.agents@[a]).id
                        != (#[trigger] self.agents@[b]).id by {
                        if b == self.agents@.len() - 1 {
                            assert(old(self).agents@[a].id != id);
                        } else {
                            assert(old(self).agents@[a].id != old(self).agents@[b].id);
                        }
                    }
                }
            },
        }
        id
    }

    /// Removes the agent with identity `id` and returns it.
    pub fn remove(&mut self, id: &AgentId) -> (r: Option<Agent>)
        requires
            old(self).wf(),
        ensures
            final(self).wf(),
            r is None <==> !has_id(old(self).view(), *id),
            r is None ==> final(self).view() == old(self).view(),
            r matches Some(a) ==> a == old(self).view()[index_of_id(old(self).view(), *id)]
                && final(self).view() == old(self).view().remove(index_of_id(old(self).view(), *id)),
    {
        match self.position_of(id) {
            Some(i) => {
                let a = self.agents.remove(i);
                proof {
                    assert forall|x: int, y: int| 0 <= x < y < self.agents@.len() implies (#[trigger] self.agents@[x]).id
                        != (#[trigger] self.agents@[y]).id by {
                        let ox = if x < i { x } else { x + 1 };
                        let oy = if y < i { y } else { y + 1 };
                        assert(self.agents@[x] == old(self).agents@[ox]);
                        assert(self.agents@[y] == old(self).agents@[oy]);
                        assert(old(self).agents@[ox].id != old(self).agents@[oy].id);
                    }
                }
                Some(a)
            },
            None => None,
        }
    }

    /// The agent with identity `id`.
    pub fn get(&self, id: &AgentId) -> (r: Option<&Agent>)
        requires
            self.wf(),
        ensures
            r is None <==> !has_id(self.view(), *id),
            r matches Some(a) ==> *a == self.view()[index_of_id(self.view(), *id)] && a.id == *id,
    {
        match self.position_of(id) {
            Some(i) => Some(&self.agents[i]),
            None => None,
        }
    }

    /// Mutable access to the agent with identity `id`. The registry keeps its
    /// well-formedness as long as the identity is left as it was.
    pub fn get_mut(&mut self, id: &AgentId) -> (r: Option<&mut Agent>)
        requires
            old(self).wf(),
        ensures
            r is None <==> !has_id(old(self).view(), *id),
            r is None ==> final(self).view() == old(self).view() && final(self).wf(),
            r matches Some(a) ==> *a == old(self).view()[index_of_id(old(self).view(), *id)]
                && final(self).view() == old(self).view().update(index_of_id(old(self).view(), *id), *final(a))
                && (final(a).id == *id ==> final(self).wf()),
    {
        match self.position_of(id) {
            Some(i) => Some(&mut self.agents[i]),
            None => None,
        }
    }

    /// Replaces the agent with identity `agent.id`, which must be registered;
    /// returns whether it was.
    pub fn update(&mut self, agent: Agent) -> (found: bool)
        requires
            old(self).wf(),
        ensures
            final(self).wf(),
            found == has_id(old(self).view(), agent.id),
            found ==> final(self).view() == old(self).view().update(index_of_id(old(self).view(), agent.id), agent),
            !found ==> final(self).view() == old(self).view(),
    {
        match self.position_of(&agent.id) {
            Some(i) => {
                self.agents.set(i, agent);
                proof {
                    assert forall|a: int, b: int| 0 <= a < b < self.agents@.len() implies (#[trigger] self.agents@[a]).id
                        != (#[trigger] self.agents@[b]).id by {
                        assert(old(self).agents@[a].id != old(self).agents@[b].id);
                    }
                }
                true
            },
            None => false,
        }
    }

    /// Each agent is found again under its own identity.
    pub proof fn lemma_index_of_own_id(&self, i: int)
        requires
            self.wf(),
            0 <= i < self.view().len(),
        ensures
            has_id(self.view(), self.view()[i].id),
            index_of_id(self.view(), self.view()[i].id) == i,
    {
        let id = self.view()[i].id;
        assert(has_id(self.view(), id));
        let j = index_of_id(self.view(), id);
        if j != i {
            if j < i {
                assert(self.agents@[j].id != self.agents@[i].id);
            } else {
                assert(self.agents@[i].id != self.agents@[j].id);
            }
        }
    }

    /// The agent at position `i` in registration order.
    pub fn at(&self, i: usize) -> (a: &Agent)
        requires
            i < self.view().len(),
        ensures
            *a == self.view()[i as int],
    {
        &self.agents[i]
    }

    /// All agents, in registration order.
    pub fn agents(&self) -> (a: &[Agent])
        ensures
            a@ == self.view(),
    {
        self.agents.as_slice()
    }

    pub fn count(&self) -> (n: usize)
        ensures
            n == self.view().len(),
    {
        self.agents.len()
    }

    /// The identities of all agents, in registration order.
    pub fn ids(&self) -> (ids: Vec<AgentId>)
        ensures
            ids@.len() == self.view().len(),
            forall|i: int| 0 <= i < ids@.len() ==> #[trigger] ids@[i] == self.view()[i].id,
    {
        let mut ids: Vec<AgentId> = Vec::new();
        let mut i: usize = 0;
        while i < self.agents.len()
            invariant
                i <= self.agents@.len(),
                ids@.len() == i,
                forall|k: int| 0 <= k < i ==> #[trigger] ids@[k] == self.agents@[k].id,
            decreases self.agents@.len() - i,
        {
            ids.push(self.agents[i].id);
            i = i + 1;
        }
        ids
    }

    /// The first agent (in registration order) called `name`.
    pub fn find_by_name(&self, name: &str) -> (r: Option<&Agent>)
        ensures
            r is None <==> !(exists|i: int| 0 <= i < self.view().len() && (#[trigger] self.view()[i]).name@ == name@),
            r matches Some(a) ==> exists|i: int| 0 <= i < self.view().len() && *a == self.view()[i]
                && a.name@ == name@ && forall|k: int| 0 <= k < i ==> (#[trigger] self.view()[k]).name@ != name@,
    {
        let mut i: usize = 0;
        while i < self.agents.len()
            invariant
                i <= self.agents@.len(),
                forall|k: int| 0 <= k < i ==> (#[trigger] self.agents@[k]).name@ != name@,
            decreases self.agents@.len() - i,
        {
            if str_eq(self.agents[i].name.as_str(), name) {
                return Some(&self.agents[i]);
            }
            i = i + 1;
        }
        None
    }

    /// Index of the first agent (in registration order) whose full UUID text
    /// starts with `text`.
    pub fn index_by_id_text(&self, text: &str) -> (r: Option<usize>)
        ensures
            r is None <==> !(exists|i: int| 0 <= i < self.view().len() && id_text_matches(#[trigger] self.view()[i], text@)),
            r is None <==> first_id_match(self.view(), text@) == -1,
            r matches Some(i) ==> i < self.view().len() && id_text_matches(self.view()[i as int], text@)
                && forall|k: int| 0 <= k < i ==> !id_text_matches(#[trigger] self.view()[k], text@),
            r matches Some(i) ==> i as int == first_id_match(self.view(), text@),
    {
        let mut i: usize = 0;
        while i < self.agents.len()
            invariant
                i <= self.agents@.len(),
                forall|k: int| 0 <= k < i ==> !id_text_matches(#[trigger] self.agents@[k], text@),
            decreases self.agents@.len() - i,
        {
            let full = self.agents[i].id.full_string();
            if starts_with(full.as_str(), text) {
                assert(id_text_matches(self.view()[i as int], text@));
                proof {
                    lemma_first_id_match(self.view(), text@, i as int);
                }
                return Some(i);
            }
            i = i + 1;
        }
        None
    }

    /// The first agent (in registration order) whose full UUID text starts with
    /// `text`; a full identity text or its short form selects its agent.
    pub fn find_by_id_text(&self, text: &str) -> (r: Option<&Agent>)
        ensures
            r is None <==> !(exists|i: int| 0 <= i < self.view().len() && id_text_matches(#[trigger] self.view()[i], text@)),
            r matches Some(a) ==> exists|i: int| 0 <= i < self.view().len() && *a == self.view()[i]
                && id_text_matches(*a, text@)
                && forall|k: int| 0 <= k < i ==> !id_text_matches(#[trigger] self.view()[k], text@),
    {
        match self.index_by_id_text(text) {
            Some(i) => Some(&self.agents[i]),
            None => None,
        }
    }
}

} // verus!
