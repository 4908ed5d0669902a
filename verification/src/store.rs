//! The liveness store: the last heartbeat and the state of every registered
//! server, kept together so that a sweep pass decides on one coherent snapshot.

use crate::id::ServerId;
use crate::keys::keys_of;
use crate::registry::Registry;
use crate::sweeper::{change, decide, judged, Health, LivenessEntry, Transition};
use std::collections::HashMap;
use vstd::prelude::*;
use vstd::std_specs::hash::*;

verus! {

broadcast use vstd::std_specs::hash::group_hash_axioms;

/// The entry that a server starts with at time `now`: heard at `now`, and up.
pub open spec fn fresh(now: u64) -> LivenessEntry {
    LivenessEntry { last_seen: now, health: Health::Up }
}

/// The store that the servers in `ids` start with at time `now`.
pub open spec fn initial(ids: Set<ServerId>, now: u64) -> Map<ServerId, LivenessEntry> {
    Map::new(|id: ServerId| ids.contains(id), |id: ServerId| fresh(now))
}

/// The identifiers that are down in `m`.
pub open spec fn down_set(m: Map<ServerId, LivenessEntry>) -> Set<ServerId> {
    Set::new(|id: ServerId| m.contains_key(id) && m[id].health == Health::Down)
}

/// The store after a heartbeat of `id` at `now`: a known server's heartbeat time
/// is set to `now`, an unknown identifier changes nothing.
pub open spec fn touched(m: Map<ServerId, LivenessEntry>, id: ServerId, now: u64) -> Map<
    ServerId,
    LivenessEntry,
> {
    if m.contains_key(id) {
        m.insert(id, LivenessEntry { last_seen: now, health: m[id].health })
    } else {
        m
    }
}

/// The store after a sweep pass at `now`.
pub open spec fn swept(m: Map<ServerId, LivenessEntry>, now: u64) -> Map<ServerId, LivenessEntry> {
    Map::new(|id: ServerId| m.contains_key(id), |id: ServerId| judged(now, m[id]))
}

/// Whether a sweep pass over `m` at `now` has to report `t`.
pub open spec fn is_transition(m: Map<ServerId, LivenessEntry>, now: u64, t: Transition) -> bool {
    m.contains_key(t.id) && change(now, m[t.id]) == Some(t.to)
}

/// Whether `events` is a report of a sweep pass over `m` at `now`: it holds the
/// transitions of that pass and nothing else, and no server twice.
pub open spec fn sweep_report(
    m: Map<ServerId, LivenessEntry>,
    now: u64,
    events: Seq<Transition>,
) -> bool {
    &&& forall|i: int, j: int| 0 <= i < j < events.len() ==> events[i].id != events[j].id
    &&& forall|t: Transition| events.contains(t) <==> is_transition(m, now, t)
}

/// Last heartbeat and state of every registered server.
pub struct LivenessStore {
    entries: HashMap<ServerId, LivenessEntry>,
}

impl View for LivenessStore {
    type V = Map<ServerId, LivenessEntry>;

    closed spec fn view(&self) -> Map<ServerId, LivenessEntry> {
        self.entries@
    }
}

impl LivenessStore {
    /// A store for the servers of `registry`, started at `now`: every server is
    /// up and counts as heard at `now`.
    pub fn new(registry: &Registry, now: u64) -> (store: LivenessStore)
        ensures
            store@ == initial(registry@.dom(), now),
            down_set(store@) == Set::<ServerId>::empty(),
    {
        let ids = registry.ids();
        let mut entries: HashMap<ServerId, LivenessEntry> = HashMap::new();
        let mut i: usize = 0;
        while i < ids.len()
            invariant
                i <= ids.len(),
                forall|id: ServerId|
                    entries@.contains_key(id) <==> exists|j: int| 0 <= j < i && ids@[j] == id,
                forall|id: ServerId| #[trigger]
                    entries@.contains_key(id) ==> entries@[id] == fresh(now),
            decreases ids.len() - i,
        {
            entries.insert(ids[i], LivenessEntry { last_seen: now, health: Health::Up });
            i += 1;
        }
        let store = LivenessStore { entries };
        proof {
            assert forall|id: ServerId| registry@.dom().contains(id) implies store@.contains_key(
                id,
            ) by {
                assert(ids@.to_set().contains(id));
            }
            assert(store@ =~= initial(registry@.dom(), now));
            assert(down_set(store@) =~= Set::<ServerId>::empty());
        }
        store
    }

    /// The registered identifiers, each once, in no particular order.
    pub fn ids(&self) -> (ids: Vec<ServerId>)
        ensures
            ids@.no_duplicates(),
            ids@.to_set() == self@.dom(),
    {
        keys_of(&self.entries)
    }

    /// Number of registered servers.
    pub fn len(&self) -> (n: usize)
        ensures
            n == self@.len(),
    {
        self.entries.len()
    }

    /// The entry of `id`, if `id` is registered.
    pub fn get(&self, id: ServerId) -> (r: Option<LivenessEntry>)
        ensures
            r == (if self@.contains_key(id) {
                Some(self@[id])
            } else {
                None
            }),
    {
        match self.entries.get(&id) {
            Some(entry) => Some(*entry),
            None => None,
        }
    }

    /// Whether `id` is registered and down.
    pub fn is_down(&self, id: ServerId) -> (r: bool)
        ensures
            r == down_set(self@).contains(id),
    {
        match self.entries.get(&id) {
            Some(entry) => entry.health == Health::Down,
            None => false,
        }
    }

    /// The servers that are down, each once, in no particular order.
    pub fn down_ids(&self) -> (down: Vec<ServerId>)
        ensures
            down@.no_duplicates(),
            down@.to_set() == down_set(self@),
    {
        let ids = self.ids();
        let mut down: Vec<ServerId> = Vec::new();
        let mut i: usize = 0;
        while i < ids.len()
            invariant
                i <= ids.len(),
                ids@.no_duplicates(),
                ids@.to_set() == self@.dom(),
                down@.no_duplicates(),
                forall|a: int|
                    0 <= a < down@.len() ==> down_set(self@).contains(#[trigger] down@[a]),
                forall|a: int|
                    0 <= a < down@.len() ==> exists|j: int|
                        0 <= j < i && ids@[j] == #[trigger] down@[a],
                forall|j: int|
                    0 <= j < i && down_set(self@).contains(#[trigger] ids@[j]) ==> down@.contains(
                        ids@[j],
                    ),
            decreases ids.len() - i,
        {
            let id = ids[i];
            if self.is_down(id) {
                let ghost before = down@;
                down.push(id);
                proof {
                    assert forall|j: int|
                        0 <= j < i + 1 && down_set(self@).contains(
                            #[trigger] ids@[j],
                        ) implies down@.contains(ids@[j]) by {
                        if j < i {
                            let k = choose|k: int| 0 <= k < before.len() && before[k] == ids@[j];
                            assert(down@[k] == ids@[j]);
                        } else {
                            assert(down@[before.len() as int] == ids@[j]);
                        }
                    }
                }
            }
            i += 1;
        }
        proof {
            assert forall|id: ServerId| down@.to_set().contains(id) <==> down_set(
                self@,
            ).contains(id) by {
                if down_set(self@).contains(id) {
                    assert(ids@.to_set().contains(id));
                    assert(ids@.contains(id));
                }
            }
            assert(down@.to_set() =~= down_set(self@));
        }
        down
    }

    /// Records a heartbeat of `id` at `now`.  Returns whether `id` is
    /// registered; an unknown identifier leaves the store as it was, so no entry
    /// is ever created or removed here.
    pub fn touch(&mut self, id: ServerId, now: u64) -> (known: bool)
        ensures
            known == old(self)@.contains_key(id),
            final(self)@ == touched(old(self)@, id, now),
            final(self)@.dom() == old(self)@.dom(),
            down_set(final(self)@) == down_set(old(self)@),
    {
        let known = match self.entries.get(&id) {
            Some(entry) => {
                let health = entry.health;
                self.entries.insert(id, LivenessEntry { last_seen: now, health });
                true
            },
            None => false,
        };
        proof {
            assert(self@.dom() =~= old(self)@.dom());
            assert(down_set(self@) =~= down_set(old(self)@));
        }
        known
    }

    /// One sweep pass at `now`: every server's state becomes the verdict on its
    /// silence, and the servers whose state changed are reported, each once.
    /// Heartbeat times are not touched.
    pub fn sweep(&mut self, now: u64) -> (events: Vec<Transition>)
        ensures
            final(self)@ == swept(old(self)@, now),
            final(self)@.dom() == old(self)@.dom(),
            sweep_report(old(self)@, now, events@),
    {
        let ids = self.ids();
        let mut events: Vec<Transition> = Vec::new();
        let mut i: usize = 0;
        while i < ids.len()
            invariant
                i <= ids.len(),
                ids@.no_duplicates(),
                ids@.to_set() == old(self)@.dom(),
                self@.dom() == old(self)@.dom(),
                forall|j: int|
                    0 <= j < i ==> self@[#[trigger] ids@[j]] == judged(now, old(self)@[ids@[j]]),
                forall|j: int|
                    i <= j < ids@.len() ==> self@[#[trigger] ids@[j]] == old(self)@[ids@[j]],
                forall|a: int|
                    0 <= a < events@.len() ==> exists|j: int|
                        0 <= j < i && ids@[j] == (#[trigger] events@[a]).id,
                forall|a: int|
                    0 <= a < events@.len() ==> is_transition(
                        old(self)@,
                        now,
                        #[trigger] events@[a],
                    ),
                forall|a: int, b: int|
                    0 <= a < b < events@.len() ==> events@[a].id != events@[b].id,
                forall|j: int, t: Transition|
                    0 <= j < i && t.id == #[trigger] ids@[j] && #[trigger] is_transition(
                        old(self)@,
                        now,
                        t,
                    ) ==> events@.contains(t),
            decreases ids.len() - i,
        {
            let id = ids[i];
            assert(ids@.to_set().contains(ids@[i as int]));
            if let Some(entry) = self.get(id) {
                if let Some(health) = decide(now, entry) {
                    let ghost reported = events@;
                    self.entries.insert(id, LivenessEntry { last_seen: entry.last_seen, health });
                    events.push(Transition { id, to: health });
                    proof {
                        assert(self@.dom() =~= old(self)@.dom());
                        assert forall|j: int, t: Transition|
                            0 <= j < i + 1 && t.id == #[trigger] ids@[j]
                                && #[trigger] is_transition(old(self)@, now, t)
                            implies events@.contains(t) by {
                            if j < i {
                                let k = choose|k: int| 0 <= k < reported.len() && reported[k] == t;
                                assert(events@[k] == t);
                            } else {
                                assert(events@[reported.len() as int] == t);
                            }
                        }
                    }
                }
            }
            i += 1;
        }
        proof {
            assert forall|id: ServerId| old(self)@.contains_key(id) implies self@[id] == judged(
                now,
                old(self)@[id],
            ) by {
                assert(ids@.to_set().contains(id));
                let j = choose|j: int| 0 <= j < ids@.len() && ids@[j] == id;
                assert(self@[ids@[j]] == judged(now, old(self)@[ids@[j]]));
            }
            assert(self@ =~= swept(old(self)@, now));
            assert forall|t: Transition| is_transition(old(self)@, now, t) implies events@.contains(
                t,
            ) by {
                assert(ids@.to_set().contains(t.id));
                let j = choose|j: int| 0 <= j < ids@.len() && ids@[j] == t.id;
                assert(t.id == ids@[j]);
            }
        }
        events
    }
}

} // verus!
