//! The authoritative state: capability and entity maps keyed by content
//! identifier, and the append-only event log.

use vstd::prelude::*;
use crate::primitives::{CidBytes, Capability, Entity, Event};
use crate::ordering::bytes_eq;

verus! {

/// The mathematical value of an association list: the map it denotes,
/// later entries overriding earlier ones with the same key.
pub open spec fn cid_entries_map<V: View>(s: Seq<(CidBytes, V)>) -> Map<CidBytes, V::V>
    decreases s.len(),
{
    if s.len() == 0 {
        Map::empty()
    } else {
        cid_entries_map(s.drop_last()).insert(s.last().0, s.last().1@)
    }
}

/// Pairwise-distinct keys.
pub open spec fn cid_distinct_keys<V>(s: Seq<(CidBytes, V)>) -> bool {
    forall|i: int, j: int| 0 <= i < j < s.len() ==> (#[trigger] s[i].0) != (#[trigger] s[j].0)
}

/// A key is in the denoted map exactly when some entry carries it.
proof fn lemma_cid_entries_contains<V: View>(s: Seq<(CidBytes, V)>, k: CidBytes)
    ensures
        cid_entries_map(s).contains_key(k) <==> exists|i: int| 0 <= i < s.len() && s[i].0 == k,
    decreases s.len(),
{
    if s.len() > 0 {
        lemma_cid_entries_contains(s.drop_last(), k);
        if s.last().0 == k {
            assert(s[s.len() - 1].0 == k);
        } else if cid_entries_map(s).contains_key(k) {
            let i = choose|i: int| 0 <= i < s.drop_last().len() && s.drop_last()[i].0 == k;
            assert(s[i].0 == k);
        } else if exists|i: int| 0 <= i < s.len() && s[i].0 == k {
            let i = choose|i: int| 0 <= i < s.len() && s[i].0 == k;
            assert(i < s.len() - 1);
            assert(s.drop_last()[i].0 == k);
        }
    }
}

/// With distinct keys, each entry's key maps to that entry's value.
proof fn lemma_cid_entries_index<V: View>(s: Seq<(CidBytes, V)>, i: int)
    requires
        cid_distinct_keys(s),
        0 <= i < s.len(),
    ensures
        cid_entries_map(s).contains_key(s[i].0),
        cid_entries_map(s)[s[i].0] == s[i].1@,
    decreases s.len(),
{
    if i == s.len() - 1 {
    } else {
        assert(s[i].0 != s[s.len() - 1].0);
        assert(s.drop_last()[i] == s[i]);
        assert forall|x: int, y: int| 0 <= x < y < s.drop_last().len()
            implies (#[trigger] s.drop_last()[x].0) != (#[trigger] s.drop_last()[y].0) by {
            assert(s.drop_last()[x] == s[x] && s.drop_last()[y] == s[y]);
        }
        lemma_cid_entries_index(s.drop_last(), i);
    }
}

/// Overwriting an entry's value updates the denoted map at that key.
proof fn lemma_cid_entries_update<V: View>(s: Seq<(CidBytes, V)>, p: int, v: V)
    requires
        cid_distinct_keys(s),
        0 <= p < s.len(),
    ensures
        cid_entries_map(s.update(p, (s[p].0, v))) == cid_entries_map(s).insert(s[p].0, v@),
    decreases s.len(),
{
    let t = s.update(p, (s[p].0, v));
    if p == s.len() - 1 {
        assert(t.drop_last() =~= s.drop_last());
        assert(t.last() == (s[p].0, v));
        assert(cid_entries_map(t) == cid_entries_map(s.drop_last()).insert(s[p].0, v@));
        assert(cid_entries_map(s.drop_last()).insert(s[p].0, v@)
            =~= cid_entries_map(s.drop_last()).insert(s[p].0, s[p].1@).insert(s[p].0, v@));
    } else {
        assert(t.last() == s.last());
        assert(t.drop_last() =~= s.drop_last().update(p, (s[p].0, v)));
        assert forall|x: int, y: int| 0 <= x < y < s.drop_last().len()
            implies (#[trigger] s.drop_last()[x].0) != (#[trigger] s.drop_last()[y].0) by {
            assert(s.drop_last()[x] == s[x] && s.drop_last()[y] == s[y]);
        }
        assert(s.drop_last()[p] == s[p]);
        lemma_cid_entries_update(s.drop_last(), p, v);
        assert(s[p].0 != s.last().0);
        assert(cid_entries_map(t)
            == cid_entries_map(s.drop_last()).insert(s[p].0, v@).insert(s.last().0, s.last().1@));
        assert(cid_entries_map(s.drop_last()).insert(s[p].0, v@).insert(s.last().0, s.last().1@)
            =~= cid_entries_map(s.drop_last()).insert(s.last().0, s.last().1@).insert(s[p].0, v@));
    }
}

/// With distinct keys the denoted map has exactly one key per entry.
proof fn lemma_cid_entries_dom_len<V: View>(s: Seq<(CidBytes, V)>)
    requires
        cid_distinct_keys(s),
    ensures
        cid_entries_map(s).dom().finite(),
        cid_entries_map(s).dom().len() == s.len(),
    decreases s.len(),
{
    if s.len() > 0 {
        assert forall|x: int, y: int| 0 <= x < y < s.drop_last().len()
            implies (#[trigger] s.drop_last()[x].0) != (#[trigger] s.drop_last()[y].0) by {
            assert(s.drop_last()[x] == s[x] && s.drop_last()[y] == s[y]);
        }
        lemma_cid_entries_dom_len(s.drop_last());
        lemma_cid_entries_contains(s.drop_last(), s.last().0);
        assert forall|i: int| 0 <= i < s.drop_last().len()
            implies (#[trigger] s.drop_last()[i].0) != s.last().0 by {
            assert(s.drop_last()[i] == s[i]);
            assert(s[i].0 != s[s.len() - 1].0);
        }
        assert(!cid_entries_map(s.drop_last()).contains_key(s.last().0));
        assert(cid_entries_map(s).dom() =~= cid_entries_map(s.drop_last()).dom().insert(
            s.last().0,
        ));
    }
}

/// A map keyed by content identifier, held as an association list with
/// distinct keys.
#[derive(Debug, Clone, PartialEq, Eq)]
pub struct CidMap<V> {
    entries: Vec<(CidBytes, V)>,
}

impl<V: View> View for CidMap<V> {
    type V = Map<CidBytes, V::V>;

    closed spec fn view(&self) -> Map<CidBytes, V::V> {
        cid_entries_map(self.entries@)
    }
}

impl<V: View> CidMap<V> {
    /// Well-formed: no key occurs twice.
    pub closed spec fn wf(&self) -> bool {
        cid_distinct_keys(self.entries@)
    }

    /// An empty map.
    pub fn new() -> (r: CidMap<V>)
        ensures
            r@ == Map::<CidBytes, V::V>::empty(),
            r.wf(),
    {
        CidMap { entries: Vec::new() }
    }

    /// Number of keys.
    pub fn len(&self) -> (r: usize)
        requires
            self.wf(),
        ensures
            r == self@.dom().len(),
    {
        proof {
            lemma_cid_entries_dom_len(self.entries@);
        }
        self.entries.len()
    }

    /// Whether the map has no keys.
    pub fn is_empty(&self) -> (r: bool)
        requires
            self.wf(),
        ensures
            r == (self@.dom().len() == 0),
    {
        proof {
            lemma_cid_entries_dom_len(self.entries@);
        }
        self.entries.is_empty()
    }

    /// Whether the key is present.
    pub fn contains_key(&self, k: &CidBytes) -> (r: bool)
        ensures
            r == self@.contains_key(*k),
    {
        let n = self.entries.len();
        let mut i: usize = 0;
        while i < n
            invariant
                0 <= i <= n,
                n == self.entries@.len(),
                forall|j: int| 0 <= j < i ==> (#[trigger] self.entries@[j].0) != *k,
            decreases n - i,
        {
            if bytes_eq(self.entries[i].0.0.as_slice(), k.0.as_slice()) {
                proof {
                    assert(self.entries@[i as int].0.0 =~= k.0);
                    lemma_cid_entries_contains(self.entries@, *k);
                }
                return true;
            }
            proof {
                assert(self.entries@[i as int].0.0@ != k.0@);
            }
            i = i + 1;
        }
        proof {
            lemma_cid_entries_contains(self.entries@, *k);
        }
        false
    }

    /// The value stored under the key, if any.
    pub fn get(&self, k: &CidBytes) -> (r: Option<&V>)
        requires
            self.wf(),
        ensures
            match r {
                Some(v) => self@.contains_key(*k) && v@ == self@[*k],
                None => !self@.contains_key(*k),
            },
    {
        let n = self.entries.len();
        let mut i: usize = 0;
        while i < n
            invariant
                0 <= i <= n,
                self.wf(),
                n == self.entries@.len(),
                forall|j: int| 0 <= j < i ==> (#[trigger] self.entries@[j].0) != *k,
            decreases n - i,
        {
            if bytes_eq(self.entries[i].0.0.as_slice(), k.0.as_slice()) {
                proof {
                    assert(self.entries@[i as int].0.0 =~= k.0);
                    lemma_cid_entries_index(self.entries@, i as int);
                }
                return Some(&self.entries[i].1);
            }
            proof {
                assert(self.entries@[i as int].0.0@ != k.0@);
            }
            i = i + 1;
        }
        proof {
            lemma_cid_entries_contains(self.entries@, *k);
        }
        None
    }

    /// Stores the value under the key, replacing any prior value.
    pub fn insert(&mut self, k: CidBytes, v: V)
        requires
            old(self).wf(),
        ensures
            final(self).wf(),
            final(self)@ == old(self)@.insert(k, v@),
    {
        let n = self.entries.len();
        let mut i: usize = 0;
        let mut found: bool = false;
        while i < n && !found
            invariant
                0 <= i <= n,
                n == self.entries@.len(),
                found ==> i < n && self.entries@[i as int].0 == k,
                !found ==> forall|j: int| 0 <= j < i ==> (#[trigger] self.entries@[j].0) != k,
            decreases n - i, if found { 0int } else { 1int },
        {
            if bytes_eq(self.entries[i].0.0.as_slice(), k.0.as_slice()) {
                proof {
                    assert(self.entries@[i as int].0.0 =~= k.0);
                }
                found = true;
            } else {
                proof {
                    assert(self.entries@[i as int].0.0@ != k.0@);
                }
                i = i + 1;
            }
        }
        let ghost s = self.entries@;
        if found {
            proof {
                lemma_cid_entries_update(s, i as int, v);
            }
            self.entries[i] = (k, v);
            proof {
                assert(self.entries@ =~= s.update(i as int, (s[i as int].0, v)));
                assert forall|x: int, y: int| 0 <= x < y < self.entries@.len()
                    implies (#[trigger] self.entries@[x].0) != (#[trigger] self.entries@[y].0) by {
                    assert(self.entries@[x].0 == s[x].0 && self.entries@[y].0 == s[y].0);
                }
            }
        } else {
            self.entries.push((k, v));
            proof {
                assert(self.entries@.drop_last() =~= s);
                assert(self.entries@.last() == (k, v));
                assert forall|x: int, y: int| 0 <= x < y < self.entries@.len()
                    implies (#[trigger] self.entries@[x].0) != (#[trigger] self.entries@[y].0) by {
                    if y < s.len() {
                        assert(self.entries@[x].0 == s[x].0 && self.entries@[y].0 == s[y].0);
                    } else {
                        assert(self.entries@[x].0 == s[x].0);
                        assert(self.entries@[y].0 == k);
                        lemma_cid_entries_contains(s, k);
                    }
                }
            }
        }
    }
}

impl<V: View> Default for CidMap<V> {
    /// The empty map.
    fn default() -> (r: CidMap<V>)
        ensures
            r@ == Map::<CidBytes, V::V>::empty(),
            r.wf(),
    {
        CidMap::new()
    }
}

/// The changes a command produces: entities to create and entities to
/// update, produced by the runtime without side effects.
#[derive(Debug, Clone, PartialEq, Eq)]
pub struct StateDelta {
    /// Entities created by the command, bodies in serialised form.
    pub new_entities: Vec<Entity<Vec<u8>>>,
    /// Entities updated by the command, bodies in serialised form.
    pub updated_entities: Vec<Entity<Vec<u8>>>,
}

/// The authoritative state of a replica: the capability map, the entity
/// map, and the append-only event log.
#[derive(Debug, Clone)]
pub struct SystemState {
    /// Capabilities, keyed by content identifier.
    pub capabilities: CidMap<Capability>,
    /// Entities, keyed by content identifier, bodies serialised.
    pub entities: CidMap<Entity<Vec<u8>>>,
    /// The append-only event log.
    pub event_log: Vec<Event>,
}

impl SystemState {
    /// Well-formed: both maps keep their keys unique.
    pub open spec fn wf(&self) -> bool {
        self.capabilities.wf() && self.entities.wf()
    }

    /// An empty state: no capabilities, no entities, an empty log.
    pub fn new() -> (r: SystemState)
        ensures
            r.wf(),
            r.capabilities@ == Map::<CidBytes, Capability>::empty(),
            r.entities@ == Map::<CidBytes, crate::primitives::EntityModel>::empty(),
            r.event_log@ == Seq::<Event>::empty(),
    {
        let r = SystemState {
            capabilities: CidMap::new(),
            entities: CidMap::new(),
            event_log: Vec::new(),
        };
        proof {
            assert(r.event_log@ =~= Seq::<Event>::empty());
        }
        r
    }
}

impl Default for SystemState {
    /// An empty state.
    fn default() -> (r: SystemState)
        ensures
            r.wf(),
            r.capabilities@ == Map::<CidBytes, Capability>::empty(),
            r.entities@ == Map::<CidBytes, crate::primitives::EntityModel>::empty(),
            r.event_log@ == Seq::<Event>::empty(),
    {
        SystemState::new()
    }
}

} // verus!
