//! Vector clocks: a mapping from replica identifiers to Lamport timestamps,
//! held in a canonical representation sorted by replica identifier. A missing
//! replica is implicitly at time zero. Merging takes the pointwise maximum;
//! comparison is the pointwise partial order.

use vstd::prelude::*;
use crate::primitives::ReplicaIdBytes;
use crate::ordering::{lex_lt, bytes_lt, bytes_eq, lemma_lex_lt_irreflexive, lemma_lex_trichotomy,
    lemma_lex_lt_asymmetric, lemma_lex_lt_transitive};

verus! {

/// A single vector-clock entry: a replica identifier and its timestamp.
pub type VcEntry = (ReplicaIdBytes, u64);

/// The mathematical value of an entry sequence: the map it denotes, later
/// entries overriding earlier ones with the same key.
pub open spec fn entries_map(s: Seq<VcEntry>) -> Map<ReplicaIdBytes, u64>
    decreases s.len(),
{
    if s.len() == 0 {
        Map::empty()
    } else {
        entries_map(s.drop_last()).insert(s.last().0, s.last().1)
    }
}

/// Entry keys strictly ascending in lexicographic byte order.
pub open spec fn strictly_sorted(s: Seq<VcEntry>) -> bool {
    forall|i: int, j: int| 0 <= i < j < s.len() ==> lex_lt(#[trigger] s[i].0@, #[trigger] s[j].0@)
}

/// The timestamp a vector-clock map assigns to a replica; zero when absent.
pub open spec fn vc_entry(m: Map<ReplicaIdBytes, u64>, r: ReplicaIdBytes) -> u64 {
    if m.contains_key(r) {
        m[r]
    } else {
        0
    }
}

/// The larger of two timestamps.
pub open spec fn max_u64(x: u64, y: u64) -> u64 {
    if x >= y {
        x
    } else {
        y
    }
}

/// The merge of two vector-clock maps: the union of their keys, each mapped
/// to the pointwise maximum.
pub open spec fn vc_merged(
    a: Map<ReplicaIdBytes, u64>,
    b: Map<ReplicaIdBytes, u64>,
) -> Map<ReplicaIdBytes, u64> {
    Map::new(
        |k: ReplicaIdBytes| a.contains_key(k) || b.contains_key(k),
        |k: ReplicaIdBytes| max_u64(vc_entry(a, k), vc_entry(b, k)),
    )
}

/// Pointwise order on vector-clock maps, missing entries read as zero.
pub open spec fn vc_leq(a: Map<ReplicaIdBytes, u64>, b: Map<ReplicaIdBytes, u64>) -> bool {
    forall|k: ReplicaIdBytes| #[trigger] vc_entry(a, k) <= vc_entry(b, k)
}

/// Outcome of comparing two vector clocks under the pointwise partial order.
#[derive(Debug, PartialEq, Eq, Clone, Copy, Structural)]
pub enum PartialOrder {
    LessThan,
    GreaterThan,
    Equal,
    Concurrent,
}

/// The comparison the partial order prescribes for two vector-clock maps.
pub open spec fn spec_compare(a: Map<ReplicaIdBytes, u64>, b: Map<ReplicaIdBytes, u64>) -> PartialOrder {
    if vc_leq(a, b) && vc_leq(b, a) {
        PartialOrder::Equal
    } else if vc_leq(a, b) {
        PartialOrder::LessThan
    } else if vc_leq(b, a) {
        PartialOrder::GreaterThan
    } else {
        PartialOrder::Concurrent
    }
}

/// The canonical entry sequence of a vector-clock map: the unique strictly
/// sorted sequence denoting it.
pub open spec fn canonical_entries(m: Map<ReplicaIdBytes, u64>) -> Seq<VcEntry> {
    choose|s: Seq<VcEntry>| strictly_sorted(s) && entries_map(s) == m
}

/// A vector clock, entries sorted strictly by replica identifier so that
/// equal maps have equal representations.
#[derive(Debug, Clone, PartialEq, Eq)]
pub struct VClock {
    entries: Vec<VcEntry>,
}

impl View for VClock {
    type V = Map<ReplicaIdBytes, u64>;

    closed spec fn view(&self) -> Map<ReplicaIdBytes, u64> {
        entries_map(self.entries@)
    }
}

// ---------------------------------------------------------------------------
// Facts about entry sequences and the maps they denote.
// ---------------------------------------------------------------------------

/// A key is in the denoted map exactly when some entry carries it.
pub proof fn lemma_entries_map_contains(s: Seq<VcEntry>, k: ReplicaIdBytes)
    ensures
        entries_map(s).contains_key(k) <==> exists|i: int| 0 <= i < s.len() && s[i].0 == k,
    decreases s.len(),
{
    if s.len() > 0 {
        lemma_entries_map_contains(s.drop_last(), k);
        if s.last().0 == k {
            assert(s[s.len() - 1].0 == k);
        } else if entries_map(s).contains_key(k) {
            let i = choose|i: int| 0 <= i < s.drop_last().len() && s.drop_last()[i].0 == k;
            assert(s[i].0 == k);
        } else if exists|i: int| 0 <= i < s.len() && s[i].0 == k {
            let i = choose|i: int| 0 <= i < s.len() && s[i].0 == k;
            assert(i < s.len() - 1);
            assert(s.drop_last()[i].0 == k);
        }
    }
}

/// Pairwise-distinct entry keys.
pub open spec fn distinct_keys(s: Seq<VcEntry>) -> bool {
    forall|i: int, j: int| 0 <= i < j < s.len() ==> (#[trigger] s[i].0) != (#[trigger] s[j].0)
}

/// Strictly sorted entries have pairwise-distinct keys.
pub proof fn lemma_strictly_sorted_distinct(s: Seq<VcEntry>)
    requires
        strictly_sorted(s),
    ensures
        distinct_keys(s),
{
    assert forall|i: int, j: int| 0 <= i < j < s.len() implies (#[trigger] s[i].0) != (#[trigger] s[j].0) by {
        assert(lex_lt(s[i].0@, s[j].0@));
        lemma_lex_lt_irreflexive(s[i].0@);
    }
}

/// With distinct keys, each entry's key maps to that entry's value.
pub proof fn lemma_entries_map_index(s: Seq<VcEntry>, i: int)
    requires
        distinct_keys(s),
        0 <= i < s.len(),
    ensures
        entries_map(s).contains_key(s[i].0),
        entries_map(s)[s[i].0] == s[i].1,
    decreases s.len(),
{
    if i == s.len() - 1 {
    } else {
        assert(s[i].0 != s[s.len() - 1].0);
        assert(s.drop_last()[i] == s[i]);
        lemma_entries_map_index(s.drop_last(), i);
    }
}

/// Inserting an entry with a fresh key inserts it into the denoted map.
pub proof fn lemma_entries_map_insert(s: Seq<VcEntry>, p: int, r: ReplicaIdBytes, v: u64)
    requires
        0 <= p <= s.len(),
        forall|i: int| 0 <= i < s.len() ==> (#[trigger] s[i].0) != r,
    ensures
        entries_map(s.insert(p, (r, v))) == entries_map(s).insert(r, v),
    decreases s.len(),
{
    let t = s.insert(p, (r, v));
    if p == s.len() {
        assert(t =~= s.push((r, v)));
        assert(t.drop_last() =~= s);
    } else {
        assert(t.last() == s.last());
        assert(t.drop_last() =~= s.drop_last().insert(p, (r, v)));
        assert forall|i: int| 0 <= i < s.drop_last().len() implies (#[trigger] s.drop_last()[i].0) != r by {
            assert(s.drop_last()[i] == s[i]);
        }
        lemma_entries_map_insert(s.drop_last(), p, r, v);
        assert(s.last().0 != r);
        assert(entries_map(t)
            == entries_map(s.drop_last()).insert(r, v).insert(s.last().0, s.last().1));
        assert(entries_map(s.drop_last()).insert(r, v).insert(s.last().0, s.last().1)
            =~= entries_map(s.drop_last()).insert(s.last().0, s.last().1).insert(r, v));
    }
}

/// Overwriting an entry's value updates the denoted map at that key.
pub proof fn lemma_entries_map_update(s: Seq<VcEntry>, p: int, v: u64)
    requires
        distinct_keys(s),
        0 <= p < s.len(),
    ensures
        entries_map(s.update(p, (s[p].0, v))) == entries_map(s).insert(s[p].0, v),
    decreases s.len(),
{
    let t = s.update(p, (s[p].0, v));
    if p == s.len() - 1 {
        assert(t.drop_last() =~= s.drop_last());
        assert(t.last() == (s[p].0, v));
        assert(entries_map(t) == entries_map(s.drop_last()).insert(s[p].0, v));
        assert(entries_map(s.drop_last()).insert(s[p].0, v)
            =~= entries_map(s.drop_last()).insert(s[p].0, s[p].1).insert(s[p].0, v));
    } else {
        assert(t.last() == s.last());
        assert(t.drop_last() =~= s.drop_last().update(p, (s[p].0, v)));
        assert forall|i: int, j: int| 0 <= i < j < s.drop_last().len()
            implies (#[trigger] s.drop_last()[i].0) != (#[trigger] s.drop_last()[j].0) by {
            assert(s.drop_last()[i] == s[i] && s.drop_last()[j] == s[j]);
        }
        assert(s.drop_last()[p] == s[p]);
        lemma_entries_map_update(s.drop_last(), p, v);
        assert(s[p].0 != s.last().0);
        assert(entries_map(t)
            == entries_map(s.drop_last()).insert(s[p].0, v).insert(s.last().0, s.last().1));
        assert(entries_map(s.drop_last()).insert(s[p].0, v).insert(s.last().0, s.last().1)
            =~= entries_map(s.drop_last()).insert(s.last().0, s.last().1).insert(s[p].0, v));
    }
}

/// With distinct keys the denoted map has exactly one key per entry.
pub proof fn lemma_entries_map_dom_len(s: Seq<VcEntry>)
    requires
        distinct_keys(s),
    ensures
        entries_map(s).dom().finite(),
        entries_map(s).dom().len() == s.len(),
    decreases s.len(),
{
    if s.len() > 0 {
        assert forall|i: int, j: int| 0 <= i < j < s.drop_last().len()
            implies (#[trigger] s.drop_last()[i].0) != (#[trigger] s.drop_last()[j].0) by {
            assert(s.drop_last()[i] == s[i] && s.drop_last()[j] == s[j]);
        }
        lemma_entries_map_dom_len(s.drop_last());
        lemma_entries_map_contains(s.drop_last(), s.last().0);
        assert forall|i: int| 0 <= i < s.drop_last().len()
            implies (#[trigger] s.drop_last()[i].0) != s.last().0 by {
            assert(s.drop_last()[i] == s[i]);
            assert(s[i].0 != s[s.len() - 1].0);
        }
        assert(!entries_map(s.drop_last()).contains_key(s.last().0));
        assert(entries_map(s).dom() =~= entries_map(s.drop_last()).dom().insert(s.last().0));
    }
}

/// Two strictly sorted entry sequences denoting the same map are identical:
/// the representation is canonical.
pub proof fn lemma_canonical_entries(s1: Seq<VcEntry>, s2: Seq<VcEntry>)
    requires
        strictly_sorted(s1),
        strictly_sorted(s2),
        entries_map(s1) == entries_map(s2),
    ensures
        s1 == s2,
    decreases s1.len(),
{
    lemma_strictly_sorted_distinct(s1);
    lemma_strictly_sorted_distinct(s2);
    if s1.len() == 0 {
        if s2.len() > 0 {
            lemma_entries_map_index(s2, s2.len() - 1);
            lemma_entries_map_contains(s1, s2.last().0);
        }
        assert(s1 =~= s2);
    } else if s2.len() == 0 {
        lemma_entries_map_index(s1, s1.len() - 1);
        lemma_entries_map_contains(s2, s1.last().0);
    } else {
        let k1 = s1.last().0;
        let k2 = s2.last().0;
        // The last key of each is the maximum; equal maps force k1 == k2.
        if k1 != k2 {
            lemma_entries_map_index(s1, s1.len() - 1);
            lemma_entries_map_contains(s2, k1);
            let i = choose|i: int| 0 <= i < s2.len() && s2[i].0 == k1;
            assert(i < s2.len() - 1);
            assert(lex_lt(k1@, k2@));
            lemma_entries_map_index(s2, s2.len() - 1);
            lemma_entries_map_contains(s1, k2);
            let j = choose|j: int| 0 <= j < s1.len() && s1[j].0 == k2;
            assert(j < s1.len() - 1);
            assert(lex_lt(k2@, k1@));
            lemma_lex_lt_asymmetric(k1@, k2@);
        }
        lemma_entries_map_index(s1, s1.len() - 1);
        lemma_entries_map_index(s2, s2.len() - 1);
        assert(s1.last().1 == s2.last().1);
        // Remove the last entry from both; the remaining maps agree.
        assert forall|i: int| 0 <= i < s1.drop_last().len()
            implies (#[trigger] s1.drop_last()[i].0) != k1 by {
            assert(s1.drop_last()[i] == s1[i]);
            assert(s1[i].0 != s1[s1.len() - 1].0);
        }
        assert forall|i: int| 0 <= i < s2.drop_last().len()
            implies (#[trigger] s2.drop_last()[i].0) != k2 by {
            assert(s2.drop_last()[i] == s2[i]);
            assert(s2[i].0 != s2[s2.len() - 1].0);
        }
        lemma_entries_map_contains(s1.drop_last(), k1);
        lemma_entries_map_contains(s2.drop_last(), k2);
        assert(entries_map(s1.drop_last()) =~= entries_map(s1).remove(k1));
        assert(entries_map(s2.drop_last()) =~= entries_map(s2).remove(k2));
        assert forall|i: int, j: int| 0 <= i < j < s1.drop_last().len()
            implies lex_lt(#[trigger] s1.drop_last()[i].0@, #[trigger] s1.drop_last()[j].0@) by {
            assert(s1.drop_last()[i] == s1[i] && s1.drop_last()[j] == s1[j]);
        }
        assert forall|i: int, j: int| 0 <= i < j < s2.drop_last().len()
            implies lex_lt(#[trigger] s2.drop_last()[i].0@, #[trigger] s2.drop_last()[j].0@) by {
            assert(s2.drop_last()[i] == s2[i] && s2.drop_last()[j] == s2[j]);
        }
        lemma_canonical_entries(s1.drop_last(), s2.drop_last());
        assert(s1.drop_last().len() == s2.drop_last().len());
        assert(s1.len() == s2.len());
        assert forall|k: int| 0 <= k < s1.len() implies s1[k] == s2[k] by {
            if k < s1.len() - 1 {
                assert(s1.drop_last()[k] == s2.drop_last()[k]);
                assert(s1[k] == s1.drop_last()[k]);
                assert(s2[k] == s2.drop_last()[k]);
            } else {
                assert(s1[k] == s1.last() && s2[k] == s2.last());
                assert(s1.last().0 == s2.last().0 && s1.last().1 == s2.last().1);
            }
        }
        assert(s1 =~= s2);
    }
}

// ---------------------------------------------------------------------------
// The VClock type.
// ---------------------------------------------------------------------------

impl VClock {
    /// Well-formed: entries strictly sorted by replica identifier.
    pub closed spec fn wf(&self) -> bool {
        strictly_sorted(self.entries@)
    }

    /// The canonical entry sequence, ascending by replica identifier.
    pub closed spec fn spec_entries(&self) -> Seq<VcEntry> {
        self.entries@
    }

    /// The entry sequence denotes the view, is strictly sorted when the
    /// clock is well formed, and never repeats a key.
    pub proof fn lemma_entries(&self)
        requires
            self.wf(),
        ensures
            strictly_sorted(self.spec_entries()),
            entries_map(self.spec_entries()) == self@,
            distinct_keys(self.spec_entries()),
    {
        lemma_strictly_sorted_distinct(self.entries@);
    }

    /// A well-formed clock's entry sequence is the canonical one of its
    /// map.
    pub proof fn lemma_spec_entries_canonical(&self)
        requires
            self.wf(),
        ensures
            self.spec_entries() == canonical_entries(self@),
    {
        let s = self.spec_entries();
        assert(strictly_sorted(s) && entries_map(s) == self@);
        let c = canonical_entries(self@);
        assert(strictly_sorted(c) && entries_map(c) == self@) by {
            assert(exists|t: Seq<VcEntry>| strictly_sorted(t) && entries_map(t) == self@);
        }
        lemma_canonical_entries(s, c);
    }

    /// Well-formed clocks with equal views have equal entry sequences.
    pub proof fn lemma_canonical(v1: &VClock, v2: &VClock)
        requires
            v1.wf(),
            v2.wf(),
            v1@ == v2@,
        ensures
            v1.spec_entries() == v2.spec_entries(),
    {
        lemma_canonical_entries(v1.entries@, v2.entries@);
    }

    /// An empty vector clock.
    pub fn new() -> (r: VClock)
        ensures
            r@ == Map::<ReplicaIdBytes, u64>::empty(),
            r.wf(),
    {
        VClock { entries: Vec::new() }
    }

    /// Read-only access to the canonical entry list.
    pub fn entries_vec(&self) -> (r: &Vec<VcEntry>)
        ensures
            r@ == self.spec_entries(),
    {
        &self.entries
    }

    /// Number of replicas with an explicit entry.
    pub fn len(&self) -> (r: usize)
        requires
            self.wf(),
        ensures
            r == self@.dom().len(),
    {
        proof {
            lemma_strictly_sorted_distinct(self.entries@);
            lemma_entries_map_dom_len(self.entries@);
        }
        self.entries.len()
    }

    /// Whether the replica has an explicit entry.
    pub fn contains_key(&self, r: &ReplicaIdBytes) -> (res: bool)
        ensures
            res == self@.contains_key(*r),
    {
        let n = self.entries.len();
        let mut i: usize = 0;
        while i < n
            invariant
                0 <= i <= n,
                n == self.entries@.len(),
                forall|k: int| 0 <= k < i ==> (#[trigger] self.entries@[k].0) != *r,
            decreases n - i,
        {
            if bytes_eq(self.entries[i].0.0.as_slice(), r.0.as_slice()) {
                proof {
                    assert(self.entries@[i as int].0.0@ == r.0@);
                    assert(self.entries@[i as int].0.0 =~= r.0);
                    lemma_entries_map_contains(self.entries@, *r);
                }
                return true;
            }
            proof {
                assert(self.entries@[i as int].0.0@ != r.0@);
            }
            i = i + 1;
        }
        proof {
            lemma_entries_map_contains(self.entries@, *r);
        }
        false
    }

    /// The explicit timestamp for a replica, if it has one.
    pub fn get(&self, r: &ReplicaIdBytes) -> (res: Option<u64>)
        requires
            self.wf(),
        ensures
            match res {
                Some(v) => self@.contains_key(*r) && self@[*r] == v,
                None => !self@.contains_key(*r),
            },
    {
        let n = self.entries.len();
        let mut i: usize = 0;
        while i < n
            invariant
                0 <= i <= n,
                self.wf(),
                n == self.entries@.len(),
                forall|k: int| 0 <= k < i ==> (#[trigger] self.entries@[k].0) != *r,
            decreases n - i,
        {
            if bytes_eq(self.entries[i].0.0.as_slice(), r.0.as_slice()) {
                proof {
                    assert(self.entries@[i as int].0.0 =~= r.0);
                    lemma_strictly_sorted_distinct(self.entries@);
                    lemma_entries_map_index(self.entries@, i as int);
                }
                return Some(self.entries[i].1);
            }
            proof {
                assert(self.entries@[i as int].0.0@ != r.0@);
            }
            i = i + 1;
        }
        proof {
            lemma_entries_map_contains(self.entries@, *r);
        }
        None
    }

    /// The timestamp for a replica, reading a missing entry as zero.
    pub fn get_or_zero(&self, r: &ReplicaIdBytes) -> (res: u64)
        requires
            self.wf(),
        ensures
            res == vc_entry(self@, *r),
    {
        match self.get(r) {
            Some(v) => v,
            None => 0,
        }
    }

    /// Sets the replica's timestamp, inserting or overwriting its entry.
    pub fn insert(&mut self, r: ReplicaIdBytes, v: u64)
        requires
            old(self).wf(),
        ensures
            final(self).wf(),
            final(self)@ == old(self)@.insert(r, v),
    {
        let n = self.entries.len();
        let mut p: usize = 0;
        while p < n && bytes_lt(self.entries[p].0.0.as_slice(), r.0.as_slice())
            invariant
                0 <= p <= n,
                *self == *old(self),
                n == self.entries@.len(),
                forall|k: int| 0 <= k < p ==> lex_lt(#[trigger] self.entries@[k].0@, r@),
            decreases n - p,
        {
            p = p + 1;
        }
        let ghost s = self.entries@;
        proof {
            lemma_strictly_sorted_distinct(s);
        }
        if p < n && bytes_eq(self.entries[p].0.0.as_slice(), r.0.as_slice()) {
            proof {
                assert(s[p as int].0.0 =~= r.0);
                lemma_entries_map_update(s, p as int, v);
            }
            self.entries[p] = (r, v);
            proof {
                assert(self.entries@ =~= s.update(p as int, (s[p as int].0, v)));
            }
        } else {
            proof {
                // r is not among the keys: entries before p are strictly
                // below it, entries from p on are strictly above it.
                if p < s.len() {
                    lemma_lex_trichotomy(s[p as int].0@, r@);
                }
                assert forall|i: int| 0 <= i < s.len() implies (#[trigger] s[i].0) != r by {
                    if i < p {
                        lemma_lex_lt_irreflexive(s[i].0@);
                    } else if i == p {
                        lemma_lex_lt_irreflexive(s[i].0@);
                    } else {
                        assert(lex_lt(s[p as int].0@, s[i].0@));
                        lemma_lex_lt_transitive(r@, s[p as int].0@, s[i].0@);
                        lemma_lex_lt_irreflexive(s[i].0@);
                    }
                }
                lemma_entries_map_insert(s, p as int, r, v);
            }
            self.entries.insert(p, (r, v));
            proof {
                let t = self.entries@;
                assert(t == s.insert(p as int, (r, v)));
                assert forall|i: int, j: int| 0 <= i < j < t.len()
                    implies lex_lt(#[trigger] t[i].0@, #[trigger] t[j].0@) by {
                    if j < p {
                        assert(t[i] == s[i] && t[j] == s[j]);
                    } else if i > p {
                        assert(t[i] == s[i - 1] && t[j] == s[j - 1]);
                    } else if j == p {
                        assert(t[i] == s[i] && t[j] == (r, v));
                    } else if i == p {
                        assert(t[i] == (r, v) && t[j] == s[j - 1]);
                        if j - 1 > p {
                            assert(lex_lt(s[p as int].0@, s[j - 1].0@));
                            lemma_lex_lt_transitive(r@, s[p as int].0@, s[j - 1].0@);
                        }
                    } else {
                        assert(i < p && j > p);
                        assert(t[i] == s[i] && t[j] == s[j - 1]);
                        if j - 1 == p {
                            lemma_lex_lt_transitive(s[i].0@, r@, s[p as int].0@);
                        } else {
                            assert(lex_lt(s[i].0@, s[p as int].0@) || i == p);
                            assert(lex_lt(s[p as int].0@, s[j - 1].0@));
                            lemma_lex_lt_transitive(s[i].0@, r@, s[p as int].0@);
                            lemma_lex_lt_transitive(s[i].0@, s[p as int].0@, s[j - 1].0@);
                        }
                    }
                }
            }
        }
    }

    /// Raises the replica's timestamp to at least `v`, treating a missing
    /// entry as zero.
    fn raise_entry(&mut self, r: ReplicaIdBytes, v: u64)
        requires
            old(self).wf(),
        ensures
            final(self).wf(),
            final(self)@ == old(self)@.insert(r, max_u64(vc_entry(old(self)@, r), v)),
    {
        let cur = self.get_or_zero(&r);
        if v >= cur {
            self.insert(r, v);
        } else {
            self.insert(r, cur);
            proof {
                if old(self)@.contains_key(r) {
                    assert(old(self)@.insert(r, cur) =~= old(self)@.insert(
                        r,
                        max_u64(vc_entry(old(self)@, r), v),
                    ));
                }
            }
        }
    }

    /// Merges another vector clock into this one: for every replica in
    /// `other`, this clock's entry becomes the maximum of the two (a missing
    /// local entry reads as zero); replicas only known locally are retained.
    pub fn merge_into(&mut self, other: &VClock)
        requires
            old(self).wf(),
            other.wf(),
        ensures
            final(self).wf(),
            final(self)@ == vc_merged(old(self)@, other@),
    {
        let n = other.entries.len();
        proof {
            other.lemma_entries();
            assert(entries_map(other.entries@.take(0)) =~= Map::<ReplicaIdBytes, u64>::empty());
            assert(self@ =~= vc_merged(old(self)@, entries_map(other.entries@.take(0))));
        }
        let mut i: usize = 0;
        while i < n
            invariant
                0 <= i <= n,
                n == other.entries@.len(),
                strictly_sorted(other.entries@),
                self.wf(),
                self@ == vc_merged(old(self)@, entries_map(other.entries@.take(i as int))),
            decreases n - i,
        {
            let (r, v) = other.entries[i];
            let ghost prev = self@;
            let ghost bm = entries_map(other.entries@.take(i as int));
            self.raise_entry(r, v);
            proof {
                let s = other.entries@;
                lemma_strictly_sorted_distinct(s);
                assert(s.take(i + 1).drop_last() =~= s.take(i as int));
                assert(s.take(i + 1).last() == s[i as int]);
                let bm2 = entries_map(s.take(i + 1));
                assert(bm2 == bm.insert(r, v));
                // r does not occur among the first i entries.
                assert forall|k: int| 0 <= k < s.take(i as int).len()
                    implies (#[trigger] s.take(i as int)[k].0) != r by {
                    assert(s.take(i as int)[k] == s[k]);
                    assert(s[k].0 != s[i as int].0);
                }
                lemma_entries_map_contains(s.take(i as int), r);
                assert(!bm.contains_key(r));
                assert(vc_entry(bm, r) == 0);
                assert(vc_entry(prev, r) == max_u64(vc_entry(old(self)@, r), 0));
                assert(self@ =~= vc_merged(old(self)@, bm2));
            }
            i = i + 1;
        }
        proof {
            assert(other.entries@.take(n as int) =~= other.entries@);
        }
    }

    /// An exact copy of this clock.
    pub fn duplicate(&self) -> (r: VClock)
        ensures
            r@ == self@,
            r.spec_entries() == self.spec_entries(),
            r.wf() == self.wf(),
    {
        let n = self.entries.len();
        let mut out: Vec<VcEntry> = Vec::new();
        let mut i: usize = 0;
        while i < n
            invariant
                0 <= i <= n,
                n == self.entries@.len(),
                out@ == self.entries@.take(i as int),
            decreases n - i,
        {
            out.push(self.entries[i]);
            proof {
                assert(out@ =~= self.entries@.take(i + 1));
            }
            i = i + 1;
        }
        proof {
            assert(out@ =~= self.entries@);
        }
        VClock { entries: out }
    }
}

impl Default for VClock {
    /// The empty vector clock.
    fn default() -> (r: VClock)
        ensures
            r@ == Map::<ReplicaIdBytes, u64>::empty(),
            r.wf(),
    {
        VClock::new()
    }
}

// ---------------------------------------------------------------------------
// Free functions of the clock algebra.
// ---------------------------------------------------------------------------

/// Merges `incoming` into `local` under vector-clock merge rules: each
/// incoming entry raises the local entry to the pointwise maximum, and local
/// entries without an incoming counterpart are retained.
pub fn merge_into(local: &mut VClock, incoming: &VClock)
    requires
        old(local).wf(),
        incoming.wf(),
    ensures
        final(local).wf(),
        final(local)@ == vc_merged(old(local)@, incoming@),
{
    local.merge_into(incoming);
}

/// Compares two vector clocks under the pointwise partial order, missing
/// entries reading as zero: equal, less, greater, or concurrent.
pub fn compare(a: &VClock, b: &VClock) -> (r: PartialOrder)
    requires
        a.wf(),
        b.wf(),
    ensures
        r == spec_compare(a@, b@),
{
    let a_le_b = vc_leq_exec(a, b);
    let b_le_a = vc_leq_exec(b, a);
    if a_le_b && b_le_a {
        PartialOrder::Equal
    } else if a_le_b {
        PartialOrder::LessThan
    } else if b_le_a {
        PartialOrder::GreaterThan
    } else {
        PartialOrder::Concurrent
    }
}

/// Decides the pointwise order `a` at or below `b`.
fn vc_leq_exec(a: &VClock, b: &VClock) -> (r: bool)
    requires
        a.wf(),
        b.wf(),
    ensures
        r == vc_leq(a@, b@),
{
    let entries = a.entries_vec();
    let n = entries.len();
    let mut i: usize = 0;
    proof {
        a.lemma_entries();
    }
    while i < n
        invariant
            0 <= i <= n,
            a.wf(),
            b.wf(),
            n == a.spec_entries().len(),
            entries@ == a.spec_entries(),
            forall|k: int| 0 <= k < i
                ==> (#[trigger] a.spec_entries()[k]).1 <= vc_entry(b@, a.spec_entries()[k].0),
        decreases n - i,
    {
        let (r, v) = entries[i];
        let bv = b.get_or_zero(&r);
        if v > bv {
            proof {
                a.lemma_entries();
                lemma_entries_map_index(a.spec_entries(), i as int);
                assert(vc_entry(a@, r) == v);
            }
            return false;
        }
        i = i + 1;
    }
    proof {
        a.lemma_entries();
        assert forall|k: ReplicaIdBytes| #[trigger] vc_entry(a@, k) <= vc_entry(b@, k) by {
            if a@.contains_key(k) {
                lemma_entries_map_contains(a.spec_entries(), k);
                let j = choose|j: int| 0 <= j < a.spec_entries().len() && a.spec_entries()[j].0 == k;
                lemma_entries_map_index(a.spec_entries(), j);
            }
        }
    }
    true
}

// ---------------------------------------------------------------------------
// Laws of the merge.
// ---------------------------------------------------------------------------

/// Merging is commutative: the merged clock does not depend on the order of
/// its two arguments.
pub proof fn lemma_vc_merge_commutative(a: Map<ReplicaIdBytes, u64>, b: Map<ReplicaIdBytes, u64>)
    ensures
        vc_merged(a, b) == vc_merged(b, a),
{
    assert(vc_merged(a, b) =~= vc_merged(b, a));
}

/// Merging is idempotent: merging a clock with itself changes nothing.
pub proof fn lemma_vc_merge_idempotent(a: Map<ReplicaIdBytes, u64>)
    ensures
        vc_merged(a, a) == a,
{
    assert(vc_merged(a, a) =~= a);
}

/// Merging is monotone: no entry of either argument ever decreases in the
/// merged clock.
pub proof fn lemma_vc_merge_monotone(a: Map<ReplicaIdBytes, u64>, b: Map<ReplicaIdBytes, u64>)
    ensures
        forall|k: ReplicaIdBytes| vc_entry(a, k) <= #[trigger] vc_entry(vc_merged(a, b), k),
        forall|k: ReplicaIdBytes| vc_entry(b, k) <= #[trigger] vc_entry(vc_merged(a, b), k),
{
}

} // verus!
