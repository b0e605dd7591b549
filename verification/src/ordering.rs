//! Lexicographic byte ordering: the deterministic sort key for content
//! identifiers and replica identifiers in the event-hashing layout.

use vstd::prelude::*;
use vstd::relations::{sorted_by, total_ordering};
use vstd::seq_lib::lemma_sorted_unique;
use crate::primitives::CidBytes;

verus! {

/// Strict lexicographic order on byte sequences: `a` comes before `b` when,
/// at the first differing position, `a` has the smaller byte, or when `a` is
/// a proper prefix of `b`.
pub open spec fn lex_lt(a: Seq<u8>, b: Seq<u8>) -> bool
    decreases a.len(),
{
    if b.len() == 0 {
        false
    } else if a.len() == 0 {
        true
    } else if a[0] < b[0] {
        true
    } else if a[0] > b[0] {
        false
    } else {
        lex_lt(a.drop_first(), b.drop_first())
    }
}

/// Reflexive closure of the lexicographic order.
pub open spec fn lex_le(a: Seq<u8>, b: Seq<u8>) -> bool {
    lex_lt(a, b) || a == b
}

/// The lexicographic order as a relation value, for use with the sequence
/// sorting library.
pub open spec fn lex_le_order() -> spec_fn(Seq<u8>, Seq<u8>) -> bool {
    |a: Seq<u8>, b: Seq<u8>| lex_le(a, b)
}

/// No sequence is strictly before itself.
pub proof fn lemma_lex_lt_irreflexive(a: Seq<u8>)
    ensures
        !lex_lt(a, a),
    decreases a.len(),
{
    if a.len() > 0 {
        lemma_lex_lt_irreflexive(a.drop_first());
    }
}

/// Any two byte sequences are ordered or equal.
pub proof fn lemma_lex_trichotomy(a: Seq<u8>, b: Seq<u8>)
    ensures
        lex_lt(a, b) || lex_lt(b, a) || a == b,
    decreases a.len(),
{
    if a.len() == 0 && b.len() == 0 {
        assert(a =~= b);
    } else if a.len() > 0 && b.len() > 0 && a[0] == b[0] {
        lemma_lex_trichotomy(a.drop_first(), b.drop_first());
        if a.drop_first() == b.drop_first() {
            assert(a.drop_first().len() == b.drop_first().len());
            assert(a.len() == b.len());
            assert forall|k: int| 0 <= k < a.len() implies a[k] == b[k] by {
                if k > 0 {
                    assert(a.drop_first()[k - 1] == b.drop_first()[k - 1]);
                    assert(a[k] == a.drop_first()[k - 1]);
                    assert(b[k] == b.drop_first()[k - 1]);
                }
            }
            assert(a =~= b);
        }
    }
}

/// The strict order is asymmetric.
pub proof fn lemma_lex_lt_asymmetric(a: Seq<u8>, b: Seq<u8>)
    ensures
        !(lex_lt(a, b) && lex_lt(b, a)),
    decreases a.len(),
{
    if a.len() > 0 && b.len() > 0 && a[0] == b[0] {
        lemma_lex_lt_asymmetric(a.drop_first(), b.drop_first());
    }
}

/// The strict order is transitive.
pub proof fn lemma_lex_lt_transitive(a: Seq<u8>, b: Seq<u8>, c: Seq<u8>)
    ensures
        lex_lt(a, b) && lex_lt(b, c) ==> lex_lt(a, c),
    decreases a.len(),
{
    if a.len() > 0 && b.len() > 0 && c.len() > 0 && a[0] == b[0] && b[0] == c[0] {
        lemma_lex_lt_transitive(a.drop_first(), b.drop_first(), c.drop_first());
    }
}

/// The reflexive lexicographic order is a total ordering in the sense of the
/// sequence sorting library.
pub proof fn lemma_lex_le_total_ordering()
    ensures
        total_ordering(lex_le_order()),
{
    let leq = lex_le_order();
    assert forall|a: Seq<u8>| #[trigger] leq(a, a) by {}
    assert forall|a: Seq<u8>, b: Seq<u8>| #[trigger] leq(a, b) && #[trigger] leq(b, a)
        implies a == b by {
        lemma_lex_lt_asymmetric(a, b);
    }
    assert forall|a: Seq<u8>, b: Seq<u8>, c: Seq<u8>|
        #[trigger] leq(a, b) && #[trigger] leq(b, c) implies #[trigger] leq(a, c) by {
        lemma_lex_lt_transitive(a, b, c);
    }
    assert forall|a: Seq<u8>, b: Seq<u8>| #[trigger] leq(a, b) || #[trigger] leq(b, a) by {
        lemma_lex_trichotomy(a, b);
    }
}

/// Stripping a common prefix does not change the order.
pub proof fn lemma_lex_lt_common_prefix(a: Seq<u8>, b: Seq<u8>, i: int)
    requires
        0 <= i <= a.len(),
        0 <= i <= b.len(),
        forall|k: int| 0 <= k < i ==> a[k] == b[k],
    ensures
        lex_lt(a, b) == lex_lt(a.skip(i), b.skip(i)),
    decreases i,
{
    if i > 0 {
        assert(a.len() > 0 && b.len() > 0 && a[0] == b[0]);
        assert(a.drop_first().skip(i - 1) =~= a.skip(i));
        assert(b.drop_first().skip(i - 1) =~= b.skip(i));
        assert forall|k: int| 0 <= k < i - 1 implies a.drop_first()[k] == b.drop_first()[k] by {
            assert(a[k + 1] == b[k + 1]);
        }
        lemma_lex_lt_common_prefix(a.drop_first(), b.drop_first(), i - 1);
    } else {
        assert(a.skip(0) =~= a);
        assert(b.skip(0) =~= b);
    }
}

/// Compares two equal-length byte slices for strict lexicographic order.
pub fn bytes_lt(a: &[u8], b: &[u8]) -> (r: bool)
    requires
        a@.len() == b@.len(),
    ensures
        r == lex_lt(a@, b@),
{
    let n = a.len();
    let mut i: usize = 0;
    while i < n
        invariant
            0 <= i <= n,
            n == a@.len() == b@.len(),
            forall|k: int| 0 <= k < i ==> a@[k] == b@[k],
        decreases n - i,
    {
        if a[i] < b[i] {
            proof {
                lemma_lex_lt_common_prefix(a@, b@, i as int);
            }
            return true;
        }
        if a[i] > b[i] {
            proof {
                lemma_lex_lt_common_prefix(a@, b@, i as int);
            }
            return false;
        }
        i = i + 1;
    }
    proof {
        lemma_lex_lt_common_prefix(a@, b@, n as int);
    }
    false
}

/// Compares two equal-length byte slices for equality.
pub fn bytes_eq(a: &[u8], b: &[u8]) -> (r: bool)
    requires
        a@.len() == b@.len(),
    ensures
        r == (a@ == b@),
{
    let n = a.len();
    let mut i: usize = 0;
    while i < n
        invariant
            0 <= i <= n,
            n == a@.len() == b@.len(),
            forall|k: int| 0 <= k < i ==> a@[k] == b@[k],
        decreases n - i,
    {
        if a[i] != b[i] {
            return false;
        }
        i = i + 1;
    }
    proof {
        assert(a@ =~= b@);
    }
    true
}

/// Compares two content identifiers for strict lexicographic byte order.
pub fn cid_lt(a: &CidBytes, b: &CidBytes) -> (r: bool)
    ensures
        r == lex_lt(a@, b@),
{
    bytes_lt(a.0.as_slice(), b.0.as_slice())
}

/// The views of a sequence of content identifiers, as byte sequences.
pub open spec fn cid_views(s: Seq<CidBytes>) -> Seq<Seq<u8>> {
    s.map_values(|c: CidBytes| c@)
}

/// Sorts a vector of content identifiers into ascending lexicographic byte
/// order; the result is the canonical sorted permutation of the input.
pub fn sort_cids(v: &Vec<CidBytes>) -> (r: Vec<CidBytes>)
    ensures
        cid_views(r@) == cid_views(v@).sort_by(lex_le_order()),
{
    let mut out: Vec<CidBytes> = Vec::new();
    let n = v.len();
    proof {
        assert(cid_views(v@.take(0)) =~= Seq::<Seq<u8>>::empty());
        assert(cid_views(out@) =~= Seq::<Seq<u8>>::empty());
        assert(cid_views(out@).to_multiset() =~= cid_views(v@.take(0)).to_multiset());
    }
    let mut i: usize = 0;
    while i < n
        invariant
            0 <= i <= n,
            n == v@.len(),
            sorted_by(cid_views(out@), lex_le_order()),
            cid_views(out@).to_multiset() == cid_views(v@.take(i as int)).to_multiset(),
        decreases n - i,
    {
        let c = v[i];
        let mut p: usize = 0;
        let m = out.len();
        while p < m && cid_lt(&out[p], &c)
            invariant
                0 <= p <= m,
                m == out@.len(),
                forall|k: int| 0 <= k < p ==> lex_lt(#[trigger] cid_views(out@)[k], c@),
            decreases m - p,
        {
            p = p + 1;
        }
        let ghost old_out = out@;
        out.insert(p, c);
        proof {
            let leq = lex_le_order();
            let s = cid_views(old_out);
            let t = cid_views(out@);
            assert(out@ == old_out.insert(p as int, c));
            assert(t =~= s.insert(p as int, c@));
            if (p as int) < s.len() {
                lemma_lex_trichotomy(c@, s[p as int]);
            }
            // Sortedness of the extended sequence.
            assert forall|x: int, y: int| 0 <= x < y < t.len()
                implies #[trigger] leq(t[x], t[y]) by {
                if y < p {
                    assert(t[x] == s[x] && t[y] == s[y]);
                    assert(leq(s[x], s[y]));
                } else if x > p {
                    assert(t[x] == s[x - 1] && t[y] == s[y - 1]);
                    assert(leq(s[x - 1], s[y - 1]));
                } else if y == p {
                    assert(t[x] == s[x] && t[y] == c@);
                    assert(lex_lt(s[x], c@));
                } else if x == p {
                    assert(t[x] == c@ && t[y] == s[y - 1]);
                    assert(lex_le(c@, s[p as int]));
                    if y - 1 > p {
                        assert(leq(s[p as int], s[y - 1]));
                        lemma_lex_lt_transitive(c@, s[p as int], s[y - 1]);
                    }
                } else {
                    assert(x < p && y > p);
                    assert(t[x] == s[x] && t[y] == s[y - 1]);
                    assert(lex_lt(s[x], c@));
                    assert(lex_le(c@, s[p as int]));
                    if y - 1 == p {
                        lemma_lex_lt_transitive(s[x], c@, s[p as int]);
                    } else {
                        assert(leq(s[p as int], s[y - 1]));
                        lemma_lex_lt_transitive(c@, s[p as int], s[y - 1]);
                        lemma_lex_lt_transitive(s[x], c@, s[y - 1]);
                    }
                }
            }
            // Multiset bookkeeping.
            vstd::seq_lib::to_multiset_insert(s, p as int, c@);
            assert(cid_views(v@.take(i + 1)) =~= cid_views(v@.take(i as int)).push(c@));
            cid_views(v@.take(i as int)).to_multiset_ensures();
            assert(cid_views(v@.take(i + 1)).to_multiset()
                == cid_views(v@.take(i as int)).to_multiset().insert(c@));
        }
        i = i + 1;
    }
    proof {
        let leq = lex_le_order();
        assert(v@.take(n as int) =~= v@);
        lemma_lex_le_total_ordering();
        cid_views(v@).lemma_sort_by_ensures(leq);
        lemma_sorted_unique(cid_views(out@), cid_views(v@).sort_by(leq), leq);
        assert(cid_views(out@) =~= cid_views(v@).sort_by(leq));
    }
    out
}

/// Sorting depends only on the multiset of elements: two identifier lists
/// that are permutations of each other sort to the same sequence.
pub proof fn lemma_sort_permutation_invariant(s1: Seq<Seq<u8>>, s2: Seq<Seq<u8>>)
    requires
        s1.to_multiset() == s2.to_multiset(),
    ensures
        s1.sort_by(lex_le_order()) == s2.sort_by(lex_le_order()),
{
    let leq = lex_le_order();
    lemma_lex_le_total_ordering();
    s1.lemma_sort_by_ensures(leq);
    s2.lemma_sort_by_ensures(leq);
    lemma_sorted_unique(s1.sort_by(leq), s2.sort_by(leq), leq);
    assert(s1.sort_by(leq) =~= s2.sort_by(leq));
}

} // verus!
