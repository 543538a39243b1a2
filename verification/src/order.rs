//! Stable ordering of values by a byte-string key, and sets of digests
//! kept as sorted or duplicate-free lists. Digest- and id-keyed books are
//! lists with a uniqueness or order invariant because vstd's ordered-map
//! specifications only apply to keys whose comparison it specifies, and it
//! specifies none for byte arrays.

use vstd::prelude::*;
use crate::digest::{bytes_less, bytes_lt, digest_eq, lemma_bytes_lt_irreflexive, lemma_bytes_lt_total, lemma_bytes_lt_transitive};

verus! {

/// A value ordered by a byte-string key.
pub trait ByteKeyed {
    spec fn key(&self) -> Seq<u8>;

    fn key_bytes(&self) -> (r: &[u8])
        ensures
            r@ == self.key(),
    ;
}

impl ByteKeyed for [u8; 32] {
    open spec fn key(&self) -> Seq<u8> {
        self@
    }

    fn key_bytes(&self) -> (r: &[u8]) {
        self.as_slice()
    }
}

/// The index before which `e` goes in `t`: ahead of every value whose key is
/// not smaller, so earlier values stay first among equal keys.
pub open spec fn place_index<T: ByteKeyed>(e: T, t: Seq<T>) -> int
    decreases t.len(),
{
    if t.len() == 0 {
        0
    } else if !bytes_lt(t[0].key(), e.key()) {
        0
    } else {
        1 + place_index(e, t.drop_first())
    }
}

/// Values ordered by key, equal keys in their original order.
pub open spec fn sorted_by_key<T: ByteKeyed>(s: Seq<T>) -> Seq<T>
    decreases s.len(),
{
    if s.len() == 0 {
        Seq::empty()
    } else {
        let t = sorted_by_key(s.drop_first());
        t.insert(place_index(s[0], t), s[0])
    }
}

proof fn lemma_place_index<T: ByteKeyed>(e: T, t: Seq<T>, k: int)
    requires
        0 <= k <= t.len(),
        forall|j: int| 0 <= j < k ==> bytes_lt(#[trigger] t[j].key(), e.key()),
        k == t.len() || !bytes_lt(t[k].key(), e.key()),
    ensures
        place_index(e, t) == k,
    decreases t.len(),
{
    if t.len() > 0 && k > 0 {
        assert forall|j: int| 0 <= j < k - 1 implies bytes_lt(#[trigger] t.drop_first()[j].key(), e.key()) by {
            assert(t.drop_first()[j] == t[j + 1]);
        }
        lemma_place_index(e, t.drop_first(), k - 1);
    }
}

fn place<T: ByteKeyed>(out: &mut Vec<T>, e: T)
    ensures
        final(out)@ == old(out)@.insert(place_index(e, old(out)@), e),
{
    let mut k: usize = 0;
    while k < out.len() && bytes_less(out[k].key_bytes(), e.key_bytes())
        invariant
            k <= out@.len(),
            forall|j: int| 0 <= j < k ==> bytes_lt(#[trigger] out@[j].key(), e.key()),
        decreases out@.len() - k,
    {
        k = k + 1;
    }
    proof { lemma_place_index(e, out@, k as int); }
    out.insert(k, e);
}

/// Orders values by key, keeping the original order among equal keys.
pub fn sort_by_key<T: ByteKeyed>(v: Vec<T>) -> (r: Vec<T>)
    ensures
        r@ == sorted_by_key(v@),
{
    let ghost s = v@;
    let mut v = v;
    let mut out: Vec<T> = Vec::new();
    while v.len() > 0
        invariant
            v@.len() <= s.len(),
            v@ == s.subrange(0, v@.len() as int),
            out@ == sorted_by_key(s.subrange(v@.len() as int, s.len() as int)),
        decreases v@.len(),
    {
        let ghost i = v@.len() as int;
        let e = v.pop().unwrap();
        assert(s.subrange(i - 1, s.len() as int).drop_first() =~= s.subrange(i, s.len() as int));
        place(&mut out, e);
    }
    assert(s.subrange(0, s.len() as int) =~= s);
    out
}

/// A sequence is ordered by key: no later value has a smaller key.
pub open spec fn key_sorted<T: ByteKeyed>(s: Seq<T>) -> bool {
    forall|i: int, j: int| 0 <= i < j < s.len() ==> !bytes_lt(#[trigger] s[j].key(), #[trigger] s[i].key())
}

proof fn lemma_place_index_bounds<T: ByteKeyed>(e: T, t: Seq<T>)
    ensures
        0 <= place_index(e, t) <= t.len(),
        forall|j: int| 0 <= j < place_index(e, t) ==> bytes_lt(#[trigger] t[j].key(), e.key()),
        place_index(e, t) < t.len() ==> !bytes_lt(t[place_index(e, t)].key(), e.key()),
    decreases t.len(),
{
    if t.len() > 0 && bytes_lt(t[0].key(), e.key()) {
        lemma_place_index_bounds(e, t.drop_first());
        assert forall|j: int| 0 <= j < place_index(e, t) implies bytes_lt(#[trigger] t[j].key(), e.key()) by {
            if j > 0 {
                assert(t[j] == t.drop_first()[j - 1]);
            }
        }
        if place_index(e, t) < t.len() {
            assert(t[place_index(e, t)] == t.drop_first()[place_index(e, t.drop_first())]);
        }
    }
}

/// Sorting by key orders the values by key and keeps every value: the result
/// is a permutation of the input.
pub proof fn law_sorting_orders_and_keeps_every_value<T: ByteKeyed>(s: Seq<T>)
    ensures
        key_sorted(sorted_by_key(s)),
        sorted_by_key(s).to_multiset() == s.to_multiset(),
    decreases s.len(),
{
    if s.len() > 0 {
        let rest = s.drop_first();
        let t = sorted_by_key(rest);
        let e = s[0];
        law_sorting_orders_and_keeps_every_value(rest);
        lemma_place_index_bounds(e, t);
        let k = place_index(e, t);
        let u = t.insert(k, e);
        assert(sorted_by_key(s) == u);
        assert forall|i: int, j: int| 0 <= i < j < u.len() implies !bytes_lt(#[trigger] u[j].key(), #[trigger] u[i].key()) by {
            if j < k {
                assert(u[i] == t[i] && u[j] == t[j]);
            } else if i > k {
                assert(u[i] == t[i - 1] && u[j] == t[j - 1]);
            } else if i < k && j > k {
                assert(u[i] == t[i] && u[j] == t[j - 1]);
            } else if j == k {
                assert(u[i] == t[i] && u[j] == e);
                assert(bytes_lt(t[i].key(), e.key()));
                if bytes_lt(e.key(), t[i].key()) {
                    lemma_bytes_lt_transitive(t[i].key(), e.key(), t[i].key());
                    lemma_bytes_lt_irreflexive(t[i].key());
                }
            } else {
                assert(i == k && j > k);
                assert(u[i] == e && u[j] == t[j - 1]);
                assert(!bytes_lt(t[k].key(), e.key()));
                if bytes_lt(t[j - 1].key(), e.key()) {
                    lemma_bytes_lt_total(t[k].key(), t[j - 1].key());
                    if j - 1 > k {
                        assert(!bytes_lt(t[j - 1].key(), t[k].key()));
                    }
                    if bytes_lt(t[k].key(), t[j - 1].key()) {
                        lemma_bytes_lt_transitive(t[k].key(), t[j - 1].key(), e.key());
                    }
                }
            }
        }
        vstd::seq_lib::to_multiset_insert(t, k, e);
        vstd::seq_lib::to_multiset_insert(rest, 0, e);
        assert(rest.insert(0, e) =~= s);
        assert(u.to_multiset() == t.to_multiset().insert(e));
        assert(s.to_multiset() == rest.to_multiset().insert(e));
    } else {
        assert(s =~= Seq::<T>::empty());
        assert(sorted_by_key(s) =~= Seq::<T>::empty());
    }
}

/// The order in which digests are given does not matter: any two sequences of
/// the same digests, each counted as often, sort to the same sequence.
pub proof fn law_sorted_digests_ignore_input_order(a: Seq<[u8; 32]>, b: Seq<[u8; 32]>)
    requires
        a.to_multiset() == b.to_multiset(),
    ensures
        sorted_by_key(a) == sorted_by_key(b),
{
    broadcast use vstd::array::group_array_axioms;
    let leq = |x: [u8; 32], y: [u8; 32]| !bytes_lt(y@, x@);
    law_sorting_orders_and_keeps_every_value(a);
    law_sorting_orders_and_keeps_every_value(b);
    let sa = sorted_by_key(a);
    let sb = sorted_by_key(b);
    assert(vstd::relations::sorted_by(sa, leq)) by {
        assert forall|i: int, j: int| 0 <= i < j < sa.len() implies #[trigger] leq(sa[i], sa[j]) by {
            assert(!bytes_lt(sa[j].key(), sa[i].key()));
        }
    }
    assert(vstd::relations::sorted_by(sb, leq)) by {
        assert forall|i: int, j: int| 0 <= i < j < sb.len() implies #[trigger] leq(sb[i], sb[j]) by {
            assert(!bytes_lt(sb[j].key(), sb[i].key()));
        }
    }
    assert(vstd::relations::total_ordering(leq)) by {
        assert forall|x: [u8; 32]| #[trigger] leq(x, x) by {
            lemma_bytes_lt_irreflexive(x@);
        }
        assert forall|x: [u8; 32], y: [u8; 32]| #[trigger] leq(x, y) && #[trigger] leq(y, x) implies x == y by {
            lemma_bytes_lt_total(x@, y@);
            assert(x =~= y);
        }
        assert forall|x: [u8; 32], y: [u8; 32], z: [u8; 32]| #[trigger] leq(x, y) && #[trigger] leq(y, z) implies leq(x, z) by {
            lemma_bytes_lt_total(x@, y@);
            lemma_bytes_lt_total(y@, z@);
            if bytes_lt(z@, x@) {
                if bytes_lt(x@, y@) {
                    lemma_bytes_lt_transitive(z@, x@, y@);
                }
            }
        }
        assert forall|x: [u8; 32], y: [u8; 32]| #[trigger] leq(x, y) || #[trigger] leq(y, x) by {
            if bytes_lt(y@, x@) && bytes_lt(x@, y@) {
                lemma_bytes_lt_transitive(y@, x@, y@);
                lemma_bytes_lt_irreflexive(y@);
            }
        }
    }
    vstd::seq_lib::lemma_sorted_unique(sa, sb, leq);
}

/// All views in a sequence of digests are distinct.
pub open spec fn views_unique(s: Seq<[u8; 32]>) -> bool {
    forall|i: int, j: int| 0 <= i < s.len() && 0 <= j < s.len() && i != j ==> (#[trigger] s[i])@ != (#[trigger] s[j])@
}

/// The set of views of a sequence of digests.
pub open spec fn view_set(s: Seq<[u8; 32]>) -> Set<Seq<u8>> {
    Set::new(|d: Seq<u8>| exists|i: int| 0 <= i < s.len() && (#[trigger] s[i])@ == d)
}

pub proof fn lemma_view_set_len(s: Seq<[u8; 32]>)
    requires
        views_unique(s),
    ensures
        view_set(s).finite(),
        view_set(s).len() == s.len(),
{
    let m = s.map_values(|a: [u8; 32]| a@);
    assert(m.no_duplicates()) by {
        assert forall|i: int, j: int| 0 <= i < m.len() && 0 <= j < m.len() && i != j implies m[i] != m[j] by {
            assert(m[i] == s[i]@);
            assert(m[j] == s[j]@);
        }
    }
    m.unique_seq_to_set();
    assert(m.to_set() =~= view_set(s)) by {
        assert forall|d: Seq<u8>| view_set(s).contains(d) implies m.to_set().contains(d) by {
            let i = choose|i: int| 0 <= i < s.len() && (#[trigger] s[i])@ == d;
            assert(m[i] == d);
        }
        assert forall|d: Seq<u8>| m.to_set().contains(d) implies view_set(s).contains(d) by {
            let i = choose|i: int| 0 <= i < m.len() && m[i] == d;
            assert(s[i]@ == d);
        }
    }
}

/// Adds a digest to a list of distinct digests unless its value is present.
pub fn add_distinct(v: &mut Vec<[u8; 32]>, d: [u8; 32])
    requires
        views_unique(old(v)@),
    ensures
        views_unique(final(v)@),
        view_set(final(v)@) == view_set(old(v)@).insert(d@),
        final(v)@.len() <= old(v)@.len() + 1,
{
    let mut k: usize = 0;
    while k < v.len()
        invariant
            k <= v@.len(),
            v@ == old(v)@,
            views_unique(v@),
            forall|j: int| 0 <= j < k ==> (#[trigger] v@[j])@ != d@,
        decreases v@.len() - k,
    {
        if digest_eq(&v[k], &d) {
            assert(view_set(v@) =~= view_set(v@).insert(d@)) by {
                assert(v@[k as int]@ == d@);
            }
            return;
        }
        k = k + 1;
    }
    let ghost before = v@;
    v.push(d);
    assert(view_set(v@) =~= view_set(before).insert(d@)) by {
        assert(v@[before.len() as int] == d);
        assert forall|x: Seq<u8>| view_set(v@).contains(x) implies view_set(before).insert(d@).contains(x) by {
            let i = choose|i: int| 0 <= i < v@.len() && (#[trigger] v@[i])@ == x;
            if i < before.len() {
                assert(before[i] == v@[i]);
            }
        }
        assert forall|x: Seq<u8>| view_set(before).insert(d@).contains(x) implies view_set(v@).contains(x) by {
            if x != d@ {
                let i = choose|i: int| 0 <= i < before.len() && (#[trigger] before[i])@ == x;
                assert(v@[i] == before[i]);
            }
        }
    }
}

/// Digests in strictly increasing byte order.
pub open spec fn ids_sorted(s: Seq<[u8; 32]>) -> bool {
    forall|i: int, j: int| 0 <= i < j < s.len() ==> bytes_lt((#[trigger] s[i])@, (#[trigger] s[j])@)
}

/// `s` lists the values of `set` in increasing order.
pub open spec fn enumerates(s: Seq<[u8; 32]>, set: Set<Seq<u8>>) -> bool {
    ids_sorted(s) && view_set(s) == set
}

/// Adds a digest to a strictly sorted list unless its value is present.
#[verifier::rlimit(40)]
pub fn insert_id(v: &mut Vec<[u8; 32]>, id: [u8; 32])
    requires
        ids_sorted(old(v)@),
    ensures
        ids_sorted(final(v)@),
        view_set(final(v)@) == view_set(old(v)@).insert(id@),
{
    let mut k: usize = 0;
    while k < v.len() && bytes_less(v[k].as_slice(), id.as_slice())
        invariant
            k <= v@.len(),
            forall|j: int| 0 <= j < k ==> bytes_lt((#[trigger] v@[j])@, id@),
        decreases v@.len() - k,
    {
        k = k + 1;
    }
    if k < v.len() && digest_eq(&v[k], &id) {
        assert(view_set(v@) =~= view_set(v@).insert(id@)) by {
            assert(v@[k as int]@ == id@);
        }
        return;
    }
    let ghost before = v@;
    proof {
        if k < before.len() {
            lemma_bytes_lt_total(before[k as int]@, id@);
        }
    }
    v.insert(k, id);
    proof {
        let t = v@;
        assert(t =~= before.insert(k as int, id));
        assert forall|i: int, j: int| 0 <= i < j < t.len() implies bytes_lt((#[trigger] t[i])@, (#[trigger] t[j])@) by {
            if j < k {
                assert(t[i] == before[i] && t[j] == before[j]);
            } else if j == k {
                assert(t[i] == before[i]);
            } else if i == k {
                assert(t[j] == before[j - 1]);
                if j - 1 > k {
                    assert(bytes_lt(before[k as int]@, before[j - 1]@));
                    lemma_bytes_lt_transitive(id@, before[k as int]@, before[j - 1]@);
                }
            } else if i < k {
                assert(t[i] == before[i] && t[j] == before[j - 1]);
            } else {
                assert(t[i] == before[i - 1] && t[j] == before[j - 1]);
            }
        }
        assert(view_set(t) =~= view_set(before).insert(id@)) by {
            assert(t[k as int] == id);
            assert forall|x: Seq<u8>| view_set(t).contains(x) implies view_set(before).insert(id@).contains(x) by {
                let i = choose|i: int| 0 <= i < t.len() && (#[trigger] t[i])@ == x;
                if i < k {
                    assert(t[i] == before[i]);
                } else if i > k {
                    assert(t[i] == before[i - 1]);
                }
            }
            assert forall|x: Seq<u8>| view_set(before).insert(id@).contains(x) implies view_set(t).contains(x) by {
                if x != id@ {
                    let i = choose|i: int| 0 <= i < before.len() && (#[trigger] before[i])@ == x;
                    if i < k {
                        assert(t[i] == before[i]);
                    } else {
                        assert(t[i + 1] == before[i]);
                    }
                }
            }
        }
    }
}

/// A one-element sequence where `b` holds.
#[verifier::opaque]
pub open spec fn reason_if<T>(b: bool, r: T) -> Seq<T> {
    if b { seq![r] } else { Seq::empty() }
}

/// A conditional reason holds `x` exactly when its condition holds and it is `x`.
pub broadcast proof fn lemma_reason_if_contains<T>(b: bool, r: T, x: T)
    ensures
        #[trigger] reason_if(b, r).contains(x) <==> (b && r == x),
{
    reveal(reason_if);
    let s = reason_if(b, r);
    if b {
        assert(s.len() == 1 && s[0] == r);
        if s.contains(x) {
            let i = choose|i: int| 0 <= i < s.len() && s[i] == x;
            assert(i == 0);
        }
        if r == x {
            assert(s[0] == x);
        }
    } else {
        assert(s.len() == 0);
    }
}

/// Appends `r` where `b` holds.
pub fn push_when<T>(reasons: &mut Vec<T>, b: bool, r: T)
    ensures
        final(reasons)@ == old(reasons)@ + reason_if(b, r),
{
    reveal(reason_if);
    if b {
        reasons.push(r);
    } else {
        assert(old(reasons)@ + reason_if(b, r) =~= old(reasons)@);
    }
}

} // verus!
