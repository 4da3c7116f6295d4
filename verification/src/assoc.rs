//! Association lists: a sequence of key/value pairs with distinct keys,
//! read as a finite map. The stores of this crate keep their entries in
//! vectors and use these facts to relate each vector operation to the
//! corresponding map operation.
use vstd::prelude::*;

verus! {

/// No key occurs twice.
pub open spec fn keys_distinct<K, V>(s: Seq<(K, V)>) -> bool {
    forall|i: int, j: int| 0 <= i < s.len() && 0 <= j < s.len() && i != j ==> s[i].0 != s[j].0
}

/// The map that an association list denotes (later pairs win).
pub open spec fn to_map<K, V>(s: Seq<(K, V)>) -> Map<K, V>
    decreases s.len(),
{
    if s.len() == 0 {
        Map::empty()
    } else {
        to_map(s.drop_last()).insert(s.last().0, s.last().1)
    }
}

/// Index of the pair with key `k` in `s`, or `s.len()` when there is none.
pub open spec fn index_of_key<K, V>(s: Seq<(K, V)>, k: K) -> int
    decreases s.len(),
{
    if s.len() == 0 {
        0
    } else if s.last().0 == k {
        s.len() - 1
    } else {
        let i = index_of_key(s.drop_last(), k);
        if i == s.len() - 1 {
            s.len() as int
        } else {
            i
        }
    }
}

pub proof fn lemma_to_map_dom<K, V>(s: Seq<(K, V)>, k: K)
    ensures
        to_map(s).dom().contains(k) <==> exists|i: int| 0 <= i < s.len() && #[trigger] s[i].0 == k,
        to_map(s).dom().finite(),
    decreases s.len(),
{
    if s.len() > 0 {
        lemma_to_map_dom(s.drop_last(), k);
        if to_map(s.drop_last()).dom().contains(k) {
            let i = choose|i: int| 0 <= i < s.drop_last().len() && #[trigger] s.drop_last()[i].0 == k;
            assert(s[i].0 == k);
        }
        if exists|i: int| 0 <= i < s.len() && #[trigger] s[i].0 == k {
            let i = choose|i: int| 0 <= i < s.len() && #[trigger] s[i].0 == k;
            if i < s.len() - 1 {
                assert(s.drop_last()[i].0 == k);
            }
        }
    }
}

pub proof fn lemma_to_map_value<K, V>(s: Seq<(K, V)>, i: int)
    requires
        keys_distinct(s),
        0 <= i < s.len(),
    ensures
        to_map(s).dom().contains(s[i].0),
        to_map(s)[s[i].0] == s[i].1,
    decreases s.len(),
{
    if i < s.len() - 1 {
        assert(keys_distinct(s.drop_last()));
        lemma_to_map_value(s.drop_last(), i);
        assert(s.drop_last()[i] == s[i]);
        assert(s.last().0 != s[i].0);
    }
}

pub proof fn lemma_index_of_key<K, V>(s: Seq<(K, V)>, k: K)
    requires
        keys_distinct(s),
    ensures
        0 <= index_of_key(s, k) <= s.len(),
        index_of_key(s, k) < s.len() ==> s[index_of_key(s, k)].0 == k,
        index_of_key(s, k) == s.len() ==> forall|j: int| 0 <= j < s.len() ==> s[j].0 != k,
        index_of_key(s, k) < s.len() <==> to_map(s).dom().contains(k),
    decreases s.len(),
{
    lemma_to_map_dom(s, k);
    if s.len() > 0 {
        assert(keys_distinct(s.drop_last()));
        lemma_index_of_key(s.drop_last(), k);
        let i = index_of_key(s.drop_last(), k);
        if s.last().0 != k && i == s.len() - 1 {
            assert forall|j: int| 0 <= j < s.len() implies s[j].0 != k by {
                if j < s.len() - 1 {
                    assert(s.drop_last()[j] == s[j]);
                }
            }
        }
        if s.last().0 != k && i < s.len() - 1 {
            assert(s.drop_last()[i] == s[i]);
        }
    }
}

pub proof fn lemma_to_map_len<K, V>(s: Seq<(K, V)>)
    requires
        keys_distinct(s),
    ensures
        to_map(s).len() == s.len(),
        to_map(s).dom().finite(),
    decreases s.len(),
{
    if s.len() > 0 {
        assert(keys_distinct(s.drop_last()));
        lemma_to_map_len(s.drop_last());
        lemma_to_map_dom(s.drop_last(), s.last().0);
        if to_map(s.drop_last()).dom().contains(s.last().0) {
            let i = choose|i: int|
                0 <= i < s.drop_last().len() && #[trigger] s.drop_last()[i].0 == s.last().0;
            assert(s[i].0 == s[s.len() - 1].0);
        }
    } else {
        lemma_to_map_dom(s, arbitrary());
    }
}

pub proof fn lemma_push<K, V>(s: Seq<(K, V)>, k: K, v: V)
    requires
        keys_distinct(s),
        !to_map(s).dom().contains(k),
    ensures
        keys_distinct(s.push((k, v))),
        to_map(s.push((k, v))) == to_map(s).insert(k, v),
{
    lemma_index_of_key(s, k);
    assert(s.push((k, v)).drop_last() =~= s);
}

pub proof fn lemma_update<K, V>(s: Seq<(K, V)>, i: int, v: V)
    requires
        keys_distinct(s),
        0 <= i < s.len(),
    ensures
        keys_distinct(s.update(i, (s[i].0, v))),
        to_map(s.update(i, (s[i].0, v))) == to_map(s).insert(s[i].0, v),
    decreases s.len(),
{
    let t = s.update(i, (s[i].0, v));
    if i == s.len() - 1 {
        assert(t.drop_last() =~= s.drop_last());
        assert(keys_distinct(s.drop_last()));
        lemma_to_map_value(s, i);
        assert(to_map(s) == to_map(s.drop_last()).insert(s[i].0, s[i].1));
        assert(to_map(t) =~= to_map(s).insert(s[i].0, v));
    } else {
        assert(keys_distinct(s.drop_last()));
        lemma_update(s.drop_last(), i, v);
        assert(t.drop_last() =~= s.drop_last().update(i, (s[i].0, v)));
        assert(s.last().0 != s[i].0);
        assert(to_map(t) =~= to_map(s).insert(s[i].0, v));
    }
}

pub proof fn lemma_remove<K, V>(s: Seq<(K, V)>, i: int)
    requires
        keys_distinct(s),
        0 <= i < s.len(),
    ensures
        keys_distinct(s.remove(i)),
        to_map(s.remove(i)) == to_map(s).remove(s[i].0),
    decreases s.len(),
{
    let t = s.remove(i);
    assert forall|a: int, b: int| 0 <= a < t.len() && 0 <= b < t.len() && a != b implies t[a].0
        != t[b].0 by {
        let a2 = if a < i { a } else { a + 1 };
        let b2 = if b < i { b } else { b + 1 };
        assert(t[a] == s[a2]);
        assert(t[b] == s[b2]);
    }
    if i == s.len() - 1 {
        assert(t =~= s.drop_last());
        assert(keys_distinct(s.drop_last()));
        lemma_index_of_key(s.drop_last(), s[i].0);
        assert forall|j: int| 0 <= j < s.drop_last().len() implies s.drop_last()[j].0 != s[i].0 by {
            assert(s.drop_last()[j] == s[j]);
        }
        assert(to_map(t) =~= to_map(s).remove(s[i].0));
    } else {
        assert(keys_distinct(s.drop_last()));
        lemma_remove(s.drop_last(), i);
        assert(t.drop_last() =~= s.drop_last().remove(i));
        assert(t.last() == s.last());
        assert(s.last().0 != s[i].0);
        assert(to_map(t) =~= to_map(s).remove(s[i].0));
    }
}

/// The part of `m` whose pairs satisfy `keep`.
pub open spec fn restrict<K, V>(m: Map<K, V>, keep: spec_fn((K, V)) -> bool) -> Map<K, V> {
    Map::new(|k: K| m.contains_key(k) && keep((k, m[k])), |k: K| m[k])
}

pub proof fn lemma_filter<K, V>(s: Seq<(K, V)>, keep: spec_fn((K, V)) -> bool)
    requires
        keys_distinct(s),
    ensures
        keys_distinct(s.filter(keep)),
        to_map(s.filter(keep)) == restrict(to_map(s), keep),
    decreases s.len(),
{
    broadcast use Seq::lemma_filter_push;
    if s.len() == 0 {
        reveal(Seq::filter);
        assert(to_map(s.filter(keep)) =~= restrict(to_map(s), keep));
    } else {
        let t = s.drop_last();
        let x = s.last();
        assert(keys_distinct(t));
        lemma_filter(t, keep);
        assert(s =~= t.push(x));
        assert(s.filter(keep) == if keep(x) { t.filter(keep).push(x) } else { t.filter(keep) });
        lemma_to_map_dom(t, x.0);
        if to_map(t).dom().contains(x.0) {
            let j = choose|j: int| 0 <= j < t.len() && #[trigger] t[j].0 == x.0;
            assert(s[j].0 == s[s.len() - 1].0);
        }
        if keep(x) {
            lemma_to_map_dom(t.filter(keep), x.0);
            assert(!to_map(t.filter(keep)).dom().contains(x.0));
            lemma_push(t.filter(keep), x.0, x.1);
        }
        assert(to_map(s.filter(keep)) =~= restrict(to_map(s), keep));
    }
}


/// The map takes a key's value from its last pair.
pub proof fn lemma_to_map_last<K, V>(s: Seq<(K, V)>, i: int)
    requires
        0 <= i < s.len(),
        forall|j: int| i < j < s.len() ==> #[trigger] s[j].0 != s[i].0,
    ensures
        to_map(s).dom().contains(s[i].0),
        to_map(s)[s[i].0] == s[i].1,
    decreases s.len(),
{
    if i < s.len() - 1 {
        assert(s.last().0 != s[i].0);
        lemma_to_map_last(s.drop_last(), i);
    }
}

} // verus!
