//! A sequence of records with distinct keys read as a map from key to
//! value, and how that map changes as records are replaced, removed and
//! appended.

use vstd::prelude::*;

verus! {

/// The keys of the records, in order.
pub open spec fn keys_of<T, K>(s: Seq<T>, key: spec_fn(T) -> K) -> Seq<K> {
    s.map_values(key)
}

/// The map from each record's key to its value; a later record wins.
pub open spec fn to_map<T, K, V>(s: Seq<T>, key: spec_fn(T) -> K, val: spec_fn(T) -> V) -> Map<K, V>
    decreases s.len(),
{
    if s.len() == 0 {
        Map::empty()
    } else {
        to_map(s.drop_last(), key, val).insert(key(s.last()), val(s.last()))
    }
}

/// The map's keys are the records' keys.
pub proof fn lemma_to_map_dom<T, K, V>(s: Seq<T>, key: spec_fn(T) -> K, val: spec_fn(T) -> V)
    ensures
        to_map(s, key, val).dom() == keys_of(s, key).to_set(),
        to_map(s, key, val).dom().finite(),
    decreases s.len(),
{
    if s.len() > 0 {
        lemma_to_map_dom(s.drop_last(), key, val);
        let ks = keys_of(s, key);
        let kd = keys_of(s.drop_last(), key);
        assert(kd =~= ks.drop_last());
        assert forall|k: K| ks.to_set().contains(k) <==> kd.to_set().insert(key(s.last())).contains(
            k,
        ) by {
            if ks.to_set().contains(k) {
                let i = choose|i: int| 0 <= i < ks.len() && ks[i] == k;
                if i < ks.len() - 1 {
                    assert(kd[i] == k);
                }
            }
            if kd.to_set().contains(k) {
                let i = choose|i: int| 0 <= i < kd.len() && kd[i] == k;
                assert(ks[i] == k);
            }
            if k == key(s.last()) {
                assert(ks[ks.len() - 1] == k);
            }
        }
        assert(to_map(s, key, val).dom() =~= ks.to_set());
    } else {
        assert(keys_of(s, key).to_set() =~= Set::<K>::empty());
    }
}

/// With distinct keys, the record at `i` is what the map holds for its key.
pub proof fn lemma_to_map_at<T, K, V>(s: Seq<T>, key: spec_fn(T) -> K, val: spec_fn(T) -> V, i: int)
    requires
        keys_of(s, key).no_duplicates(),
        0 <= i < s.len(),
    ensures
        to_map(s, key, val).contains_key(key(s[i])),
        to_map(s, key, val)[key(s[i])] == val(s[i]),
    decreases s.len(),
{
    if i < s.len() - 1 {
        let d = s.drop_last();
        assert(keys_of(d, key) =~= keys_of(s, key).drop_last());
        lemma_to_map_at(d, key, val, i);
        assert(keys_of(s, key)[i] != keys_of(s, key)[s.len() - 1]);
    }
}

/// With distinct keys, the last record's key is not among the earlier ones.
proof fn lemma_not_in_prefix<T, K, V>(s: Seq<T>, key: spec_fn(T) -> K, val: spec_fn(T) -> V)
    requires
        keys_of(s, key).no_duplicates(),
        s.len() > 0,
    ensures
        !to_map(s.drop_last(), key, val).contains_key(key(s.last())),
{
    let d = s.drop_last();
    lemma_to_map_dom(d, key, val);
    assert(keys_of(d, key) =~= keys_of(s, key).drop_last());
    if keys_of(d, key).to_set().contains(key(s.last())) {
        let j = choose|j: int| 0 <= j < keys_of(d, key).len() && keys_of(d, key)[j] == key(s.last());
        assert(keys_of(s, key)[j] == keys_of(s, key)[s.len() - 1]);
    }
}

/// Replacing the record at `i` by one with the same key replaces the
/// value of that key.
pub proof fn lemma_to_map_update<T, K, V>(
    s: Seq<T>,
    key: spec_fn(T) -> K,
    val: spec_fn(T) -> V,
    i: int,
    t: T,
)
    requires
        0 <= i < s.len(),
        keys_of(s, key).no_duplicates(),
        key(t) == key(s[i]),
    ensures
        to_map(s.update(i, t), key, val) == to_map(s, key, val).insert(key(t), val(t)),
        keys_of(s.update(i, t), key) == keys_of(s, key),
    decreases s.len(),
{
    let u = s.update(i, t);
    assert(keys_of(u, key) =~= keys_of(s, key));
    if i == s.len() - 1 {
        assert(u.drop_last() =~= s.drop_last());
        lemma_not_in_prefix(s, key, val);
        assert(to_map(u, key, val) =~= to_map(s, key, val).insert(key(t), val(t)));
    } else {
        let d = s.drop_last();
        assert(keys_of(d, key) =~= keys_of(s, key).drop_last());
        lemma_to_map_update(d, key, val, i, t);
        assert(u.drop_last() =~= d.update(i, t));
        assert(keys_of(s, key)[i] != keys_of(s, key)[s.len() - 1]);
        assert(to_map(u, key, val) =~= to_map(s, key, val).insert(key(t), val(t)));
    }
}

/// Replacing the record at `i` by any record with the same key replaces
/// the value of that key.
pub proof fn lemma_to_map_update_any<T, K, V>(s: Seq<T>, key: spec_fn(T) -> K, val: spec_fn(T) -> V, i: int)
    requires
        0 <= i < s.len(),
        keys_of(s, key).no_duplicates(),
    ensures
        forall|t: T|
            key(t) == key(s[i]) ==> #[trigger] to_map(s.update(i, t), key, val) == to_map(s, key, val).insert(
                key(t),
                val(t),
            ),
{
    assert forall|t: T| key(t) == key(s[i]) implies #[trigger] to_map(s.update(i, t), key, val) == to_map(
        s,
        key,
        val,
    ).insert(key(t), val(t)) by {
        lemma_to_map_update(s, key, val, i, t);
    }
}

/// Removing the record at `i` removes its key.
pub proof fn lemma_to_map_remove<T, K, V>(s: Seq<T>, key: spec_fn(T) -> K, val: spec_fn(T) -> V, i: int)
    requires
        0 <= i < s.len(),
        keys_of(s, key).no_duplicates(),
    ensures
        to_map(s.remove(i), key, val) == to_map(s, key, val).remove(key(s[i])),
        keys_of(s.remove(i), key) == keys_of(s, key).remove(i),
        keys_of(s.remove(i), key).no_duplicates(),
    decreases s.len(),
{
    let t = s.remove(i);
    let kt = keys_of(t, key);
    let ks = keys_of(s, key);
    assert(kt =~= ks.remove(i));
    assert forall|a: int, c: int| 0 <= a < kt.len() && 0 <= c < kt.len() && a != c implies kt[a]
        != kt[c] by {
        let a2 = if a < i {
            a
        } else {
            a + 1
        };
        let c2 = if c < i {
            c
        } else {
            c + 1
        };
        assert(kt[a] == ks[a2]);
        assert(kt[c] == ks[c2]);
    }
    if i == s.len() - 1 {
        assert(t =~= s.drop_last());
        lemma_not_in_prefix(s, key, val);
        assert(to_map(t, key, val) =~= to_map(s, key, val).remove(key(s[i])));
    } else {
        let d = s.drop_last();
        assert(keys_of(d, key) =~= ks.drop_last());
        lemma_to_map_remove(d, key, val, i);
        assert(t.drop_last() =~= d.remove(i));
        assert(t.last() == s.last());
        assert(ks[i] != ks[s.len() - 1]);
        assert(to_map(t, key, val) =~= to_map(s, key, val).remove(key(s[i])));
    }
}

/// Appending a record with a new key adds it.
pub proof fn lemma_to_map_push<T, K, V>(s: Seq<T>, key: spec_fn(T) -> K, val: spec_fn(T) -> V, t: T)
    requires
        keys_of(s, key).no_duplicates(),
        !to_map(s, key, val).contains_key(key(t)),
    ensures
        to_map(s.push(t), key, val) == to_map(s, key, val).insert(key(t), val(t)),
        keys_of(s.push(t), key) == keys_of(s, key).push(key(t)),
        keys_of(s.push(t), key).no_duplicates(),
{
    let u = s.push(t);
    assert(u.drop_last() =~= s);
    assert(keys_of(u, key) =~= keys_of(s, key).push(key(t)));
    lemma_to_map_dom(s, key, val);
    let ku = keys_of(u, key);
    let ks = keys_of(s, key);
    assert forall|a: int, c: int| 0 <= a < ku.len() && 0 <= c < ku.len() && a != c implies ku[a]
        != ku[c] by {
        if a == ks.len() && c < ks.len() {
            assert(ks.to_set().contains(ks[c]));
        }
        if c == ks.len() && a < ks.len() {
            assert(ks.to_set().contains(ks[a]));
        }
    }
}

} // verus!
