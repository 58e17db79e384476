//! Tables kept as sequences of `(key, value)` pairs with distinct keys, and
//! the map that such a sequence stands for.
use vstd::prelude::*;

verus! {

/// The map that a sequence of pairs stands for; a later pair wins over an
/// earlier one with the same key.
pub open spec fn to_map<K, V>(s: Seq<(K, V)>) -> Map<K, V>
    decreases s.len(),
{
    if s.len() == 0 {
        Map::empty()
    } else {
        to_map(s.drop_last()).insert(s.last().0, s.last().1)
    }
}

/// No two pairs share a key.
pub open spec fn keys_unique<K, V>(s: Seq<(K, V)>) -> bool {
    forall|i: int, j: int| 0 <= i < s.len() && 0 <= j < s.len() && i != j ==> s[i].0 != s[j].0
}

/// A key is in the map exactly when some pair carries it.
pub proof fn lemma_to_map_contains<K, V>(s: Seq<(K, V)>, k: K)
    ensures
        to_map(s).contains_key(k) <==> exists|i: int| 0 <= i < s.len() && s[i].0 == k,
    decreases s.len(),
{
    if s.len() > 0 {
        lemma_to_map_contains(s.drop_last(), k);
        if to_map(s).contains_key(k) && k != s.last().0 {
            let i = choose|i: int| 0 <= i < s.drop_last().len() && s.drop_last()[i].0 == k;
            assert(s[i].0 == k);
        }
        if exists|i: int| 0 <= i < s.len() && s[i].0 == k {
            let i = choose|i: int| 0 <= i < s.len() && s[i].0 == k;
            if i < s.len() - 1 {
                assert(s.drop_last()[i].0 == k);
            }
        }
    }
}

/// With distinct keys, each pair's key maps to that pair's value.
pub proof fn lemma_to_map_index<K, V>(s: Seq<(K, V)>, i: int)
    requires
        keys_unique(s),
        0 <= i < s.len(),
    ensures
        to_map(s).contains_key(s[i].0),
        to_map(s)[s[i].0] == s[i].1,
    decreases s.len(),
{
    if i < s.len() - 1 {
        let t = s.drop_last();
        assert(t[i] == s[i]);
        assert(keys_unique(t));
        lemma_to_map_index(t, i);
        assert(s.last().0 != s[i].0);
    }
}

/// Appending a pair inserts it.
pub proof fn lemma_to_map_push<K, V>(s: Seq<(K, V)>, p: (K, V))
    ensures
        to_map(s.push(p)) == to_map(s).insert(p.0, p.1),
{
    assert(s.push(p).drop_last() =~= s);
}

/// Appending a pair with a fresh key keeps the keys distinct.
pub proof fn lemma_keys_unique_push<K, V>(s: Seq<(K, V)>, p: (K, V))
    requires
        keys_unique(s),
        !to_map(s).contains_key(p.0),
    ensures
        keys_unique(s.push(p)),
{
    assert forall|i: int, j: int|
        0 <= i < s.push(p).len() && 0 <= j < s.push(p).len() && i != j implies s.push(p)[i].0
        != s.push(p)[j].0 by {
        if i == s.len() as int {
            if s[j].0 == p.0 {
                lemma_to_map_index(s, j);
            }
        } else if j == s.len() as int {
            if s[i].0 == p.0 {
                lemma_to_map_index(s, i);
            }
        }
    }
}

/// With distinct keys, taking out the pair at `i` removes its key.
pub proof fn lemma_to_map_remove<K, V>(s: Seq<(K, V)>, i: int)
    requires
        keys_unique(s),
        0 <= i < s.len(),
    ensures
        to_map(s.remove(i)) == to_map(s).remove(s[i].0),
        keys_unique(s.remove(i)),
    decreases s.len(),
{
    let r = s.remove(i);
    assert(keys_unique(r)) by {
        assert forall|a: int, b: int| 0 <= a < r.len() && 0 <= b < r.len() && a != b implies r[a].0
            != r[b].0 by {
            let a2 = if a < i { a } else { a + 1 };
            let b2 = if b < i { b } else { b + 1 };
            assert(r[a] == s[a2]);
            assert(r[b] == s[b2]);
        }
    }
    if i == s.len() - 1 {
        assert(r =~= s.drop_last());
        if to_map(s.drop_last()).contains_key(s[i].0) {
            lemma_to_map_contains(s.drop_last(), s[i].0);
            let j = choose|j: int| 0 <= j < s.drop_last().len() && s.drop_last()[j].0 == s[i].0;
            assert(s[j].0 == s[i].0);
        }
        assert(to_map(r) =~= to_map(s).remove(s[i].0));
    } else {
        let t = s.drop_last();
        assert(keys_unique(t));
        lemma_to_map_remove(t, i);
        assert(r.drop_last() =~= t.remove(i));
        assert(r.last() == s.last());
        assert(s.last().0 != s[i].0);
        assert(to_map(r) =~= to_map(s).remove(s[i].0));
    }
}

/// A key that no pair carries is not in the map.
pub proof fn lemma_to_map_absent<K, V>(s: Seq<(K, V)>, k: K)
    requires
        forall|i: int| 0 <= i < s.len() ==> s[i].0 != k,
    ensures
        !to_map(s).contains_key(k),
{
    lemma_to_map_contains(s, k);
}

/// The entries of `m` whose value satisfies `p`, with `f` applied to each.
pub open spec fn select<K, V, W>(m: Map<K, V>, p: spec_fn(V) -> bool, f: spec_fn(V) -> W) -> Map<
    K,
    W,
> {
    Map::new(|k: K| m.contains_key(k) && p(m[k]), |k: K| f(m[k]))
}

/// One step of a scan that keeps, from the pairs of `s`, those whose value
/// satisfies `p`, with `f` applied: having scanned `i` pairs into `out`, the
/// scan of pair `i` extends it to `i + 1` pairs.
pub proof fn lemma_select_step<K, V, W>(
    s: Seq<(K, V)>,
    i: int,
    out: Seq<(K, W)>,
    p: spec_fn(V) -> bool,
    f: spec_fn(V) -> W,
)
    requires
        keys_unique(s),
        0 <= i < s.len(),
        keys_unique(out),
        to_map(out) == select(to_map(s.take(i)), p, f),
    ensures
        ({
            let out2 = if p(s[i].1) {
                out.push((s[i].0, f(s[i].1)))
            } else {
                out
            };
            keys_unique(out2) && to_map(out2) == select(to_map(s.take(i + 1)), p, f)
        }),
{
    let k = s[i].0;
    let v = s[i].1;
    let m = to_map(s.take(i));
    assert(s.take(i + 1) =~= s.take(i).push(s[i]));
    lemma_to_map_push(s.take(i), s[i]);
    lemma_to_map_contains(s.take(i), k);
    if m.contains_key(k) {
        let j = choose|j: int| 0 <= j < s.take(i).len() && s.take(i)[j].0 == k;
        assert(s[j].0 == k);
    }
    if p(v) {
        lemma_keys_unique_push(out, (k, f(v)));
        lemma_to_map_push(out, (k, f(v)));
        assert(select(m.insert(k, v), p, f) =~= select(m, p, f).insert(k, f(v)));
    } else {
        assert(select(m.insert(k, v), p, f) =~= select(m, p, f));
    }
}

/// The start of such a scan: nothing scanned, nothing kept.
pub proof fn lemma_select_start<K, V, W>(s: Seq<(K, V)>, p: spec_fn(V) -> bool, f: spec_fn(V) -> W)
    ensures
        to_map(Seq::<(K, W)>::empty()) == select(to_map(s.take(0)), p, f),
        keys_unique(Seq::<(K, W)>::empty()),
{
    assert(s.take(0) =~= Seq::<(K, V)>::empty());
    assert(to_map(Seq::<(K, W)>::empty()) =~= select(to_map(s.take(0)), p, f));
}

} // verus!
