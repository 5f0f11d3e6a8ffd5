//! Association lists: sequences of key-value pairs with distinct keys, read
//! as finite maps.

use vstd::prelude::*;

verus! {

/// No key occurs twice.
pub open spec fn distinct_keys<K, V>(s: Seq<(K, V)>) -> bool {
    forall|i: int, j: int| 0 <= i < j < s.len() ==> #[trigger] s[i].0 != #[trigger] s[j].0
}

/// `k` occurs as a key.
pub open spec fn has_key<K, V>(s: Seq<(K, V)>, k: K) -> bool {
    exists|i: int| 0 <= i < s.len() && #[trigger] s[i].0 == k
}

/// A position at which `k` occurs.
pub open spec fn position<K, V>(s: Seq<(K, V)>, k: K) -> int {
    choose|i: int| 0 <= i < s.len() && #[trigger] s[i].0 == k
}

/// The map that an association list stands for.
pub open spec fn assoc<K, V>(s: Seq<(K, V)>) -> Map<K, V> {
    Map::new(|k: K| has_key(s, k), |k: K| s[position(s, k)].1)
}

/// The entry at position `i` is what the map holds for its key.
pub proof fn assoc_at<K, V>(s: Seq<(K, V)>, i: int)
    requires
        distinct_keys(s),
        0 <= i < s.len(),
    ensures
        assoc(s).dom().contains(s[i].0),
        assoc(s)[s[i].0] == s[i].1,
        position(s, s[i].0) == i,
{
    let p = position(s, s[i].0);
    assert(s[i].0 == s[i].0);
    assert(has_key(s, s[i].0));
    assert(0 <= p < s.len() && s[p].0 == s[i].0);
    if p < i {
        assert(s[p].0 != s[i].0);
    } else if i < p {
        assert(s[i].0 != s[p].0);
    }
}

/// Appending an entry under a new key inserts it.
pub proof fn assoc_push<K, V>(s: Seq<(K, V)>, k: K, v: V)
    requires
        distinct_keys(s),
        !has_key(s, k),
    ensures
        distinct_keys(s.push((k, v))),
        assoc(s.push((k, v))) == assoc(s).insert(k, v),
{
    let t = s.push((k, v));
    assert forall|i: int, j: int| 0 <= i < j < t.len() implies #[trigger] t[i].0 != #[trigger] t[j].0 by {
        if j < s.len() {
            assert(s[i].0 != s[j].0);
        } else {
            assert(t[i] == s[i]);
            assert(s[i].0 != k);
        }
    }
    assert(t[s.len() as int].0 == k);
    assert_maps(t, s, k, v);
}

proof fn assert_maps<K, V>(t: Seq<(K, V)>, s: Seq<(K, V)>, k: K, v: V)
    requires
        t == s.push((k, v)),
        distinct_keys(s),
        distinct_keys(t),
    ensures
        assoc(t) == assoc(s).insert(k, v),
{
    let m = assoc(s).insert(k, v);
    assert forall|x: K| assoc(t).dom().contains(x) <==> m.dom().contains(x) by {
        if has_key(t, x) {
            let i = position(t, x);
            if i < s.len() {
                assert(s[i].0 == x);
            }
        }
        if has_key(s, x) {
            let i = position(s, x);
            assert(t[i].0 == x);
        }
        assert(t[s.len() as int].0 == k);
    }
    assert forall|x: K| assoc(t).dom().contains(x) implies assoc(t)[x] == m[x] by {
        let i = position(t, x);
        assert(0 <= i < t.len() && t[i].0 == x);
        assoc_at(t, i);
        assert(t[s.len() as int].0 == k);
        if i < s.len() {
            assoc_at(s, i);
            assert(t[i].0 != t[s.len() as int].0);
        }
    }
    assert(assoc(t) =~= m);
}

/// Replacing the value at position `i` updates its key.
pub proof fn assoc_update<K, V>(s: Seq<(K, V)>, i: int, v: V)
    requires
        distinct_keys(s),
        0 <= i < s.len(),
    ensures
        distinct_keys(s.update(i, (s[i].0, v))),
        assoc(s.update(i, (s[i].0, v))) == assoc(s).insert(s[i].0, v),
{
    let t = s.update(i, (s[i].0, v));
    assert forall|a: int, b: int| 0 <= a < b < t.len() implies #[trigger] t[a].0 != #[trigger] t[b].0 by {
        assert(t[a].0 == s[a].0);
        assert(t[b].0 == s[b].0);
    }
    let m = assoc(s).insert(s[i].0, v);
    assert forall|x: K| assoc(t).dom().contains(x) <==> m.dom().contains(x) by {
        if has_key(t, x) {
            let p = position(t, x);
            assert(s[p].0 == x);
        }
        if has_key(s, x) {
            let p = position(s, x);
            assert(t[p].0 == x);
        }
        assert(t[i].0 == s[i].0);
    }
    assert forall|x: K| assoc(t).dom().contains(x) implies assoc(t)[x] == m[x] by {
        let p = position(t, x);
        assert(0 <= p < t.len() && t[p].0 == x);
        assoc_at(t, p);
        assert(s[p].0 == x);
        assoc_at(s, p);
        if p != i {
            if p < i {
                assert(s[p].0 != s[i].0);
            } else {
                assert(s[i].0 != s[p].0);
            }
        }
    }
    assert(assoc(t) =~= m);
}

/// Removing the entry at position `i` removes its key.
pub proof fn assoc_remove<K, V>(s: Seq<(K, V)>, i: int)
    requires
        distinct_keys(s),
        0 <= i < s.len(),
    ensures
        distinct_keys(s.remove(i)),
        assoc(s.remove(i)) == assoc(s).remove(s[i].0),
        !has_key(s.remove(i), s[i].0),
{
    let t = s.remove(i);
    assert forall|a: int, b: int| 0 <= a < b < t.len() implies #[trigger] t[a].0 != #[trigger] t[b].0 by {
        let a2 = if a < i { a } else { a + 1 };
        let b2 = if b < i { b } else { b + 1 };
        assert(t[a] == s[a2]);
        assert(t[b] == s[b2]);
        assert(s[a2].0 != s[b2].0);
    }
    let m = assoc(s).remove(s[i].0);
    assert forall|x: K| has_key(t, x) <==> has_key(s, x) && x != s[i].0 by {
        if has_key(t, x) {
            let p = position(t, x);
            let p2 = if p < i { p } else { p + 1 };
            assert(t[p] == s[p2]);
            assert(s[p2].0 == x);
            if p2 < i {
                assert(s[p2].0 != s[i].0);
            } else {
                assert(s[i].0 != s[p2].0);
            }
        }
        if has_key(s, x) && x != s[i].0 {
            let p = position(s, x);
            assert(s[p].0 == x);
            let p2 = if p < i { p } else { p - 1 };
            assert(t[p2] == s[p]);
            assert(t[p2].0 == x);
        }
    }
    assert forall|x: K| assoc(t).dom().contains(x) implies assoc(t)[x] == m[x] by {
        assert(has_key(t, x));
        let p = position(t, x);
        assert(0 <= p < t.len() && t[p].0 == x);
        let p2 = if p < i { p } else { p + 1 };
        assert(t[p] == s[p2]);
        assoc_at(t, p);
        assoc_at(s, p2);
    }
    assert(assoc(t) =~= m);
}

/// Two association lists with the same keys at the same positions, the
/// second holding `f` of the first's values, stand for maps related by `f`.
pub proof fn assoc_map<K, V, W>(s: Seq<(K, V)>, t: Seq<(K, W)>, f: spec_fn(V) -> W)
    requires
        distinct_keys(s),
        s.len() == t.len(),
        forall|i: int| 0 <= i < s.len() ==> #[trigger] t[i] == (s[i].0, f(s[i].1)),
    ensures
        distinct_keys(t),
        assoc(t) == assoc(s).map_values(f),
{
    assert forall|i: int, j: int| 0 <= i < j < t.len() implies #[trigger] t[i].0 != #[trigger] t[j].0 by {
        assert(s[i].0 != s[j].0);
    }
    let m = assoc(s).map_values(f);
    assert forall|x: K| has_key(t, x) <==> has_key(s, x) by {
        if has_key(t, x) {
            let p = position(t, x);
            assert(s[p].0 == x);
        }
        if has_key(s, x) {
            let p = position(s, x);
            assert(t[p].0 == x);
        }
    }
    assert forall|x: K| assoc(t).dom().contains(x) implies assoc(t)[x] == m[x] by {
        let p = position(t, x);
        assert(0 <= p < t.len() && t[p].0 == x);
        assoc_at(t, p);
        assoc_at(s, p);
    }
    assert(assoc(t) =~= m);
}

/// Removing position `i` of a list without duplicates removes that element
/// from the set of elements.
pub proof fn set_remove<A>(s: Seq<A>, i: int)
    requires
        s.no_duplicates(),
        0 <= i < s.len(),
    ensures
        s.remove(i).no_duplicates(),
        s.remove(i).to_set() == s.to_set().remove(s[i]),
{
    let t = s.remove(i);
    assert forall|a: int, b: int| 0 <= a < t.len() && 0 <= b < t.len() && a != b implies t[a] != t[b] by {
        let a2 = if a < i { a } else { a + 1 };
        let b2 = if b < i { b } else { b + 1 };
        assert(s[a2] != s[b2]);
    }
    assert forall|x: A| t.to_set().contains(x) <==> s.to_set().remove(s[i]).contains(x) by {
        if t.contains(x) {
            let p = choose|p: int| 0 <= p < t.len() && t[p] == x;
            let p2 = if p < i { p } else { p + 1 };
            assert(s[p2] == x);
        }
        if s.contains(x) && x != s[i] {
            let p = choose|p: int| 0 <= p < s.len() && s[p] == x;
            let p2 = if p < i { p } else { p - 1 };
            assert(t[p2] == x);
        }
    }
    assert(t.to_set() =~= s.to_set().remove(s[i]));
}

/// Appending a new element to a list without duplicates inserts it into the
/// set of elements.
pub proof fn set_push<A>(s: Seq<A>, x: A)
    requires
        s.no_duplicates(),
        !s.contains(x),
    ensures
        s.push(x).no_duplicates(),
        s.push(x).to_set() == s.to_set().insert(x),
{
    let t = s.push(x);
    assert forall|y: A| t.to_set().contains(y) <==> s.to_set().insert(x).contains(y) by {
        if s.contains(y) {
            let p = choose|p: int| 0 <= p < s.len() && s[p] == y;
            assert(t[p] == y);
        }
        assert(t[s.len() as int] == x);
        if t.contains(y) {
            let p = choose|p: int| 0 <= p < t.len() && t[p] == y;
            if p < s.len() {
                assert(s[p] == y);
            }
        }
    }
    assert(t.to_set() =~= s.to_set().insert(x));
}

} // verus!
