//! Insertion-ordered association sequences: the common model behind capture
//! sets, header maps, and the shared state registry. A key occurs at most
//! once; inserting an existing key replaces its value in place, keeping the
//! key's original position.

use vstd::prelude::*;

verus! {

/// Whether some entry carries the key.
pub open spec fn assoc_has<K, V>(s: Seq<(K, V)>, k: K) -> bool {
    exists|i: int| 0 <= i < s.len() && s[i].0 == k
}

/// The value of the first entry carrying the key, if any.
pub open spec fn assoc_find<K, V>(s: Seq<(K, V)>, k: K) -> Option<V>
    decreases s.len(),
{
    if s.len() == 0 {
        None
    } else if s[0].0 == k {
        Some(s[0].1)
    } else {
        assoc_find(s.drop_first(), k)
    }
}

/// The sequence after a last-write-wins insert: the first entry carrying the
/// key is replaced in place; a fresh key is appended at the end.
pub open spec fn assoc_set<K, V>(s: Seq<(K, V)>, k: K, v: V) -> Seq<(K, V)>
    decreases s.len(),
{
    if s.len() == 0 {
        seq![(k, v)]
    } else if s[0].0 == k {
        seq![(k, v)] + s.drop_first()
    } else {
        seq![s[0]] + assoc_set(s.drop_first(), k, v)
    }
}

/// All inserts of one sequence applied to another, in order.
pub open spec fn assoc_set_all<K, V>(s: Seq<(K, V)>, other: Seq<(K, V)>) -> Seq<(K, V)>
    decreases other.len(),
{
    if other.len() == 0 {
        s
    } else {
        assoc_set_all(assoc_set(s, other[0].0, other[0].1), other.drop_first())
    }
}

/// No key occurs twice.
pub open spec fn assoc_unique<K, V>(s: Seq<(K, V)>) -> bool {
    forall|i: int, j: int| 0 <= i < j < s.len() ==> s[i].0 != s[j].0
}

/// A key is found exactly when some entry carries it.
pub proof fn lemma_assoc_find_has<K, V>(s: Seq<(K, V)>, k: K)
    ensures
        assoc_find(s, k) is Some <==> assoc_has(s, k),
    decreases s.len(),
{
    if s.len() > 0 && s[0].0 != k {
        lemma_assoc_find_has(s.drop_first(), k);
        assert(assoc_has(s.drop_first(), k) ==> assoc_has(s, k)) by {
            if assoc_has(s.drop_first(), k) {
                let i = choose|i: int|
                    0 <= i < s.drop_first().len() && s.drop_first()[i].0 == k;
                assert(s[i + 1].0 == k);
            }
        }
        assert(assoc_has(s, k) ==> assoc_has(s.drop_first(), k)) by {
            if assoc_has(s, k) {
                let i = choose|i: int| 0 <= i < s.len() && s[i].0 == k;
                assert(s.drop_first()[i - 1].0 == k);
            }
        }
    }
}

/// What a lookup sees after an insert: the inserted key maps to the new
/// value; every other key is untouched.
pub proof fn lemma_assoc_set_find<K, V>(s: Seq<(K, V)>, k: K, v: V, k2: K)
    ensures
        k2 == k ==> assoc_find(assoc_set(s, k, v), k2) == Some(v),
        k2 != k ==> assoc_find(assoc_set(s, k, v), k2) == assoc_find(s, k2),
    decreases s.len(),
{
    let t = assoc_set(s, k, v);
    if s.len() == 0 {
        assert(t == seq![(k, v)]);
        assert(t[0] == (k, v));
        assert(t.drop_first() =~= Seq::<(K, V)>::empty());
        if k2 != k {
            assert(assoc_find(t, k2) == assoc_find(t.drop_first(), k2));
            assert(assoc_find(Seq::<(K, V)>::empty(), k2) is None);
        }
    } else if s[0].0 == k {
        assert(t == seq![(k, v)] + s.drop_first());
        assert(t[0] == (k, v));
        assert(t.drop_first() =~= s.drop_first());
        if k2 != k {
            assert(assoc_find(t, k2) == assoc_find(s.drop_first(), k2));
            assert(assoc_find(s, k2) == assoc_find(s.drop_first(), k2));
        }
    } else {
        assert(t == seq![s[0]] + assoc_set(s.drop_first(), k, v));
        assert(t[0] == s[0]);
        assert(t.drop_first() =~= assoc_set(s.drop_first(), k, v));
        lemma_assoc_set_find(s.drop_first(), k, v, k2);
    }
}

/// The keys after an insert: the old keys, with the inserted key appended
/// when it was fresh.
pub proof fn lemma_assoc_set_keys<K, V>(s: Seq<(K, V)>, k: K, v: V)
    ensures
        assoc_has(s, k) ==> assoc_set(s, k, v).map_values(|p: (K, V)| p.0) =~= s.map_values(
            |p: (K, V)| p.0,
        ),
        !assoc_has(s, k) ==> assoc_set(s, k, v) =~= s.push((k, v)),
    decreases s.len(),
{
    let t = assoc_set(s, k, v);
    if s.len() == 0 {
    } else if s[0].0 == k {
        assert(t =~= seq![(k, v)] + s.drop_first());
        assert forall|i: int| 0 <= i < t.len() implies t[i].0 == s[i].0 by {
            if i > 0 {
                assert(t[i] == s.drop_first()[i - 1]);
            }
        }
        assert(t.map_values(|p: (K, V)| p.0) =~= s.map_values(|p: (K, V)| p.0));
    } else {
        lemma_assoc_set_keys(s.drop_first(), k, v);
        assert(!assoc_has(s.drop_first(), k) ==> !assoc_has(s, k)) by {
            if assoc_has(s, k) && s[0].0 != k {
                let i = choose|i: int| 0 <= i < s.len() && s[i].0 == k;
                assert(s.drop_first()[i - 1].0 == k);
            }
        }
        if assoc_has(s, k) {
            assert(assoc_has(s.drop_first(), k));
            let u = assoc_set(s.drop_first(), k, v);
            assert(t =~= seq![s[0]] + u);
            assert forall|i: int| 0 <= i < t.len() implies (#[trigger] t[i]).0 == s[i].0 by {
                if i > 0 {
                    assert(t[i] == u[i - 1]);
                    assert(u.map_values(|p: (K, V)| p.0)[i - 1] == s.drop_first().map_values(
                        |p: (K, V)| p.0,
                    )[i - 1]);
                    assert(u[i - 1].0 == s.drop_first()[i - 1].0);
                }
            }
            assert(t.map_values(|p: (K, V)| p.0) =~= s.map_values(|p: (K, V)| p.0));
        } else {
            assert(t =~= seq![s[0]] + s.drop_first().push((k, v)));
            assert(t =~= s.push((k, v)));
        }
    }
}

/// Inserting preserves key uniqueness.
pub proof fn lemma_assoc_set_unique<K, V>(s: Seq<(K, V)>, k: K, v: V)
    requires
        assoc_unique(s),
    ensures
        assoc_unique(assoc_set(s, k, v)),
    decreases s.len(),
{
    let t = assoc_set(s, k, v);
    if s.len() == 0 {
    } else if s[0].0 == k {
        assert(t =~= seq![(k, v)] + s.drop_first());
        assert(assoc_unique(s.drop_first()));
        assert forall|i: int, j: int| 0 <= i < j < t.len() implies t[i].0 != t[j].0 by {
            if i == 0 {
                assert(t[j] == s[j]);
                assert(s[0].0 != s[j].0);
            } else {
                assert(t[i] == s[i] && t[j] == s[j]);
            }
        }
    } else {
        assert(assoc_unique(s.drop_first())) by {
            assert(forall|i: int, j: int|
                0 <= i < j < s.drop_first().len() ==> s.drop_first()[i] == s[i + 1]
                    && s.drop_first()[j] == s[j + 1]);
        }
        lemma_assoc_set_unique(s.drop_first(), k, v);
        let u = assoc_set(s.drop_first(), k, v);
        assert(t =~= seq![s[0]] + u);
        assert forall|j: int| 0 <= j < u.len() implies s[0].0 != u[j].0 by {
            lemma_assoc_set_in_keys(s.drop_first(), k, v, j);
        }
        assert forall|i: int, j: int| 0 <= i < j < t.len() implies t[i].0 != t[j].0 by {
            if i > 0 {
                assert(t[i] == u[i - 1] && t[j] == u[j - 1]);
            } else {
                assert(t[j] == u[j - 1]);
            }
        }
    }
}

/// Every key present after an insert is the inserted key or an old key.
proof fn lemma_assoc_set_in_keys<K, V>(s: Seq<(K, V)>, k: K, v: V, j: int)
    requires
        0 <= j < assoc_set(s, k, v).len(),
    ensures
        assoc_set(s, k, v)[j].0 == k || assoc_has(s, assoc_set(s, k, v)[j].0),
    decreases s.len(),
{
    let t = assoc_set(s, k, v);
    if s.len() == 0 {
    } else if s[0].0 == k {
        if j > 0 {
            assert(t[j] == s[j]);
        }
    } else {
        if j == 0 {
            assert(t[0] == s[0]);
        } else {
            let u = assoc_set(s.drop_first(), k, v);
            assert(t[j] == u[j - 1]);
            lemma_assoc_set_in_keys(s.drop_first(), k, v, j - 1);
            if u[j - 1].0 != k {
                assert(assoc_has(s.drop_first(), u[j - 1].0));
                let i = choose|i: int|
                    0 <= i < s.drop_first().len() && s.drop_first()[i].0 == u[j - 1].0;
                assert(s[i + 1].0 == u[j - 1].0);
            }
        }
    }
}

/// An in-place update at the first position carrying the key is exactly an
/// associative insert.
pub proof fn lemma_assoc_set_prefix<K, V>(s: Seq<(K, V)>, k: K, v: V, i: int)
    requires
        0 <= i < s.len(),
        s[i].0 == k,
        forall|j: int| 0 <= j < i ==> s[j].0 != k,
    ensures
        assoc_set(s, k, v) == s.update(i, (k, v)),
    decreases i,
{
    if i == 0 {
        assert(assoc_set(s, k, v) == seq![(k, v)] + s.drop_first());
        assert(seq![(k, v)] + s.drop_first() =~= s.update(0, (k, v)));
    } else {
        assert(s[0].0 != k);
        assert(assoc_set(s, k, v) == seq![s[0]] + assoc_set(s.drop_first(), k, v));
        assert(s.drop_first()[i - 1].0 == k);
        assert(forall|j: int| 0 <= j < i - 1 ==> s.drop_first()[j] == s[j + 1]);
        lemma_assoc_set_prefix(s.drop_first(), k, v, i - 1);
        assert(seq![s[0]] + s.drop_first().update(i - 1, (k, v)) =~= s.update(i, (k, v)));
    }
}

/// Appending a fresh key is exactly an associative insert.
pub proof fn lemma_assoc_set_append<K, V>(s: Seq<(K, V)>, k: K, v: V)
    requires
        forall|j: int| 0 <= j < s.len() ==> s[j].0 != k,
    ensures
        assoc_set(s, k, v) == s.push((k, v)),
    decreases s.len(),
{
    if s.len() == 0 {
        assert(assoc_set(s, k, v) =~= s.push((k, v)));
    } else {
        assert(forall|j: int| 0 <= j < s.drop_first().len() ==> s.drop_first()[j] == s[j + 1]);
        lemma_assoc_set_append(s.drop_first(), k, v);
        assert(seq![s[0]] + s.drop_first().push((k, v)) =~= s.push((k, v)));
    }
}

} // verus!
