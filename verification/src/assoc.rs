use vstd::prelude::*;

verus! {

/// The value that a list of key-value entries gives to `key`: that of its first entry
/// with this key, `None` when there is none.
pub open spec fn lookup<K, V>(s: Seq<(K, V)>, key: K) -> Option<V>
    decreases s.len(),
{
    if s.len() == 0 {
        None
    } else if s[0].0 == key {
        Some(s[0].1)
    } else {
        lookup(s.drop_first(), key)
    }
}

/// Index of the first entry with key `key` (the length when there is none).
pub open spec fn first_index<K, V>(s: Seq<(K, V)>, key: K) -> int
    decreases s.len(),
{
    if s.len() == 0 {
        0
    } else if s[0].0 == key {
        0
    } else {
        1 + first_index(s.drop_first(), key)
    }
}

/// The list after writing `value` under `key`: the first entry with this key is replaced,
/// or the entry is appended when there is none.
pub open spec fn assign<K, V>(s: Seq<(K, V)>, key: K, value: V) -> Seq<(K, V)> {
    if lookup(s, key) is Some {
        s.update(first_index(s, key), (key, value))
    } else {
        s.push((key, value))
    }
}

/// What the first index is: the position of the first entry with the key, or the length.
pub proof fn lemma_first_index<K, V>(s: Seq<(K, V)>, key: K)
    ensures
        0 <= first_index(s, key) <= s.len(),
        forall|j: int| 0 <= j < first_index(s, key) ==> s[j].0 != key,
        lookup(s, key) is Some <==> first_index(s, key) < s.len(),
        first_index(s, key) < s.len() ==> s[first_index(s, key)].0 == key && lookup(s, key)
            == Some(s[first_index(s, key)].1),
    decreases s.len(),
{
    if s.len() > 0 && s[0].0 != key {
        let t = s.drop_first();
        lemma_first_index(t, key);
        assert forall|j: int| 0 <= j < first_index(s, key) implies s[j].0 != key by {
            if j > 0 {
                assert(s[j] == t[j - 1]);
            }
        }
    }
}

/// Writing a value and looking it up gives it back; other keys keep their values.
pub proof fn lemma_assign_lookup<K, V>(s: Seq<(K, V)>, key: K, value: V, other: K)
    ensures
        lookup(assign(s, key, value), other) == if other == key {
            Some(value)
        } else {
            lookup(s, other)
        },
{
    lemma_first_index(s, key);
    if lookup(s, key) is Some {
        lemma_update_lookup(s, first_index(s, key), key, value, other);
    } else {
        lemma_push_lookup(s, key, value, other);
    }
}

proof fn lemma_update_lookup<K, V>(s: Seq<(K, V)>, i: int, key: K, value: V, other: K)
    requires
        0 <= i < s.len(),
        s[i].0 == key,
        forall|j: int| 0 <= j < i ==> s[j].0 != key,
    ensures
        lookup(s.update(i, (key, value)), other) == if other == key {
            Some(value)
        } else {
            lookup(s, other)
        },
    decreases i,
{
    let t = s.update(i, (key, value));
    if i == 0 {
        assert(t.drop_first() =~= s.drop_first());
    } else {
        assert(t[0] == s[0]);
        let u = s.drop_first();
        assert forall|j: int| 0 <= j < i - 1 implies u[j].0 != key by {
            assert(u[j] == s[j + 1]);
        }
        assert(t.drop_first() =~= u.update(i - 1, (key, value)));
        lemma_update_lookup(u, i - 1, key, value, other);
    }
}

proof fn lemma_push_lookup<K, V>(s: Seq<(K, V)>, key: K, value: V, other: K)
    requires
        lookup(s, key) is None,
    ensures
        lookup(s.push((key, value)), other) == if other == key {
            Some(value)
        } else {
            lookup(s, other)
        },
    decreases s.len(),
{
    let t = s.push((key, value));
    if s.len() == 0 {
        assert(t[0] == (key, value));
        assert(t.drop_first() =~= Seq::<(K, V)>::empty());
    } else {
        assert(t[0] == s[0]);
        assert(t.drop_first() =~= s.drop_first().push((key, value)));
        lemma_push_lookup(s.drop_first(), key, value, other);
    }
}

} // verus!
