use vstd::prelude::*;

use crate::assoc::{assign, first_index, lemma_assign_lookup, lemma_first_index, lookup};
use crate::error::BlockError;
use crate::messages::AddSub;
use crate::types::{Grams, UInt256, GRAMS_MAX};

verus! {

/// `a` comes before `b` in the order of 256-bit keys: at the first byte where they differ,
/// `a` has the smaller one.
pub open spec fn key_lt(a: UInt256, b: UInt256) -> bool {
    exists|i: int| 0 <= i < 32 && a@[i] < b@[i] && forall|j: int| 0 <= j < i ==> a@[j] == b@[j]
}

/// The keys of `s` strictly increase.
pub open spec fn keys_increase(s: Seq<(UInt256, Grams)>) -> bool {
    forall|i: int, j: int| 0 <= i < j < s.len() ==> key_lt(#[trigger] s[i].0, #[trigger] s[j].0)
}

/// Compares two keys: negative when `a` comes first, zero when equal, positive otherwise.
fn compare_keys(a: &UInt256, b: &UInt256) -> (r: i8)
    ensures
        r == 0 <==> *a == *b,
        r < 0 <==> key_lt(*a, *b),
        r > 0 <==> key_lt(*b, *a),
{
    let x = a.as_array();
    let y = b.as_array();
    let mut i: usize = 0;
    while i < 32
        invariant
            i <= 32,
            x@ == a@,
            y@ == b@,
            a@.len() == 32 && b@.len() == 32,
            forall|j: int| 0 <= j < i ==> a@[j] == b@[j],
        decreases 32 - i,
    {
        if x[i] < y[i] {
            proof {
                lemma_key_order(*a, *b);
            }
            return -1;
        }
        if x[i] > y[i] {
            proof {
                lemma_key_order(*a, *b);
            }
            return 1;
        }
        i = i + 1;
    }
    proof {
        assert(a@ =~= b@);
        lemma_key_order(*a, *b);
    }
    0
}

/// The order of keys is a strict total order on keys.
pub proof fn lemma_key_order(a: UInt256, b: UInt256)
    ensures
        !key_lt(a, a),
        !(key_lt(a, b) && key_lt(b, a)),
        a@.len() == 32 && b@.len() == 32,
        a@ == b@ <==> a == b,
        a != b ==> key_lt(a, b) || key_lt(b, a),
{
    a.lemma_bytes(b);
    if key_lt(a, b) && key_lt(b, a) {
        let i = choose|i: int| 0 <= i < 32 && a@[i] < b@[i] && forall|j: int| 0 <= j < i ==> a@[j] == b@[j];
        let k = choose|k: int| 0 <= k < 32 && b@[k] < a@[k] && forall|j: int| 0 <= j < k ==> b@[j] == a@[j];
        if i < k {
            assert(b@[i] == a@[i]);
        } else if k < i {
            assert(a@[k] == b@[k]);
        }
    }
    if a != b {
        assert(!(a@ =~= b@));
        let i = choose|i: int| 0 <= i < 32 && a@[i] != b@[i];
        lemma_first_difference(a, b, i);
    }
}

proof fn lemma_first_difference(a: UInt256, b: UInt256, i: int)
    requires
        0 <= i < 32,
        a@[i] != b@[i],
        a@.len() == 32 && b@.len() == 32,
    ensures
        key_lt(a, b) || key_lt(b, a),
    decreases i,
{
    if forall|j: int| 0 <= j < i ==> a@[j] == b@[j] {
        if a@[i] < b@[i] {
            assert(key_lt(a, b));
        } else {
            assert(key_lt(b, a));
        }
    } else {
        let j = choose|j: int| 0 <= j < i && a@[j] != b@[j];
        lemma_first_difference(a, b, j);
    }
}

/// The order of keys is transitive.
pub proof fn lemma_key_transitive(a: UInt256, b: UInt256, c: UInt256)
    requires
        key_lt(a, b),
        key_lt(b, c),
    ensures
        key_lt(a, c),
{
    let i = choose|i: int| 0 <= i < 32 && a@[i] < b@[i] && forall|j: int| 0 <= j < i ==> a@[j] == b@[j];
    let k = choose|k: int| 0 <= k < 32 && b@[k] < c@[k] && forall|j: int| 0 <= j < k ==> b@[j] == c@[j];
    let m = if i < k { i } else { k };
    assert(a@[m] < c@[m]);
    assert(forall|j: int| 0 <= j < m ==> a@[j] == c@[j]);
}

/// The rewards that a list of entries gives: each key of the list to its amount.
pub open spec fn map_of(s: Seq<(UInt256, Grams)>) -> Map<UInt256, nat> {
    Map::new(|k: UInt256| lookup(s, k) is Some, |k: UInt256| lookup(s, k).unwrap()@)
}

/// In a list whose keys increase, a key is found exactly at its entry.
proof fn lemma_lookup_sorted(s: Seq<(UInt256, Grams)>, k: UInt256)
    requires
        keys_increase(s),
    ensures
        forall|i: int| 0 <= i < s.len() && #[trigger] s[i].0 == k ==> lookup(s, k) == Some(s[i].1),
        (forall|i: int| 0 <= i < s.len() ==> #[trigger] s[i].0 != k) ==> lookup(s, k) is None,
{
    lemma_first_index(s, k);
    lemma_key_order(k, k);
    assert forall|i: int| 0 <= i < s.len() && #[trigger] s[i].0 == k implies lookup(s, k) == Some(
        s[i].1,
    ) by {
        let f = first_index(s, k);
        if f < i {
            assert(key_lt(s[f].0, s[i].0));
        }
    }
}

/// The entry at `pos` replaced by one with the same key.
proof fn lemma_update_sorted(s: Seq<(UInt256, Grams)>, pos: int, value: Grams, k: UInt256)
    requires
        keys_increase(s),
        0 <= pos < s.len(),
    ensures
        keys_increase(s.update(pos, (s[pos].0, value))),
        lookup(s.update(pos, (s[pos].0, value)), k) == if k == s[pos].0 {
            Some(value)
        } else {
            lookup(s, k)
        },
{
    let key = s[pos].0;
    let t = s.update(pos, (key, value));
    assert forall|i: int, j: int| 0 <= i < j < t.len() implies key_lt(
        #[trigger] t[i].0,
        #[trigger] t[j].0,
    ) by {
        assert(t[i].0 == s[i].0 && t[j].0 == s[j].0);
    }
    lemma_lookup_sorted(s, key);
    lemma_first_index(s, key);
    lemma_key_order(key, key);
    let f = first_index(s, key);
    if f < pos {
        assert(key_lt(s[f].0, s[pos].0));
    }
    assert(t == assign(s, key, value));
    lemma_assign_lookup(s, key, value, k);
}

/// An entry inserted at `pos`, between the keys below its own and those above.
proof fn lemma_insert_sorted(s: Seq<(UInt256, Grams)>, pos: int, e: (UInt256, Grams), k: UInt256)
    requires
        keys_increase(s),
        0 <= pos <= s.len(),
        forall|j: int| 0 <= j < pos ==> key_lt(#[trigger] s[j].0, e.0),
        forall|j: int| pos <= j < s.len() ==> key_lt(e.0, #[trigger] s[j].0),
    ensures
        keys_increase(s.insert(pos, e)),
        lookup(s.insert(pos, e), k) == if k == e.0 {
            Some(e.1)
        } else {
            lookup(s, k)
        },
{
    let t = s.insert(pos, e);
    assert forall|i: int, j: int| 0 <= i < j < t.len() implies key_lt(
        #[trigger] t[i].0,
        #[trigger] t[j].0,
    ) by {
        if j < pos {
            assert(t[i] == s[i] && t[j] == s[j]);
        } else if j == pos {
            assert(t[i] == s[i]);
        } else if i < pos {
            assert(t[i] == s[i] && t[j] == s[j - 1]);
        } else if i == pos {
            assert(t[j] == s[j - 1]);
        } else {
            assert(t[i] == s[i - 1] && t[j] == s[j - 1]);
        }
    }
    lemma_lookup_sorted(s, k);
    lemma_lookup_sorted(t, k);
    if k == e.0 {
        assert(t[pos].0 == k);
    } else if lookup(s, k) is Some {
        lemma_first_index(s, k);
        let i = first_index(s, k);
        if i < pos {
            assert(t[i] == s[i]);
        } else {
            assert(t[i + 1] == s[i]);
        }
    } else {
        assert forall|j: int| 0 <= j < t.len() implies #[trigger] t[j].0 != k by {
            if j < pos {
                assert(t[j] == s[j]);
            } else if j > pos {
                assert(t[j] == s[j - 1]);
            }
        }
    }
}

/// The entry at `pos` removed.
proof fn lemma_remove_sorted(s: Seq<(UInt256, Grams)>, pos: int, k: UInt256)
    requires
        keys_increase(s),
        0 <= pos < s.len(),
    ensures
        keys_increase(s.remove(pos)),
        lookup(s.remove(pos), k) == if k == s[pos].0 {
            None
        } else {
            lookup(s, k)
        },
{
    let t = s.remove(pos);
    assert forall|i: int, j: int| 0 <= i < j < t.len() implies key_lt(
        #[trigger] t[i].0,
        #[trigger] t[j].0,
    ) by {
        let si = if i < pos { i } else { i + 1 };
        let sj = if j < pos { j } else { j + 1 };
        assert(t[i] == s[si] && t[j] == s[sj]);
    }
    lemma_lookup_sorted(s, k);
    lemma_lookup_sorted(t, k);
    lemma_key_order(k, k);
    if k == s[pos].0 {
        assert forall|j: int| 0 <= j < t.len() implies #[trigger] t[j].0 != k by {
            let sj = if j < pos { j } else { j + 1 };
            assert(t[j] == s[sj]);
            if sj < pos {
                assert(key_lt(s[sj].0, s[pos].0));
            } else {
                assert(key_lt(s[pos].0, s[sj].0));
            }
        }
    } else if lookup(s, k) is Some {
        lemma_first_index(s, k);
        let i = first_index(s, k);
        if i < pos {
            assert(t[i] == s[i]);
        } else {
            assert(t[i - 1] == s[i]);
        }
    } else {
        assert forall|j: int| 0 <= j < t.len() implies #[trigger] t[j].0 != k by {
            let sj = if j < pos { j } else { j + 1 };
            assert(t[j] == s[sj]);
        }
    }
}

/// The amounts of a list of entries.
pub open spec fn amounts(s: Seq<(UInt256, Grams)>) -> Seq<(UInt256, nat)> {
    s.map_values(|e: (UInt256, Grams)| (e.0, e.1@))
}

/// Merging the first `n` entries of `other`, in order, into the rewards `m`: each entry's
/// amount is added to what `m` holds for its account; a sum that reaches the threshold (when
/// there is one) leaves the rewards and is paid out, another one stays. Gives the rewards,
/// what was paid out, in order, and whether every sum fitted in `Grams` (the first one that
/// does not stops the merge).
pub open spec fn merged(
    m: Map<UInt256, nat>,
    other: Seq<(UInt256, Grams)>,
    threshold: Option<nat>,
    n: int,
) -> (Map<UInt256, nat>, Seq<(UInt256, nat)>, bool)
    decreases n,
{
    if n <= 0 {
        (m, Seq::empty(), true)
    } else {
        let prev = merged(m, other, threshold, n - 1);
        let key = other[n - 1].0;
        let total = other[n - 1].1@ + if prev.0.dom().contains(key) {
            prev.0[key]
        } else {
            0nat
        };
        if !prev.2 || total > GRAMS_MAX {
            (prev.0, prev.1, false)
        } else if threshold matches Some(t) && total >= t {
            (prev.0.remove(key), prev.1.push((key, total)), true)
        } else {
            (prev.0.insert(key, total), prev.1, true)
        }
    }
}

/// What the rewards held for `k` before a merge, zero when nothing.
pub open spec fn held(m: Map<UInt256, nat>, k: UInt256) -> nat {
    if m.dom().contains(k) {
        m[k]
    } else {
        0
    }
}

/// An account that none of the first `n` entries names keeps what it held.
proof fn lemma_merged_untouched(m: Map<UInt256, nat>, other: Seq<(UInt256, Grams)>, t: Option<nat>, n: int, k: UInt256)
    requires
        0 <= n <= other.len(),
        forall|j: int| 0 <= j < n ==> (#[trigger] other[j]).0 != k,
    ensures
        merged(m, other, t, n).0.dom().contains(k) == m.dom().contains(k),
        m.dom().contains(k) ==> merged(m, other, t, n).0[k] == m[k],
    decreases n,
{
    if n > 0 {
        lemma_merged_untouched(m, other, t, n - 1, k);
        assert(other[n - 1].0 != k);
    }
}

/// The account of entry `i`, once the first `n > i` entries are merged without stopping: its
/// sum (what it held plus the entry's amount) was paid out when it reached the threshold, and
/// is held otherwise.
proof fn lemma_merged_entry(m: Map<UInt256, nat>, other: Seq<(UInt256, Grams)>, t: nat, n: int, i: int)
    requires
        keys_increase(other),
        0 <= i < n <= other.len(),
        merged(m, other, Some(t), n).2,
    ensures
        ({
            let k = other[i].0;
            let total = other[i].1@ + held(m, k);
            let res = merged(m, other, Some(t), n);
            &&& total >= t ==> !res.0.dom().contains(k) && res.1.contains((k, total))
            &&& total < t ==> res.0.dom().contains(k) && res.0[k] == total
        }),
    decreases n,
{
    let k = other[i].0;
    let total = other[i].1@ + held(m, k);
    let prev = merged(m, other, Some(t), n - 1);
    let res = merged(m, other, Some(t), n);
    assert(prev.2);
    if i == n - 1 {
        assert forall|j: int| 0 <= j < n - 1 implies (#[trigger] other[j]).0 != k by {
            lemma_key_order(other[j].0, k);
        }
        lemma_merged_untouched(m, other, Some(t), n - 1, k);
        if total >= t {
            assert(res.1[res.1.len() - 1] == (k, total));
        }
    } else {
        lemma_merged_entry(m, other, t, n - 1, i);
        let key = other[n - 1].0;
        lemma_key_order(k, key);
        assert(key != k);
        if total >= t {
            let w = choose|x: int| 0 <= x < prev.1.len() && prev.1[x] == (k, total);
            if res.1.len() > prev.1.len() {
                assert(res.1[w] == (k, total));
            }
        }
    }
}

/// The account of entry `i`, once the first `n > i` entries are merged without a threshold and
/// without stopping, holds its sum: what it held plus the entry's amount.
proof fn lemma_merged_entry_plain(m: Map<UInt256, nat>, other: Seq<(UInt256, Grams)>, n: int, i: int)
    requires
        keys_increase(other),
        0 <= i < n <= other.len(),
        merged(m, other, None, n).2,
    ensures
        merged(m, other, None, n).0.dom().contains(other[i].0),
        merged(m, other, None, n).0[other[i].0] == other[i].1@ + held(m, other[i].0),
    decreases n,
{
    let k = other[i].0;
    let prev = merged(m, other, None, n - 1);
    assert(prev.2);
    if i == n - 1 {
        assert forall|j: int| 0 <= j < n - 1 implies (#[trigger] other[j]).0 != k by {
            lemma_key_order(other[j].0, k);
        }
        lemma_merged_untouched(m, other, None, n - 1, k);
    } else {
        lemma_merged_entry_plain(m, other, n - 1, i);
        lemma_key_order(k, other[n - 1].0);
    }
}

/// Without a threshold nothing is paid out, and a merge of entries with distinct accounts stops
/// exactly when some account's sum (what it held plus the entry's amount) is above `GRAMS_MAX`.
proof fn lemma_merged_plain_ok(m: Map<UInt256, nat>, other: Seq<(UInt256, Grams)>, n: int)
    requires
        keys_increase(other),
        0 <= n <= other.len(),
    ensures
        merged(m, other, None, n).1 == Seq::<(UInt256, nat)>::empty(),
        merged(m, other, None, n).2 <==> forall|i: int| 0 <= i < n ==> (#[trigger] other[i]).1@ + held(m, other[i].0) <= GRAMS_MAX,
    decreases n,
{
    if n > 0 {
        lemma_merged_plain_ok(m, other, n - 1);
        let k = other[n - 1].0;
        assert forall|j: int| 0 <= j < n - 1 implies (#[trigger] other[j]).0 != k by {
            lemma_key_order(other[j].0, k);
        }
        lemma_merged_untouched(m, other, None, n - 1, k);
        if merged(m, other, None, n).2 {
            assert forall|i: int| 0 <= i < n implies (#[trigger] other[i]).1@ + held(m, other[i].0) <= GRAMS_MAX by {
                if i == n - 1 {
                } else {
                    assert(merged(m, other, None, n - 1).2);
                }
            }
        }
    }
}

/// Merging without a threshold adds: when the accounts of `other` are distinct (in increasing
/// order), the merge succeeds exactly when every sum fits in `GRAMS_MAX`; then every account
/// that `other` names holds what it held plus the amount `other` gives it, every other account
/// keeps what it held, and nothing is paid out.
pub proof fn law_merge_adds(m: Map<UInt256, nat>, other: Seq<(UInt256, Grams)>, k: UInt256)
    requires
        keys_increase(other),
    ensures
        ({
            let res = merged(m, other, None, other.len() as int);
            &&& res.2 <==> forall|i: int| 0 <= i < other.len() ==> (#[trigger] other[i]).1@ + held(m, other[i].0)
                <= GRAMS_MAX
            &&& res.1 == Seq::<(UInt256, nat)>::empty()
            &&& res.2 ==> forall|i: int| 0 <= i < other.len() && (#[trigger] other[i]).0 == k ==> res.0.dom().contains(k)
                && res.0[k] == other[i].1@ + held(m, k)
            &&& res.2 && (forall|i: int| 0 <= i < other.len() ==> (#[trigger] other[i]).0 != k) ==> (res.0.dom().contains(k)
                == m.dom().contains(k) && (m.dom().contains(k) ==> res.0[k] == m[k]))
        }),
{
    lemma_merged_plain_ok(m, other, other.len() as int);
    let res = merged(m, other, None, other.len() as int);
    if res.2 {
        assert forall|i: int| 0 <= i < other.len() && (#[trigger] other[i]).0 == k implies res.0.dom().contains(k)
            && res.0[k] == other[i].1@ + held(m, k) by {
            lemma_merged_entry_plain(m, other, other.len() as int, i);
        }
        if forall|i: int| 0 <= i < other.len() ==> (#[trigger] other[i]).0 != k {
            lemma_merged_untouched(m, other, None, other.len() as int, k);
        }
    }
}

/// The accounts paid out by a merge of entries whose accounts increase come in increasing order,
/// each from one of the entries merged.
proof fn lemma_paid_in_order(m: Map<UInt256, nat>, other: Seq<(UInt256, Grams)>, t: Option<nat>, n: int)
    requires
        keys_increase(other),
        0 <= n <= other.len(),
    ensures
        forall|x: int|
            0 <= x < merged(m, other, t, n).1.len() ==> exists|j: int|
                0 <= j < n && other[j].0 == (#[trigger] merged(m, other, t, n).1[x]).0,
        forall|x: int, y: int|
            0 <= x < y < merged(m, other, t, n).1.len() ==> key_lt(
                (#[trigger] merged(m, other, t, n).1[x]).0,
                (#[trigger] merged(m, other, t, n).1[y]).0,
            ),
    decreases n,
{
    if n > 0 {
        lemma_paid_in_order(m, other, t, n - 1);
        let prev = merged(m, other, t, n - 1);
        let res = merged(m, other, t, n);
        let key = other[n - 1].0;
        assert forall|x: int| 0 <= x < res.1.len() implies exists|j: int|
            0 <= j < n && other[j].0 == (#[trigger] res.1[x]).0 by {
            if x < prev.1.len() {
                assert(res.1[x] == prev.1[x]);
                let j = choose|j: int| 0 <= j < n - 1 && other[j].0 == prev.1[x].0;
                assert(0 <= j < n && other[j].0 == res.1[x].0);
            } else {
                assert(res.1[x].0 == key);
                assert(0 <= n - 1 < n && other[n - 1].0 == res.1[x].0);
            }
        }
        assert forall|x: int, y: int| 0 <= x < y < res.1.len() implies key_lt(
            (#[trigger] res.1[x]).0,
            (#[trigger] res.1[y]).0,
        ) by {
            if y < prev.1.len() {
                assert(res.1[x] == prev.1[x] && res.1[y] == prev.1[y]);
            } else {
                assert(res.1[x] == prev.1[x]);
                assert(res.1[y].0 == key);
                let j = choose|j: int| 0 <= j < n - 1 && other[j].0 == prev.1[x].0;
                assert(key_lt(other[j].0, other[n - 1].0));
            }
        }
    }
}

/// Merging with a threshold pays out accounts in increasing order, each one named by `other`.
pub proof fn law_paid_in_order(m: Map<UInt256, nat>, other: Seq<(UInt256, Grams)>, t: nat)
    requires
        keys_increase(other),
    ensures
        ({
            let paid = merged(m, other, Some(t), other.len() as int).1;
            &&& forall|x: int, y: int| 0 <= x < y < paid.len() ==> key_lt((#[trigger] paid[x]).0, (#[trigger] paid[y]).0)
            &&& forall|x: int| 0 <= x < paid.len() ==> exists|j: int| 0 <= j < other.len() && other[j].0 == (#[trigger] paid[x]).0
        }),
{
    lemma_paid_in_order(m, other, Some(t), other.len() as int);
}

/// Merging with a threshold, when every sum fits: an account that `other` names ends with its
/// sum (what it held plus the amount `other` gives it) paid out when that sum reaches the
/// threshold and held when not; an account that `other` does not name keeps what it held.
pub proof fn law_merge_with_threshold(m: Map<UInt256, nat>, other: Seq<(UInt256, Grams)>, t: nat, k: UInt256)
    requires
        keys_increase(other),
        merged(m, other, Some(t), other.len() as int).2,
    ensures
        ({
            let res = merged(m, other, Some(t), other.len() as int);
            &&& forall|i: int| 0 <= i < other.len() && (#[trigger] other[i]).0 == k ==> {
                let total = other[i].1@ + held(m, k);
                &&& total >= t ==> !res.0.dom().contains(k) && res.1.contains((k, total))
                &&& total < t ==> res.0.dom().contains(k) && res.0[k] == total
            }
            &&& (forall|i: int| 0 <= i < other.len() ==> (#[trigger] other[i]).0 != k) ==> (res.0.dom().contains(k)
                == m.dom().contains(k) && (m.dom().contains(k) ==> res.0[k] == m[k]))
        }),
{
    assert forall|i: int| 0 <= i < other.len() && (#[trigger] other[i]).0 == k implies {
        let total = other[i].1@ + held(m, k);
        let res = merged(m, other, Some(t), other.len() as int);
        &&& total >= t ==> !res.0.dom().contains(k) && res.1.contains((k, total))
        &&& total < t ==> res.0.dom().contains(k) && res.0[k] == total
    } by {
        lemma_merged_entry(m, other, t, other.len() as int, i);
    }
    if forall|i: int| 0 <= i < other.len() ==> (#[trigger] other[i]).0 != k {
        lemma_merged_untouched(m, other, Some(t), other.len() as int, k);
    }
}

/// Once a merge has stopped, the later entries change nothing.
proof fn lemma_merged_stopped(
    m: Map<UInt256, nat>,
    other: Seq<(UInt256, Grams)>,
    threshold: Option<nat>,
    k: int,
    n: int,
)
    requires
        0 <= k <= n,
        !merged(m, other, threshold, k).2,
    ensures
        merged(m, other, threshold, n) == merged(m, other, threshold, k),
    decreases n - k,
{
    if k < n {
        lemma_merged_stopped(m, other, threshold, k, n - 1);
    }
}

/// Merging rewards into no rewards, without a threshold, gives the same rewards: every sum
/// fits, nothing is paid out, and each account keeps its amount.
pub proof fn law_merge_into_empty(other: Seq<(UInt256, Grams)>)
    requires
        keys_increase(other),
        forall|i: int| 0 <= i < other.len() ==> (#[trigger] other[i]).1@ <= GRAMS_MAX,
    ensures
        merged(Map::empty(), other, None, other.len() as int) == (
            map_of(other),
            Seq::<(UInt256, nat)>::empty(),
            true,
        ),
{
    lemma_merge_prefix_into_empty(other, other.len() as int);
    assert(other.take(other.len() as int) =~= other);
}

proof fn lemma_merge_prefix_into_empty(other: Seq<(UInt256, Grams)>, n: int)
    requires
        keys_increase(other),
        forall|i: int| 0 <= i < other.len() ==> (#[trigger] other[i]).1@ <= GRAMS_MAX,
        0 <= n <= other.len(),
    ensures
        merged(Map::empty(), other, None, n) == (
            map_of(other.take(n)),
            Seq::<(UInt256, nat)>::empty(),
            true,
        ),
    decreases n,
{
    if n == 0 {
        assert(map_of(other.take(0)) =~= Map::<UInt256, nat>::empty());
    } else {
        lemma_merge_prefix_into_empty(other, n - 1);
        let s = other.take(n - 1);
        let e = other[n - 1];
        assert(keys_increase(s));
        assert(other.take(n) =~= s.insert(n - 1, e));
        assert forall|j: int| 0 <= j < n - 1 implies key_lt(#[trigger] s[j].0, e.0) by {
            assert(s[j] == other[j]);
            assert(key_lt(other[j].0, other[n - 1].0));
        }
        assert forall|k: UInt256| #[trigger] lookup(other.take(n), k) == if k == e.0 {
            Some(e.1)
        } else {
            lookup(s, k)
        } by {
            lemma_insert_sorted(s, n - 1, e, k);
        }
        lemma_insert_sorted(s, n - 1, e, e.0);
        lemma_key_order(e.0, e.0);
        lemma_lookup_sorted(s, e.0);
        assert forall|i: int| 0 <= i < s.len() implies #[trigger] s[i].0 != e.0 by {
            assert(s[i] == other[i]);
            assert(key_lt(other[i].0, other[n - 1].0));
        }
        assert(!map_of(s).dom().contains(e.0));
        assert(map_of(other.take(n)) =~= map_of(s).insert(e.0, e.1@));
    }
}

/// A list of rewards in increasing order of account is determined by the rewards it gives:
/// two such lists that give the same rewards are the same list.
pub proof fn law_entries_determined(a: Seq<(UInt256, Grams)>, b: Seq<(UInt256, Grams)>)
    requires
        keys_increase(a),
        keys_increase(b),
        map_of(a) == map_of(b),
    ensures
        a == b,
    decreases a.len(),
{
    if a.len() == 0 {
        if b.len() > 0 {
            lemma_lookup_sorted(b, b[0].0);
            assert(map_of(b).dom().contains(b[0].0));
        }
        assert(a =~= b);
    } else {
        let k = a[0].0;
        lemma_lookup_sorted(a, k);
        assert(map_of(a).dom().contains(k));
        lemma_first_index(b, k);
        let j = first_index(b, k);
        assert(b.len() > 0);
        let kb = b[0].0;
        lemma_lookup_sorted(b, kb);
        assert(map_of(b).dom().contains(kb));
        lemma_first_index(a, kb);
        let i = first_index(a, kb);
        lemma_key_order(k, kb);
        if k != kb {
            if j > 0 {
                assert(key_lt(b[0].0, b[j].0));
            }
            if i > 0 {
                assert(key_lt(a[0].0, a[i].0));
            }
        }
        assert(kb == k);
        lemma_lookup_sorted(b, k);
        assert(map_of(a)[k] == a[0].1@ && map_of(b)[k] == b[0].1@);
        a[0].1.lemma_view_eq(b[0].1);
        let ta = a.drop_first();
        let tb = b.drop_first();
        assert(ta =~= a.remove(0));
        assert(tb =~= b.remove(0));
        assert forall|x: UInt256| #[trigger] lookup(ta, x) === lookup(tb, x) by {
            lemma_remove_sorted(a, 0, x);
            lemma_remove_sorted(b, 0, x);
            assert(ta == a.remove(0));
            assert(tb == b.remove(0));
            if x == k {
                assert(lookup(ta, x) is None);
                assert(lookup(tb, x) is None);
            } else {
                assert(lookup(ta, x) == lookup(a, x));
                assert(lookup(tb, x) == lookup(b, x));
                if lookup(a, x) is Some {
                    assert(map_of(a).dom().contains(x));
                    assert(map_of(b).dom().contains(x));
                    let u = lookup(a, x).unwrap();
                    let v = lookup(b, x).unwrap();
                    assert(map_of(a)[x] == u@);
                    assert(map_of(b)[x] == v@);
                    u.lemma_view_eq(v);
                    assert(u == v);
                    assert(lookup(a, x) === Some(u));
                    assert(lookup(b, x) === Some(v));
                } else {
                    assert(!map_of(a).dom().contains(x));
                    assert(!map_of(b).dom().contains(x));
                }
            }
        }
        lemma_remove_sorted(a, 0, k);
        lemma_remove_sorted(b, 0, k);
        assert(map_of(ta) =~= map_of(tb));
        law_entries_determined(ta, tb);
        assert(a =~= seq![a[0]] + ta);
        assert(b =~= seq![b[0]] + tb);
    }
}

/// The copyleft rewards not yet paid out, by account, kept in the order of the accounts.
#[derive(Debug, PartialEq, Eq)]
pub struct CopyleftRewards {
    rewards: Vec<(UInt256, Grams)>,
}

impl View for CopyleftRewards {
    type V = Map<UInt256, nat>;

    /// The reward of each account that has one.
    open spec fn view(&self) -> Map<UInt256, nat> {
        map_of(self.entries())
    }
}

impl Default for CopyleftRewards {
    fn default() -> (r: Self)
        ensures
            r@ == Map::<UInt256, nat>::empty(),
            r.entries() == Seq::<(UInt256, Grams)>::empty(),
    {
        let r = CopyleftRewards { rewards: Vec::new() };
        assert(r@ =~= Map::<UInt256, nat>::empty());
        r
    }
}

impl Clone for CopyleftRewards {
    fn clone(&self) -> (r: Self)
        ensures
            r.entries() == self.entries(),
    {
        proof {
            use_type_invariant(self);
        }
        let mut v: Vec<(UInt256, Grams)> = Vec::new();
        let n = self.rewards.len();
        let mut i: usize = 0;
        while i < n
            invariant
                i <= n,
                n == self.rewards@.len(),
                v@ == self.rewards@.subrange(0, i as int),
            decreases n - i,
        {
            v.push(self.rewards[i]);
            i = i + 1;
            proof {
                assert(v@ =~= self.rewards@.subrange(0, i as int));
            }
        }
        proof {
            assert(v@ =~= self.rewards@);
        }
        CopyleftRewards { rewards: v }
    }
}

impl CopyleftRewards {
    /// The accounts increase along the entries, and every amount fits in `Grams`.
    #[verifier::type_invariant]
    pub open spec fn inv(&self) -> bool {
        &&& keys_increase(self.entries())
        &&& forall|i: int|
            0 <= i < self.entries().len() ==> (#[trigger] self.entries()[i]).1@ <= GRAMS_MAX
    }

    /// The entries, in increasing order of account: the order in which they are walked.
    pub closed spec fn entries(&self) -> Seq<(UInt256, Grams)> {
        self.rewards@
    }

    /// Where `key` stands among the entries: the number of entries before it, and whether
    /// the entry there has this key.
    fn position(&self, key: &UInt256) -> (r: (usize, bool))
        ensures
            r.0 <= self.rewards@.len(),
            forall|j: int| 0 <= j < r.0 ==> key_lt(#[trigger] self.rewards@[j].0, *key),
            r.1 ==> r.0 < self.rewards@.len() && self.rewards@[r.0 as int].0 == *key,
            !r.1 ==> forall|j: int|
                r.0 <= j < self.rewards@.len() ==> key_lt(*key, #[trigger] self.rewards@[j].0),
    {
        proof {
            use_type_invariant(self);
        }
        let n = self.rewards.len();
        let mut i: usize = 0;
        while i < n
            invariant
                i <= n,
                n == self.rewards@.len(),
                keys_increase(self.rewards@),
                forall|j: int| 0 <= j < i ==> key_lt(#[trigger] self.rewards@[j].0, *key),
            decreases n - i,
        {
            let c = compare_keys(&self.rewards[i].0, key);
            if c == 0 {
                return (i, true);
            }
            if c > 0 {
                proof {
                    let s = self.rewards@;
                    assert forall|j: int| i <= j < n implies key_lt(*key, #[trigger] s[j].0) by {
                        if j > i {
                            lemma_key_transitive(*key, s[i as int].0, s[j].0);
                        }
                    }
                }
                return (i, false);
            }
            i = i + 1;
        }
        (i, false)
    }

    /// Whether both hold the same rewards.
    pub fn equals(&self, other: &Self) -> (r: bool)
        ensures
            r == (self@ == other@),
    {
        proof {
            use_type_invariant(self);
            use_type_invariant(other);
        }
        let n = self.rewards.len();
        if n != other.rewards.len() {
            proof {
                if self@ == other@ {
                    law_entries_determined(self.rewards@, other.rewards@);
                }
            }
            return false;
        }
        let mut i: usize = 0;
        while i < n
            invariant
                i <= n,
                n == self.rewards@.len() && n == other.rewards@.len(),
                keys_increase(self.rewards@) && keys_increase(other.rewards@),
                forall|j: int| 0 <= j < i ==> (#[trigger] self.rewards@[j]) == other.rewards@[j],
            decreases n - i,
        {
            let a = &self.rewards[i];
            let b = &other.rewards[i];
            if !a.0.equals(&b.0) || a.1.as_u128() != b.1.as_u128() {
                proof {
                    a.1.lemma_view_eq(b.1);
                    if self@ == other@ {
                        law_entries_determined(self.rewards@, other.rewards@);
                    }
                }
                return false;
            }
            proof {
                a.1.lemma_view_eq(b.1);
            }
            i = i + 1;
        }
        proof {
            assert(self.rewards@ =~= other.rewards@);
        }
        true
    }

    /// The reward of `key`, if it has one.
    pub fn get(&self, key: &UInt256) -> (r: Option<Grams>)
        ensures
            r is Some <==> self@.dom().contains(*key),
            r matches Some(g) ==> g@ == self@[*key],
    {
        proof {
            use_type_invariant(self);
            lemma_lookup_sorted(self.rewards@, *key);
        }
        let (pos, found) = self.position(key);
        if found {
            Some(self.rewards[pos].1)
        } else {
            proof {
                lemma_key_order(*key, *key);
            }
            None
        }
    }

    /// Sets the reward of `key` to `value`.
    pub fn set(&mut self, key: &UInt256, value: &Grams)
        ensures
            final(self)@ == old(self)@.insert(*key, value@),
    {
        proof {
            use_type_invariant(&*self);
            use_type_invariant(value);
        }
        let (pos, found) = self.position(key);
        let mut v: Vec<(UInt256, Grams)> = Vec::new();
        std::mem::swap(&mut v, &mut self.rewards);
        let ghost s = v@;
        if found {
            v.set(pos, (*key, *value));
            proof {
                assert forall|k: UInt256| #[trigger] lookup(v@, k) == if k == *key {
                    Some(*value)
                } else {
                    lookup(s, k)
                } by {
                    lemma_update_sorted(s, pos as int, *value, k);
                }
                lemma_update_sorted(s, pos as int, *value, *key);
            }
        } else {
            v.insert(pos, (*key, *value));
            proof {
                assert forall|k: UInt256| #[trigger] lookup(v@, k) == if k == *key {
                    Some(*value)
                } else {
                    lookup(s, k)
                } by {
                    lemma_insert_sorted(s, pos as int, (*key, *value), k);
                }
                lemma_insert_sorted(s, pos as int, (*key, *value), *key);
            }
        }
        self.rewards = v;
        proof {
            assert(self@ =~= map_of(s).insert(*key, value@));
        }
    }

    /// Removes the reward of `key`, if it has one.
    pub fn remove(&mut self, key: &UInt256)
        ensures
            final(self)@ == old(self)@.remove(*key),
    {
        proof {
            use_type_invariant(&*self);
        }
        let (pos, found) = self.position(key);
        if found {
            let mut v: Vec<(UInt256, Grams)> = Vec::new();
            std::mem::swap(&mut v, &mut self.rewards);
            let ghost s = v@;
            v.remove(pos);
            proof {
                assert forall|k: UInt256| #[trigger] lookup(v@, k) == if k == *key {
                    None
                } else {
                    lookup(s, k)
                } by {
                    lemma_remove_sorted(s, pos as int, k);
                }
                lemma_remove_sorted(s, pos as int, *key);
            }
            self.rewards = v;
            proof {
                assert(self@ =~= map_of(s).remove(*key));
            }
        } else {
            proof {
                lemma_key_order(*key, *key);
                lemma_lookup_sorted(self.rewards@, *key);
                assert(self@ =~= self@.remove(*key));
            }
        }
    }
}

impl CopyleftRewards {
    /// Adds `reward` to the reward of `reward_address`. Fails, and changes nothing, when the
    /// sum does not fit in `Grams`.
    pub fn add_copyleft_reward(&mut self, reward_address: &UInt256, reward: &Grams) -> (r: Result<
        (),
        BlockError,
    >)
        ensures
            ({
                let total = reward@ + if old(self)@.dom().contains(*reward_address) {
                    old(self)@[*reward_address]
                } else {
                    0nat
                };
                &&& r is Ok <==> total <= GRAMS_MAX
                &&& r is Ok ==> final(self)@ == old(self)@.insert(*reward_address, total)
                &&& r is Err ==> final(self)@ == old(self)@
            }),
    {
        proof {
            use_type_invariant(reward);
        }
        match self.get(reward_address) {
            Some(mut value) => {
                match value.add(reward) {
                    Ok(()) => {
                        self.set(reward_address, &value);
                        Ok(())
                    },
                    Err(e) => Err(e),
                }
            },
            None => {
                self.set(reward_address, reward);
                Ok(())
            },
        }
    }

    /// Merges `other` into the rewards, account by account in increasing order, paying out
    /// the sums that reach `threshold` when there is one.
    fn merge_from(&mut self, other: &Self, threshold: Option<Grams>) -> (r: Result<
        Vec<(UInt256, Grams)>,
        BlockError,
    >)
        ensures
            ({
                let thr = match threshold {
                    Some(t) => Some(t@),
                    None => None::<nat>,
                };
                let res = merged(old(self)@, other.entries(), thr, other.entries().len() as int);
                &&& r is Ok <==> res.2
                &&& final(self)@ == res.0
                &&& r matches Ok(sent) ==> amounts(sent@) == res.1
            }),
    {
        let ghost m = self@;
        let ghost thr = match threshold {
            Some(t) => Some(t@),
            None => None::<nat>,
        };
        let ghost o = other.entries();
        let n = other.rewards.len();
        let mut sent: Vec<(UInt256, Grams)> = Vec::new();
        let mut i: usize = 0;
        while i < n
            invariant
                i <= n,
                n == o.len(),
                o == other.entries(),
                thr == match threshold {
                    Some(t) => Some(t@),
                    None => None::<nat>,
                },
                m == old(self)@,
                merged(m, o, thr, i as int).2,
                self@ == merged(m, o, thr, i as int).0,
                amounts(sent@) == merged(m, o, thr, i as int).1,
            decreases n - i,
        {
            let (key, mut value) = other.rewards[i];
            let ghost prev = merged(m, o, thr, i as int);
            assert(o[i as int] == (key, value));
            proof {
                use_type_invariant(&value);
            }
            match self.get(&key) {
                Some(existing) => {
                    match value.add(&existing) {
                        Ok(()) => {},
                        Err(e) => {
                            proof {
                                let k = i + 1;
                                assert(merged(m, o, thr, k as int) == (prev.0, prev.1, false));
                                lemma_merged_stopped(m, o, thr, k as int, n as int);
                            }
                            return Err(e);
                        },
                    }
                },
                None => {},
            }
            let pay = match threshold {
                Some(t) => value.as_u128() >= t.as_u128(),
                None => false,
            };
            if pay {
                self.remove(&key);
                let ghost before = sent@;
                sent.push((key, value));
                proof {
                    assert(amounts(sent@) =~= amounts(before).push((key, value@)));
                }
            } else {
                self.set(&key, &value);
            }
            i = i + 1;
        }
        Ok(sent)
    }

    /// Merges `other` into the rewards: each account's reward in `other` is added to its
    /// reward here, account by account in increasing order. The first sum that does not fit
    /// in `Grams` stops the merge with an error, the accounts before it merged.
    pub fn merge_rewards(&mut self, other: &Self) -> (r: Result<(), BlockError>)
        ensures
            ({
                let res = merged(old(self)@, other.entries(), None, other.entries().len() as int);
                &&& r is Ok <==> res.2
                &&& final(self)@ == res.0
            }),
    {
        match self.merge_from(other, None) {
            Ok(_) => Ok(()),
            Err(e) => Err(e),
        }
    }

    /// Merges `other` into the rewards as `merge_rewards` does, except that an account whose
    /// sum reaches `threshold` leaves the rewards; those accounts and their sums are returned,
    /// in increasing order of account.
    pub fn merge_rewards_with_threshold(&mut self, other: &Self, threshold: &Grams) -> (r: Result<
        Vec<(UInt256, Grams)>,
        BlockError,
    >)
        ensures
            ({
                let res = merged(
                    old(self)@,
                    other.entries(),
                    Some(threshold@),
                    other.entries().len() as int,
                );
                &&& r is Ok <==> res.2
                &&& final(self)@ == res.0
                &&& r matches Ok(sent) ==> amounts(sent@) == res.1
            }),
    {
        self.merge_from(other, Some(*threshold))
    }
}

} // verus!
