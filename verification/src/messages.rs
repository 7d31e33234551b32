use vstd::prelude::*;

use crate::error::{message, BlockError};
use crate::slice_text::{parse_slice_chars, parsed_slice, tagged_bit_len, tagged_len_at_most};
use crate::text::{bool_chars, chars_of, find_char, parse_i32, push_bool, read_i32, split_first};
use crate::types::{Grams, UInt256, VarUInteger32, GRAMS_MAX, MAX_DATA_BITS, MAX_REFERENCES_COUNT};

verus! {

/// Sorted, duplicate-free keys.
pub open spec fn keys_sorted(s: Seq<(u32, VarUInteger32)>) -> bool {
    forall|i: int, j: int| 0 <= i < j < s.len() ==> #[trigger] s[i].0 < #[trigger] s[j].0
}

/// Every amount fits the `VarUInteger 32` encoding.
pub open spec fn values_valid(s: Seq<(u32, VarUInteger32)>) -> bool {
    forall|i: int| 0 <= i < s.len() ==> (#[trigger] s[i]).1.is_valid()
}

/// The currency-id to amount map held by a sequence of entries.
pub open spec fn entries_map(s: Seq<(u32, VarUInteger32)>) -> Map<u32, nat> {
    Map::new(
        |k: u32| exists|i: int| 0 <= i < s.len() && (#[trigger] s[i]).0 == k,
        |k: u32| s[choose|i: int| 0 <= i < s.len() && (#[trigger] s[i]).0 == k].1@,
    )
}

/// Amount of currency `k` in `m`, zero when absent.
pub open spec fn amount_of(m: Map<u32, nat>, k: u32) -> nat {
    if m.contains_key(k) {
        m[k]
    } else {
        0
    }
}

/// Pointwise sum of two currency maps (keys of either).
pub open spec fn sum_map(a: Map<u32, nat>, b: Map<u32, nat>) -> Map<u32, nat> {
    Map::new(|k: u32| a.contains_key(k) || b.contains_key(k), |k: u32| amount_of(a, k) + amount_of(b, k))
}

/// Every currency present in both maps still fits `VarUInteger 32` after adding.
pub open spec fn sum_fits(a: Map<u32, nat>, b: Map<u32, nat>) -> bool {
    forall|k: u32| a.contains_key(k) && b.contains_key(k) ==> #[trigger] a[k] + b[k] <= VarUInteger32::max_value()
}

/// Every currency of `b` is present in `a` with at least the same amount.
pub open spec fn covers_amounts(a: Map<u32, nat>, b: Map<u32, nat>) -> bool {
    forall|k: u32| b.contains_key(k) ==> a.contains_key(k) && #[trigger] b[k] <= a[k]
}

/// `a` with the amounts of `b` taken off (keys of `a`).
pub open spec fn diff_map(a: Map<u32, nat>, b: Map<u32, nat>) -> Map<u32, nat> {
    Map::new(|k: u32| a.contains_key(k), |k: u32| (a[k] - amount_of(b, k)) as nat)
}

proof fn lemma_map_at(s: Seq<(u32, VarUInteger32)>, i: int)
    requires
        keys_sorted(s),
        0 <= i < s.len(),
    ensures
        entries_map(s).contains_key(s[i].0),
        entries_map(s)[s[i].0] == s[i].1@,
{
    let k = s[i].0;
    assert(0 <= i < s.len() && s[i].0 == k);
    let j = choose|j: int| 0 <= j < s.len() && (#[trigger] s[j]).0 == k;
    if j < i {
        assert(s[j].0 < s[i].0);
    } else if j > i {
        assert(s[i].0 < s[j].0);
    }
}

proof fn lemma_map_absent(s: Seq<(u32, VarUInteger32)>, k: u32)
    requires
        forall|i: int| 0 <= i < s.len() ==> (#[trigger] s[i]).0 != k,
    ensures
        !entries_map(s).contains_key(k),
{
}

proof fn lemma_map_push(s: Seq<(u32, VarUInteger32)>, e: (u32, VarUInteger32))
    requires
        keys_sorted(s.push(e)),
    ensures
        entries_map(s.push(e)) =~= entries_map(s).insert(e.0, e.1@),
        keys_sorted(s),
{
    let t = s.push(e);
    assert(keys_sorted(s)) by {
        assert forall|i: int, j: int| 0 <= i < j < s.len() implies #[trigger] s[i].0 < #[trigger] s[j].0 by {
            assert(t[i] == s[i] && t[j] == s[j]);
        }
    }
    lemma_map_at(t, s.len() as int);
    assert forall|k: u32| #[trigger] entries_map(t).contains_key(k) == entries_map(s).insert(e.0, e.1@).contains_key(k) by {
        if entries_map(s).contains_key(k) {
            let i = choose|i: int| 0 <= i < s.len() && (#[trigger] s[i]).0 == k;
            assert(t[i] == s[i]);
        }
        if entries_map(t).contains_key(k) && k != e.0 {
            let i = choose|i: int| 0 <= i < t.len() && (#[trigger] t[i]).0 == k;
            assert(i < s.len());
            assert(t[i] == s[i]);
        }
    }
    assert forall|k: u32| #[trigger] entries_map(t).contains_key(k) implies entries_map(t)[k] == entries_map(s).insert(e.0, e.1@)[k] by {
        if k != e.0 {
            let i = choose|i: int| 0 <= i < t.len() && (#[trigger] t[i]).0 == k;
            assert(i < s.len());
            assert(t[i] == s[i]);
            lemma_map_at(t, i);
            lemma_map_at(s, i);
        }
    }
}

proof fn lemma_map_update(s: Seq<(u32, VarUInteger32)>, i: int, v: VarUInteger32)
    requires
        keys_sorted(s),
        0 <= i < s.len(),
    ensures
        keys_sorted(s.update(i, (s[i].0, v))),
        entries_map(s.update(i, (s[i].0, v))) =~= entries_map(s).insert(s[i].0, v@),
{
    let t = s.update(i, (s[i].0, v));
    assert(keys_sorted(t)) by {
        assert forall|a: int, b: int| 0 <= a < b < t.len() implies #[trigger] t[a].0 < #[trigger] t[b].0 by {
            assert(s[a].0 < s[b].0);
        }
    }
    lemma_map_at(t, i);
    assert forall|k: u32| #[trigger] entries_map(t).contains_key(k) == entries_map(s).insert(s[i].0, v@).contains_key(k) by {
        if entries_map(s).contains_key(k) {
            let j = choose|j: int| 0 <= j < s.len() && (#[trigger] s[j]).0 == k;
            assert(t[j].0 == s[j].0);
        }
        if entries_map(t).contains_key(k) {
            let j = choose|j: int| 0 <= j < t.len() && (#[trigger] t[j]).0 == k;
            assert(t[j].0 == s[j].0);
        }
    }
    assert forall|k: u32| #[trigger] entries_map(t).contains_key(k) implies entries_map(t)[k] == entries_map(s).insert(s[i].0, v@)[k] by {
        if k != s[i].0 {
            let j = choose|j: int| 0 <= j < t.len() && (#[trigger] t[j]).0 == k;
            assert(j != i);
            assert(t[j] == s[j]);
            lemma_map_at(t, j);
            lemma_map_at(s, j);
        }
    }
}

proof fn lemma_map_insert(s: Seq<(u32, VarUInteger32)>, i: int, e: (u32, VarUInteger32))
    requires
        keys_sorted(s),
        0 <= i <= s.len(),
        forall|j: int| 0 <= j < i ==> (#[trigger] s[j]).0 < e.0,
        i < s.len() ==> e.0 < s[i].0,
    ensures
        keys_sorted(s.insert(i, e)),
        entries_map(s.insert(i, e)) =~= entries_map(s).insert(e.0, e.1@),
{
    let t = s.insert(i, e);
    assert(keys_sorted(t)) by {
        assert forall|a: int, b: int| 0 <= a < b < t.len() implies #[trigger] t[a].0 < #[trigger] t[b].0 by {
            if b < i {
                assert(t[a] == s[a] && t[b] == s[b]);
            } else if b == i {
                assert(t[a] == s[a]);
            } else if a < i {
                assert(t[a] == s[a] && t[b] == s[b - 1]);
                assert(s[a].0 < e.0);
                assert(e.0 < s[i].0);
                assert(i <= b - 1);
                if i < b - 1 {
                    assert(s[i].0 < s[b - 1].0);
                }
            } else if a == i {
                assert(t[b] == s[b - 1]);
                if i < b - 1 {
                    assert(s[i].0 < s[b - 1].0);
                }
            } else {
                assert(t[a] == s[a - 1] && t[b] == s[b - 1]);
            }
        }
    }
    lemma_map_at(t, i);
    assert forall|k: u32| #[trigger] entries_map(t).contains_key(k) == entries_map(s).insert(e.0, e.1@).contains_key(k) by {
        if entries_map(s).contains_key(k) {
            let j = choose|j: int| 0 <= j < s.len() && (#[trigger] s[j]).0 == k;
            if j < i {
                assert(t[j] == s[j]);
            } else {
                assert(t[j + 1] == s[j]);
            }
        }
        if entries_map(t).contains_key(k) && k != e.0 {
            let j = choose|j: int| 0 <= j < t.len() && (#[trigger] t[j]).0 == k;
            if j < i {
                assert(t[j] == s[j]);
            } else if j > i {
                assert(t[j] == s[j - 1]);
            }
        }
    }
    assert forall|k: u32| #[trigger] entries_map(t).contains_key(k) implies entries_map(t)[k] == entries_map(s).insert(e.0, e.1@)[k] by {
        if k != e.0 {
            let j = choose|j: int| 0 <= j < t.len() && (#[trigger] t[j]).0 == k;
            lemma_map_at(t, j);
            if j < i {
                assert(t[j] == s[j]);
                lemma_map_at(s, j);
            } else {
                assert(j != i);
                assert(t[j] == s[j - 1]);
                lemma_map_at(s, j - 1);
            }
        }
    }
}

/// Entries with the same keys and amounts in the same places hold the same map.
proof fn lemma_same_entries(s: Seq<(u32, VarUInteger32)>, t: Seq<(u32, VarUInteger32)>)
    requires
        keys_sorted(s),
        keys_sorted(t),
        s.len() == t.len(),
        forall|i: int| 0 <= i < s.len() ==> (#[trigger] s[i]).0 == t[i].0 && s[i].1@ == t[i].1@,
    ensures
        entries_map(s) == entries_map(t),
{
    assert forall|k: u32| #[trigger] entries_map(s).contains_key(k) == entries_map(t).contains_key(k) by {
        if entries_map(s).contains_key(k) {
            let i = choose|i: int| 0 <= i < s.len() && (#[trigger] s[i]).0 == k;
            assert(t[i].0 == k);
        }
        if entries_map(t).contains_key(k) {
            let i = choose|i: int| 0 <= i < t.len() && (#[trigger] t[i]).0 == k;
            assert(s[i].0 == k);
        }
    }
    assert forall|k: u32| #[trigger] entries_map(s).contains_key(k) implies entries_map(s)[k] == entries_map(t)[k] by {
        let i = choose|i: int| 0 <= i < s.len() && (#[trigger] s[i]).0 == k;
        lemma_map_at(s, i);
        lemma_map_at(t, i);
    }
    assert(entries_map(s) =~= entries_map(t));
}

/// Sorted entries that agree on their first keys and then differ in a key, or in an amount,
/// or where one list goes on after the other ends, hold different maps.
proof fn lemma_entries_differ(s: Seq<(u32, VarUInteger32)>, t: Seq<(u32, VarUInteger32)>, i: int)
    requires
        keys_sorted(s),
        keys_sorted(t),
        0 <= i <= s.len(),
        i <= t.len(),
        forall|j: int| 0 <= j < i ==> (#[trigger] s[j]).0 == t[j].0,
        (i < s.len() && i < t.len() && (s[i].0 != t[i].0 || s[i].1@ != t[i].1@)) || (i == t.len() && i < s.len())
            || (i == s.len() && i < t.len()),
    ensures
        entries_map(s) != entries_map(t),
{
    if i < s.len() && i < t.len() {
        lemma_map_at(s, i);
        lemma_map_at(t, i);
        if s[i].0 != t[i].0 {
            if s[i].0 < t[i].0 {
                if entries_map(s) == entries_map(t) {
                    let k = s[i].0;
                    assert(entries_map(t).contains_key(k));
                    let j = choose|j: int| 0 <= j < t.len() && (#[trigger] t[j]).0 == k;
                    if j < i {
                        assert(s[j].0 < s[i].0);
                    } else if j > i {
                        assert(t[i].0 < t[j].0);
                    }
                }
            } else {
                if entries_map(s) == entries_map(t) {
                    let k = t[i].0;
                    assert(entries_map(s).contains_key(k));
                    let j = choose|j: int| 0 <= j < s.len() && (#[trigger] s[j]).0 == k;
                    if j < i {
                        assert(t[j].0 < t[i].0);
                    } else if j > i {
                        assert(s[i].0 < s[j].0);
                    }
                }
            }
        }
    } else if i < s.len() {
        lemma_map_at(s, i);
        if entries_map(s) == entries_map(t) {
            let k = s[i].0;
            assert(entries_map(t).contains_key(k));
            let j = choose|j: int| 0 <= j < t.len() && (#[trigger] t[j]).0 == k;
            assert(s[j].0 < s[i].0);
        }
    } else {
        lemma_map_at(t, i);
        if entries_map(s) == entries_map(t) {
            let k = t[i].0;
            assert(entries_map(s).contains_key(k));
            let j = choose|j: int| 0 <= j < s.len() && (#[trigger] s[j]).0 == k;
            assert(t[j].0 < t[i].0);
        }
    }
}

///
/// Amounts of currencies other than grams, by currency id
/// (`HashmapE 32 (VarUInteger 32)`); entries are kept in increasing key order.
///
#[derive(Debug, PartialEq, Eq)]
pub struct ExtraCurrencyCollection {
    entries: Vec<(u32, VarUInteger32)>,
}

impl View for ExtraCurrencyCollection {
    type V = Map<u32, nat>;

    closed spec fn view(&self) -> Map<u32, nat> {
        entries_map(self.entries@)
    }
}

impl Default for ExtraCurrencyCollection {
    fn default() -> (r: Self)
        ensures
            r@ == Map::<u32, nat>::empty(),
    {
        Self::new()
    }
}

impl Clone for ExtraCurrencyCollection {
    fn clone(&self) -> (r: Self)
        ensures
            r@ == self@,
    {
        proof {
            use_type_invariant(self);
        }
        let mut entries: Vec<(u32, VarUInteger32)> = Vec::new();
        let mut i: usize = 0;
        while i < self.entries.len()
            invariant
                keys_sorted(self.entries@),
                values_valid(self.entries@),
                i <= self.entries@.len(),
                entries@ == self.entries@.take(i as int),
            decreases self.entries@.len() - i,
        {
            entries.push(self.entries[i]);
            i = i + 1;
            assert(entries@ =~= self.entries@.take(i as int));
        }
        assert(entries@ =~= self.entries@);
        ExtraCurrencyCollection { entries }
    }
}

impl ExtraCurrencyCollection {
    #[verifier::type_invariant]
    closed spec fn inv(&self) -> bool {
        keys_sorted(self.entries@) && values_valid(self.entries@)
    }

    /// Every amount held fits the `VarUInteger 32` encoding.
    pub closed spec fn amounts_valid(&self) -> bool {
        forall|k: u32| #[trigger] self@.contains_key(k) ==> self@[k] <= VarUInteger32::max_value()
    }

    proof fn lemma_amounts_valid(&self)
        requires
            self.inv(),
        ensures
            self.amounts_valid(),
    {
        assert forall|k: u32| #[trigger] self@.contains_key(k) implies self@[k] <= VarUInteger32::max_value() by {
            let i = choose|i: int| 0 <= i < self.entries@.len() && (#[trigger] self.entries@[i]).0 == k;
            lemma_map_at(self.entries@, i);
        }
    }

    /// The empty collection.
    pub fn new() -> (r: Self)
        ensures
            r@ == Map::<u32, nat>::empty(),
    {
        let r = ExtraCurrencyCollection { entries: Vec::new() };
        assert(r@ =~= Map::<u32, nat>::empty());
        r
    }

    /// No currency is present.
    pub fn is_empty(&self) -> (r: bool)
        ensures
            r == (self@ == Map::<u32, nat>::empty()),
    {
        if self.entries.len() == 0 {
            assert(self@ =~= Map::<u32, nat>::empty());
            true
        } else {
            proof {
                use_type_invariant(self);
                lemma_map_at(self.entries@, 0);
            }
            false
        }
    }

    /// Number of currencies present.
    pub fn len(&self) -> (r: usize)
        ensures
            r == self@.dom().len(),
    {
        proof {
            use_type_invariant(self);
            lemma_dom_len(self.entries@);
        }
        self.entries.len()
    }


    /// Adds every amount of `other`; fails (leaving `self` unchanged) when some sum exceeds `VarUInteger 32`.
    pub fn add(&mut self, other: &Self) -> (r: Result<(), BlockError>)
        ensures
            sum_fits(old(self)@, other@) <==> r is Ok,
            r is Ok ==> final(self)@ == sum_map(old(self)@, other@),
            r is Err ==> final(self)@ == old(self)@,
    {
        proof {
            use_type_invariant(&*self);
            use_type_invariant(other);
            self.lemma_amounts_valid();
        }
        let mut result = self.clone();
        let ghost a0 = self@;
        let mut j: usize = 0;
        proof {
            assert(other.entries@.take(0) =~= Seq::<(u32, VarUInteger32)>::empty());
            assert(entries_map(other.entries@.take(0)) =~= Map::<u32, nat>::empty());
            assert(result@ =~= sum_map(a0, entries_map(other.entries@.take(0))));
        }
        while j < other.entries.len()
            invariant
                keys_sorted(other.entries@),
                values_valid(other.entries@),
                j <= other.entries@.len(),
                a0 == self@,
                self.amounts_valid(),
                result@ == sum_map(a0, entries_map(other.entries@.take(j as int))),
                sum_fits(a0, entries_map(other.entries@.take(j as int))),
            decreases other.entries@.len() - j,
        {
            let (k, b) = other.entries[j];
            let ghost m = entries_map(other.entries@.take(j as int));
            let ghost next = other.entries@.take(j as int + 1);
            proof {
                assert(next =~= other.entries@.take(j as int).push(other.entries@[j as int]));
                assert(keys_sorted(next)) by {
                    assert forall|x: int, y: int| 0 <= x < y < next.len() implies #[trigger] next[x].0 < #[trigger] next[y].0 by {
                        assert(next[x] == other.entries@[x] && next[y] == other.entries@[y]);
                    }
                }
                lemma_map_push(other.entries@.take(j as int), other.entries@[j as int]);
                assert(!m.contains_key(k)) by {
                    if m.contains_key(k) {
                        let i = choose|i: int| 0 <= i < other.entries@.take(j as int).len() && (#[trigger] other.entries@.take(j as int)[i]).0 == k;
                        assert(other.entries@[i].0 < other.entries@[j as int].0);
                    }
                }
                lemma_map_at(other.entries@, j as int);
                assert(b.is_valid());
            }
            match self.get(k) {
                Some(a) => {
                    let mut a = a;
                    if a.add(&b).is_err() {
                        proof {
                            assert(self@.contains_key(k) && other@.contains_key(k));
                            assert(!(self@[k] + other@[k] <= VarUInteger32::max_value()));
                        }
                        return Err(BlockError::InvalidArg(crate::error::message("VarUInteger32 overflow")));
                    }
                    result.set(k, &a);
                }
                None => {
                    result.set(k, &b);
                }
            }
            proof {
                assert(result@ =~= sum_map(a0, entries_map(next)));
                assert(sum_fits(a0, entries_map(next))) by {
                    assert forall|x: u32| a0.contains_key(x) && entries_map(next).contains_key(x) implies #[trigger] a0[x] + entries_map(next)[x] <= VarUInteger32::max_value() by {
                        if x != k {
                            assert(m.contains_key(x));
                        }
                    }
                }
            }
            j = j + 1;
        }
        proof {
            assert(other.entries@.take(other.entries@.len() as int) =~= other.entries@);
        }
        *self = result;
        Ok(())
    }

    /// Subtracts every amount of `other` when `self` holds at least that much of each; returns whether it did.
    pub fn sub(&mut self, other: &Self) -> (r: bool)
        ensures
            r == covers_amounts(old(self)@, other@),
            r ==> final(self)@ == diff_map(old(self)@, other@),
            !r ==> final(self)@ == old(self)@,
    {
        proof {
            use_type_invariant(&*self);
            use_type_invariant(other);
        }
        let mut result = self.clone();
        let ghost a0 = self@;
        let mut j: usize = 0;
        proof {
            assert(other.entries@.take(0) =~= Seq::<(u32, VarUInteger32)>::empty());
            assert(entries_map(other.entries@.take(0)) =~= Map::<u32, nat>::empty());
            assert(result@ =~= diff_map(a0, entries_map(other.entries@.take(0))));
        }
        while j < other.entries.len()
            invariant
                keys_sorted(other.entries@),
                values_valid(other.entries@),
                j <= other.entries@.len(),
                a0 == self@,
                result@ == diff_map(a0, entries_map(other.entries@.take(j as int))),
                covers_amounts(a0, entries_map(other.entries@.take(j as int))),
            decreases other.entries@.len() - j,
        {
            let (k, b) = other.entries[j];
            let ghost m = entries_map(other.entries@.take(j as int));
            let ghost next = other.entries@.take(j as int + 1);
            proof {
                assert(next =~= other.entries@.take(j as int).push(other.entries@[j as int]));
                assert(keys_sorted(next)) by {
                    assert forall|x: int, y: int| 0 <= x < y < next.len() implies #[trigger] next[x].0 < #[trigger] next[y].0 by {
                        assert(next[x] == other.entries@[x] && next[y] == other.entries@[y]);
                    }
                }
                lemma_map_push(other.entries@.take(j as int), other.entries@[j as int]);
                assert(!m.contains_key(k)) by {
                    if m.contains_key(k) {
                        let i = choose|i: int| 0 <= i < other.entries@.take(j as int).len() && (#[trigger] other.entries@.take(j as int)[i]).0 == k;
                        assert(other.entries@[i].0 < other.entries@[j as int].0);
                    }
                }
                lemma_map_at(other.entries@, j as int);
            }
            match self.get(k) {
                Some(a) => {
                    if a.less_than(&b) {
                        return false;
                    }
                    proof {
                        assert(b@ <= a0[k]);
                        assert(entries_map(next)[k] == b@);
                    }
                    let mut a = a;
                    a.sub(&b);
                    result.set(k, &a);
                }
                None => {
                    return false;
                }
            }
            proof {
                assert(a0.contains_key(k) && b@ <= a0[k]);
                assert(entries_map(next)[k] == b@);
                assert(result@ =~= diff_map(a0, entries_map(next)));
                let mn = entries_map(next);
                assert forall|x: u32| #[trigger] mn.contains_key(x) implies a0.contains_key(x) && mn[x] <= a0[x] by {
                    if x != k {
                        assert(m.contains_key(x));
                        assert(m[x] <= a0[x]);
                        assert(mn[x] == m[x]);
                    } else {
                        assert(mn[x] == b@);
                    }
                }
                assert(covers_amounts(a0, mn));
            }
            j = j + 1;
        }
        proof {
            assert(other.entries@.take(other.entries@.len() as int) =~= other.entries@);
        }
        *self = result;
        true
    }

    /// Whether both collections hold the same amounts of the same currencies.
    pub fn equals(&self, other: &Self) -> (r: bool)
        ensures
            r == (self@ == other@),
    {
        proof {
            use_type_invariant(self);
            use_type_invariant(other);
        }
        let n = self.entries.len();
        let m = other.entries.len();
        let mut i: usize = 0;
        while i < n && i < m
            invariant
                i <= n && i <= m,
                n == self.entries@.len() && m == other.entries@.len(),
                keys_sorted(self.entries@) && keys_sorted(other.entries@),
                forall|j: int| 0 <= j < i ==> (#[trigger] self.entries@[j]).0 == other.entries@[j].0
                    && self.entries@[j].1@ == other.entries@[j].1@,
            decreases n - i,
        {
            let a = &self.entries[i];
            let b = &other.entries[i];
            if a.0 != b.0 || a.1.less_than(&b.1) || b.1.less_than(&a.1) {
                proof {
                    lemma_entries_differ(self.entries@, other.entries@, i as int);
                }
                return false;
            }
            i = i + 1;
        }
        if n != m {
            proof {
                lemma_entries_differ(self.entries@, other.entries@, i as int);
            }
            return false;
        }
        proof {
            lemma_same_entries(self.entries@, other.entries@);
        }
        true
    }

    /// The amount of currency `key`, if present.
    pub fn get(&self, key: u32) -> (r: Option<VarUInteger32>)
        ensures
            r is Some <==> self@.contains_key(key),
            r matches Some(v) ==> v@ == self@[key] && v.is_valid(),
    {
        proof {
            use_type_invariant(self);
        }
        let mut i: usize = 0;
        while i < self.entries.len()
            invariant
                keys_sorted(self.entries@),
                values_valid(self.entries@),
                i <= self.entries@.len(),
                forall|j: int| 0 <= j < i ==> (#[trigger] self.entries@[j]).0 != key,
            decreases self.entries@.len() - i,
        {
            if self.entries[i].0 == key {
                proof {
                    lemma_map_at(self.entries@, i as int);
                }
                return Some(self.entries[i].1);
            }
            i = i + 1;
        }
        proof {
            lemma_map_absent(self.entries@, key);
        }
        None
    }

    /// Sets the amount of currency `key`.
    pub fn set(&mut self, key: u32, value: &VarUInteger32)
        requires
            value.is_valid(),
        ensures
            final(self)@ == old(self)@.insert(key, value@),
    {
        proof {
            use_type_invariant(&*self);
        }
        let mut i: usize = 0;
        while i < self.entries.len() && self.entries[i].0 < key
            invariant
                keys_sorted(self.entries@),
                i <= self.entries@.len(),
                forall|j: int| 0 <= j < i ==> (#[trigger] self.entries@[j]).0 < key,
            decreases self.entries@.len() - i,
        {
            i = i + 1;
        }
        let ghost s = self.entries@;
        let mut entries: Vec<(u32, VarUInteger32)> = Vec::new();
        core::mem::swap(&mut entries, &mut self.entries);
        if i < entries.len() && entries[i].0 == key {
            proof {
                lemma_map_update(s, i as int, *value);
            }
            entries.set(i, (key, *value));
        } else {
            proof {
                lemma_map_insert(s, i as int, (key, *value));
            }
            entries.insert(i, (key, *value));
        }
        proof {
            assert forall|j: int| 0 <= j < entries@.len() implies (#[trigger] entries@[j]).1.is_valid() by {
                if entries@[j].0 != key {
                    lemma_map_at(entries@, j);
                }
            }
        }
        self.entries = entries;
    }
}

proof fn lemma_dom_len(s: Seq<(u32, VarUInteger32)>)
    requires
        keys_sorted(s),
    ensures
        entries_map(s).dom().len() == s.len(),
        entries_map(s).dom().finite(),
    decreases s.len(),
{
    if s.len() == 0 {
        assert(entries_map(s).dom() =~= Set::<u32>::empty());
    } else {
        let t = s.drop_last();
        assert(s == t.push(s.last()));
        lemma_map_push(t, s.last());
        lemma_dom_len(t);
        assert(!entries_map(t).contains_key(s.last().0)) by {
            if entries_map(t).contains_key(s.last().0) {
                let i = choose|i: int| 0 <= i < t.len() && (#[trigger] t[i]).0 == s.last().0;
                assert(s[i].0 < s[s.len() - 1].0);
            }
        }
        assert(entries_map(s).dom() =~= entries_map(t).dom().insert(s.last().0));
    }
}

/// Addition and checked subtraction of amounts.
pub trait AddSub {
    /// Subtracts `other` when `self` holds enough; returns whether it did.
    fn sub(&mut self, other: &Self) -> Result<bool, BlockError>;

    /// Adds `other`.
    fn add(&mut self, other: &Self) -> Result<(), BlockError>;
}

impl AddSub for Grams {
    fn sub(&mut self, other: &Grams) -> (r: Result<bool, BlockError>)
        ensures
            r == Ok::<bool, BlockError>(other@ <= old(self)@),
            other@ <= old(self)@ ==> final(self)@ == old(self)@ - other@,
            !(other@ <= old(self)@) ==> *final(self) == *old(self),
    {
        let a = self.as_u128();
        let b = other.as_u128();
        if a >= b {
            match Grams::new(a - b) {
                Ok(g) => {
                    *self = g;
                }
                Err(_) => {}
            }
            Ok(true)
        } else {
            Ok(false)
        }
    }

    fn add(&mut self, other: &Grams) -> (r: Result<(), BlockError>)
        ensures
            (old(self)@ + other@ <= GRAMS_MAX) <==> r is Ok,
            r is Ok ==> final(self)@ == old(self)@ + other@,
            r is Err ==> *final(self) == *old(self),
    {
        match self.as_u128().checked_add(other.as_u128()) {
            Some(sum) => match Grams::new(sum) {
                Ok(g) => {
                    *self = g;
                    Ok(())
                }
                Err(e) => Err(e),
            },
            None => Err(BlockError::InvalidArg(crate::error::message("Grams overflow"))),
        }
    }
}

///
/// Grams and other currencies (`currencies$_ grams:Grams other:ExtraCurrencyCollection`).
///
#[derive(Debug, PartialEq, Eq)]
pub struct CurrencyCollection {
    pub grams: Grams,
    pub other: ExtraCurrencyCollection,
}

impl Clone for CurrencyCollection {
    fn clone(&self) -> (r: Self)
        ensures
            r.grams == self.grams,
            r.other@ == self.other@,
    {
        CurrencyCollection { grams: self.grams, other: self.other.clone() }
    }
}

impl Default for CurrencyCollection {
    fn default() -> (r: Self)
        ensures
            r.grams@ == 0,
            r.other@ == Map::<u32, nat>::empty(),
    {
        Self::new()
    }
}

impl CurrencyCollection {
    /// Whether both collections hold the same grams and the same other currencies.
    pub fn equals(&self, other: &Self) -> (r: bool)
        ensures
            r == (self.grams@ == other.grams@ && self.other@ == other.other@),
    {
        self.grams.as_u128() == other.grams.as_u128() && self.other.equals(&other.other)
    }

    /// No grams, no other currencies.
    pub fn new() -> (r: Self)
        ensures
            r.grams@ == 0,
            r.other@ == Map::<u32, nat>::empty(),
    {
        Self::from_grams(Grams::zero())
    }

    /// Sets the amount of currency `key` to `other`.
    pub fn set_other(&mut self, key: u32, other: u128)
        ensures
            final(self).grams == old(self).grams,
            final(self).other@ == old(self).other@.insert(key, other as nat),
    {
        match VarUInteger32::from_two_u128(0, other) {
            Ok(value) => self.set_other_ex(key, &value),
            Err(_) => {}
        }
    }

    /// Sets the amount of currency `key` to `other`.
    pub fn set_other_ex(&mut self, key: u32, other: &VarUInteger32)
        requires
            other.is_valid(),
        ensures
            final(self).grams == old(self).grams,
            final(self).other@ == old(self).other@.insert(key, other@),
    {
        self.other.set(key, other);
    }

    /// The given grams, no other currencies.
    pub fn with_grams(grams: u64) -> (r: Self)
        ensures
            r.grams@ == grams,
            r.other@ == Map::<u32, nat>::empty(),
    {
        Self::from_grams(Grams::from_u64(grams))
    }

    /// The given grams, no other currencies.
    pub fn from_grams(grams: Grams) -> (r: Self)
        ensures
            r.grams == grams,
            r.other@ == Map::<u32, nat>::empty(),
    {
        CurrencyCollection { grams, other: ExtraCurrencyCollection::new() }
    }
}

impl AddSub for CurrencyCollection {
    /// Subtracts grams and every other currency of `other`, all or nothing.
    fn sub(&mut self, other: &Self) -> (r: Result<bool, BlockError>)
        ensures
            r == Ok::<bool, BlockError>(other.grams@ <= old(self).grams@
                && covers_amounts(old(self).other@, other.other@)),
            r == Ok::<bool, BlockError>(true) ==> final(self).grams@ == old(self).grams@ - other.grams@
                && final(self).other@ == diff_map(old(self).other@, other.other@),
            r == Ok::<bool, BlockError>(false) ==> final(self).grams == old(self).grams
                && final(self).other@ == old(self).other@,
    {
        if self.grams.as_u128() < other.grams.as_u128() {
            return Ok(false);
        }
        if self.other.sub(&other.other) {
            self.grams.sub(&other.grams)
        } else {
            Ok(false)
        }
    }

    /// Adds grams first, then every other currency; a failure on the other currencies leaves
    /// the grams already added.
    fn add(&mut self, other: &Self) -> (r: Result<(), BlockError>)
        ensures
            r is Ok <==> (old(self).grams@ + other.grams@ <= GRAMS_MAX
                && sum_fits(old(self).other@, other.other@)),
            r is Ok ==> final(self).grams@ == old(self).grams@ + other.grams@
                && final(self).other@ == sum_map(old(self).other@, other.other@),
            !(old(self).grams@ + other.grams@ <= GRAMS_MAX) ==> final(self).grams == old(self).grams,
            old(self).grams@ + other.grams@ <= GRAMS_MAX ==> final(self).grams@ == old(self).grams@ + other.grams@,
            r is Err ==> final(self).other@ == old(self).other@,
    {
        self.grams.add(&other.grams)?;
        self.other.add(&other.other)
    }
}

///
/// Special (tick-tock) flags of an account.
///
#[derive(Clone, Copy, Debug, Default, PartialEq, Eq)]
pub struct TickTock {
    pub tick: bool,
    pub tock: bool,
}

impl TickTock {
    /// Flags with the given values.
    pub fn with_values(tick: bool, tock: bool) -> (r: Self)
        ensures
            r.tick == tick,
            r.tock == tock,
    {
        TickTock { tick, tock }
    }

    /// Sets the tick flag.
    pub fn set_tick(&mut self, tick: bool)
        ensures
            final(self).tick == tick,
            final(self).tock == old(self).tock,
    {
        self.tick = tick;
    }

    /// Sets the tock flag.
    pub fn set_tock(&mut self, tock: bool)
        ensures
            final(self).tock == tock,
            final(self).tick == old(self).tick,
    {
        self.tock = tock;
    }
}

/// Processing status of a message.
#[derive(Debug, Eq, PartialEq, Clone, Copy, Default)]
pub enum MessageProcessingStatus {
    #[default]
    Unknown,
    Queued,
    Processing,
    Preliminary,
    Proposed,
    Finalized,
    Refused,
    Transiting,
}

impl TickTock {
    /// The text form `TickTick[Tick tick, Tock tock]`, each flag as `true` or `false`.
    pub fn to_text(&self) -> (r: String)
        ensures
            r@ == seq!['T', 'i', 'c', 'k', 'T', 'i', 'c', 'k', '[', 'T', 'i', 'c', 'k', ' '] + bool_chars(self.tick)
                + seq![',', ' ', 'T', 'o', 'c', 'k', ' '] + bool_chars(self.tock) + seq![']'],
    {
        let mut out = String::from_str("TickTick[Tick ");
        push_bool(&mut out, self.tick);
        out.append(", Tock ");
        push_bool(&mut out, self.tock);
        out.append("]");
        proof {
            reveal_strlit("TickTick[Tick ");
            reveal_strlit(", Tock ");
            reveal_strlit("]");
            assert(out@ =~= seq!['T', 'i', 'c', 'k', 'T', 'i', 'c', 'k', '[', 'T', 'i', 'c', 'k', ' '] + bool_chars(
                self.tick,
            ) + seq![',', ' ', 'T', 'o', 'c', 'k', ' '] + bool_chars(self.tock) + seq![']']);
        }
        out
    }
}

/// A stored part of a cell: its data bits and the hashes of the cells it refers to.
#[derive(Clone, Debug, PartialEq, Eq)]
pub struct CellPart {
    pub bits: Vec<bool>,
    pub refs: Vec<UInt256>,
}

/// A message as stored parts: its header, its state init if any and its body if any.
#[derive(Clone, Debug, PartialEq, Eq)]
pub struct Message {
    pub header: CellPart,
    pub init: Option<CellPart>,
    pub body: Option<CellPart>,
}

/// A child of a stored message: a cell known by its hash, or the message's state init or body
/// stored in a child cell of its own.
#[derive(Clone, Copy, Debug, PartialEq, Eq)]
pub enum MessageChild {
    Hash(UInt256),
    Init,
    Body,
}

/// The stored message: its data bits and its children.
#[derive(Clone, Debug, PartialEq, Eq)]
pub struct MessageCell {
    pub bits: Vec<bool>,
    pub refs: Vec<MessageChild>,
}

/// Where the body and the state init go: `(body_to_ref, init_to_ref)`, each true when that
/// part goes into a child cell of its own. All stays in one cell when it fits (1023 bits, 4
/// children); else the body goes to a child when the header and the state init fit with it,
/// else the state init when the header and the body fit with it, else both. The header counts
/// two more bits (the flags of the state init and the body) and one more with a state init.
pub open spec fn spec_message_layout(
    header_bits: int,
    header_refs: int,
    has_init: bool,
    state_bits: int,
    state_refs: int,
    body_bits: int,
    body_refs: int,
) -> (bool, bool) {
    let hb = header_bits + 2 + if has_init { 1int } else { 0int };
    if hb + state_bits + body_bits <= MAX_DATA_BITS && header_refs + state_refs + body_refs <= MAX_REFERENCES_COUNT {
        (false, false)
    } else if hb + state_bits <= MAX_DATA_BITS && header_refs + state_refs + 1 <= MAX_REFERENCES_COUNT {
        (true, false)
    } else if hb + body_bits <= MAX_DATA_BITS && header_refs + body_refs + 1 <= MAX_REFERENCES_COUNT {
        (false, true)
    } else {
        (true, true)
    }
}

/// Where a message's parts go, in terms of what fits in one cell (1023 bits, 4 children; the
/// header counts its flag bits: two, and one more with a state init). Everything stays inline
/// when everything fits. Otherwise something goes to a child cell, and the body goes first:
/// when the header and the state init fit with one child, the state init stays inline and the
/// body goes to a child; the state init goes to a child only when it does not fit with the
/// header, and then the body stays inline when it fits with the header and one child, and goes
/// to a child as well when not.
pub proof fn law_message_layout(
    header_bits: int,
    header_refs: int,
    has_init: bool,
    state_bits: int,
    state_refs: int,
    body_bits: int,
    body_refs: int,
)
    ensures
        ({
            let (body_to_ref, init_to_ref) = spec_message_layout(
                header_bits,
                header_refs,
                has_init,
                state_bits,
                state_refs,
                body_bits,
                body_refs,
            );
            let hb = header_bits + 2 + if has_init { 1int } else { 0int };
            let all_fit = hb + state_bits + body_bits <= 1023 && header_refs + state_refs + body_refs <= 4;
            let init_fits = hb + state_bits <= 1023 && header_refs + state_refs + 1 <= 4;
            let body_fits = hb + body_bits <= 1023 && header_refs + body_refs + 1 <= 4;
            &&& all_fit ==> !body_to_ref && !init_to_ref
            &&& !all_fit && init_fits ==> body_to_ref && !init_to_ref
            &&& !all_fit && !init_fits ==> init_to_ref
            &&& !all_fit && !init_fits ==> (body_to_ref <==> !body_fits)
        }),
{
}

/// The bits of a stored message: the header's bits first; then, at the header's end, a one
/// when there is a state init, followed by a one when it is in a child cell and a zero followed
/// by its bits when inline; then the body's flag, one when the body is in a child cell and zero
/// otherwise, followed by the body's bits when it is inline. The children are those of the
/// header, then the state init's (or the state init), then the body's (or the body).
pub proof fn law_message_bits(m: Message, body_to_ref: bool, init_to_ref: bool)
    ensures
        ({
            let bits = message_bits(m, body_to_ref, init_to_ref);
            let h = m.header.bits@.len() as int;
            let init_len: int = match m.init {
                Some(i) => if init_to_ref {
                    2
                } else {
                    2 + i.bits@.len() as int
                },
                None => 1,
            };
            let body_len: int = match m.body {
                Some(b) => if body_to_ref {
                    1
                } else {
                    1 + b.bits@.len() as int
                },
                None => 1,
            };
            &&& bits.len() == h + init_len + body_len
            &&& bits.take(h) == m.header.bits@
            &&& bits[h] == (m.init is Some)
            &&& m.init is Some ==> bits[h + 1] == init_to_ref
            &&& !init_to_ref ==> (m.init matches Some(i) ==> bits.subrange(h + 2, h + init_len) == i.bits@)
            &&& bits[h + init_len] == (m.body is Some && body_to_ref)
            &&& !body_to_ref ==> (m.body matches Some(b) ==> bits.skip(h + init_len + 1) == b.bits@)
        }),
{
    let bits = message_bits(m, body_to_ref, init_to_ref);
    let hd = m.header.bits@;
    let h = hd.len() as int;
    let ip: Seq<bool> = match m.init {
        Some(i) => if init_to_ref {
            seq![true, true]
        } else {
            seq![true, false] + i.bits@
        },
        None => seq![false],
    };
    let bp: Seq<bool> = match m.body {
        Some(b) => if body_to_ref {
            seq![true]
        } else {
            seq![false] + b.bits@
        },
        None => seq![false],
    };
    assert(bits == hd + ip + bp);
    assert(bits.take(h) =~= hd);
    assert(bits[h] == ip[0]);
    if m.init is Some {
        assert(bits[h + 1] == ip[1]);
    }
    if let Some(i) = m.init {
        if !init_to_ref {
            assert(bits.subrange(h + 2, h + ip.len()) =~= i.bits@);
        }
    }
    assert(bits[h + ip.len()] == bp[0]);
    if let Some(b) = m.body {
        if !body_to_ref {
            assert(bits.skip(h + ip.len() + 1) =~= b.bits@);
        }
    }
}

/// The children of a stored message: the header's children by hash first; then the state init
/// as one child when it is in a child cell, or its children by hash when inline; then the body
/// likewise, last.
pub proof fn law_message_children(m: Message, body_to_ref: bool, init_to_ref: bool)
    ensures
        ({
            let c = message_children(m, body_to_ref, init_to_ref);
            let h = m.header.refs@.len() as int;
            let init_n: int = match m.init {
                Some(i) => if init_to_ref {
                    1
                } else {
                    i.refs@.len() as int
                },
                None => 0,
            };
            let body_n: int = match m.body {
                Some(b) => if body_to_ref {
                    1
                } else {
                    b.refs@.len() as int
                },
                None => 0,
            };
            &&& c.len() == h + init_n + body_n
            &&& forall|x: int| 0 <= x < h ==> c[x] == MessageChild::Hash(m.header.refs@[x])
            &&& init_to_ref && m.init is Some ==> c[h] == MessageChild::Init
            &&& body_to_ref && m.body is Some ==> c[h + init_n] == MessageChild::Body
            &&& !init_to_ref ==> (m.init matches Some(i) ==> forall|x: int| 0 <= x < i.refs@.len() ==> c[h + x] == MessageChild::Hash(i.refs@[x]))
            &&& !body_to_ref ==> (m.body matches Some(b) ==> forall|x: int| 0 <= x < b.refs@.len() ==> c[h + init_n + x] == MessageChild::Hash(b.refs@[x]))
        }),
{
}

/// Whether `a + b + c` is at most `max`, without overflow.
fn three_fit(a: usize, b: usize, c: usize, max: usize) -> (r: bool)
    ensures
        r == (a + b + c <= max),
{
    a <= max && b <= max - a && c <= max - a - b
}

/// Decides where the body and the state init of a message go (see `spec_message_layout`).
pub fn message_layout(
    header_bits: usize,
    header_refs: usize,
    has_init: bool,
    state_bits: usize,
    state_refs: usize,
    body_bits: usize,
    body_refs: usize,
) -> (r: (bool, bool))
    ensures
        r == spec_message_layout(
            header_bits as int,
            header_refs as int,
            has_init,
            state_bits as int,
            state_refs as int,
            body_bits as int,
            body_refs as int,
        ),
{
    if header_bits > MAX_DATA_BITS {
        return (true, true);
    }
    let hb: usize = header_bits + 2 + if has_init { 1 } else { 0 };
    if three_fit(hb, state_bits, body_bits, MAX_DATA_BITS) && three_fit(header_refs, state_refs, body_refs, MAX_REFERENCES_COUNT) {
        (false, false)
    } else if three_fit(hb, state_bits, 0, MAX_DATA_BITS) && three_fit(header_refs, state_refs, 1, MAX_REFERENCES_COUNT) {
        (true, false)
    } else if three_fit(hb, body_bits, 0, MAX_DATA_BITS) && three_fit(header_refs, body_refs, 1, MAX_REFERENCES_COUNT) {
        (false, true)
    } else {
        (true, true)
    }
}

/// The hashes of a part's children, as children of the stored message.
pub open spec fn hash_children(refs: Seq<UInt256>) -> Seq<MessageChild> {
    refs.map_values(|h: UInt256| MessageChild::Hash(h))
}

/// The bits of a stored message: the header; for a state init the flags `1 0` and its bits
/// when it stays inline or the flags `1 1` when it goes to a child, else the flag `0`; for a
/// body the flag `0` and its bits when it stays inline or the flag `1` when it goes to a
/// child, else the flag `0`.
pub open spec fn message_bits(m: Message, body_to_ref: bool, init_to_ref: bool) -> Seq<bool> {
    m.header.bits@ + match m.init {
        Some(i) => if init_to_ref {
            seq![true, true]
        } else {
            seq![true, false] + i.bits@
        },
        None => seq![false],
    } + match m.body {
        Some(b) => if body_to_ref {
            seq![true]
        } else {
            seq![false] + b.bits@
        },
        None => seq![false],
    }
}

/// The children of a stored message: those of the header, then those of the state init or
/// the state init itself, then those of the body or the body itself.
pub open spec fn message_children(m: Message, body_to_ref: bool, init_to_ref: bool) -> Seq<MessageChild> {
    hash_children(m.header.refs@) + match m.init {
        Some(i) => if init_to_ref {
            seq![MessageChild::Init]
        } else {
            hash_children(i.refs@)
        },
        None => Seq::empty(),
    } + match m.body {
        Some(b) => if body_to_ref {
            seq![MessageChild::Body]
        } else {
            hash_children(b.refs@)
        },
        None => Seq::empty(),
    }
}

/// Where a message's body and state init go.
pub open spec fn layout_of(m: Message) -> (bool, bool) {
    spec_message_layout(
        m.header.bits@.len() as int,
        m.header.refs@.len() as int,
        m.init is Some,
        match m.init {
            Some(i) => i.bits@.len() as int,
            None => 0,
        },
        match m.init {
            Some(i) => i.refs@.len() as int,
            None => 0,
        },
        match m.body {
            Some(b) => b.bits@.len() as int,
            None => 0,
        },
        match m.body {
            Some(b) => b.refs@.len() as int,
            None => 0,
        },
    )
}

/// Appends the children of a part as hashes.
fn push_hash_children(out: &mut Vec<MessageChild>, refs: &Vec<UInt256>)
    ensures
        final(out)@ == old(out)@ + hash_children(refs@),
{
    let mut i: usize = 0;
    while i < refs.len()
        invariant
            i <= refs.len(),
            out@ == old(out)@ + hash_children(refs@.subrange(0, i as int)),
        decreases refs.len() - i,
    {
        out.push(MessageChild::Hash(refs[i]));
        proof {
            assert(hash_children(refs@.subrange(0, i + 1)) =~= hash_children(refs@.subrange(0, i as int)).push(
                MessageChild::Hash(refs@[i as int]),
            ));
        }
        i = i + 1;
    }
    assert(refs@.subrange(0, refs@.len() as int) =~= refs@);
}

/// Appends bits.
fn push_bits(out: &mut Vec<bool>, bits: &Vec<bool>)
    ensures
        final(out)@ == old(out)@ + bits@,
{
    let mut i: usize = 0;
    while i < bits.len()
        invariant
            i <= bits.len(),
            out@ == old(out)@ + bits@.subrange(0, i as int),
        decreases bits.len() - i,
    {
        out.push(bits[i]);
        proof {
            assert(bits@.subrange(0, i + 1) =~= bits@.subrange(0, i as int).push(bits@[i as int]));
        }
        i = i + 1;
    }
    assert(bits@.subrange(0, bits@.len() as int) =~= bits@);
}

impl Message {
    /// The stored message: the state init and the body stay in the message's cell when they fit
    /// and go into child cells of their own when not (see `spec_message_layout`). Fails when
    /// even then the cell would hold more than 1023 bits or 4 children.
    pub fn write_to(&self) -> (r: Result<MessageCell, BlockError>)
        ensures
            r is Ok <==> message_bits(*self, layout_of(*self).0, layout_of(*self).1).len() <= MAX_DATA_BITS
                && message_children(*self, layout_of(*self).0, layout_of(*self).1).len() <= MAX_REFERENCES_COUNT,
            r is Ok ==> r->Ok_0.bits@ == message_bits(*self, layout_of(*self).0, layout_of(*self).1)
                && r->Ok_0.refs@ == message_children(*self, layout_of(*self).0, layout_of(*self).1),
    {
        let (state_bits, state_refs) = match &self.init {
            Some(i) => (i.bits.len(), i.refs.len()),
            None => (0, 0),
        };
        let (body_bits, body_refs) = match &self.body {
            Some(b) => (b.bits.len(), b.refs.len()),
            None => (0, 0),
        };
        let (body_to_ref, init_to_ref) = message_layout(
            self.header.bits.len(),
            self.header.refs.len(),
            self.init.is_some(),
            state_bits,
            state_refs,
            body_bits,
            body_refs,
        );
        let mut bits: Vec<bool> = Vec::new();
        let mut refs: Vec<MessageChild> = Vec::new();
        push_bits(&mut bits, &self.header.bits);
        push_hash_children(&mut refs, &self.header.refs);
        let ghost b1 = bits@;
        let ghost r1 = refs@;
        match &self.init {
            Some(i) => {
                bits.push(true);
                if init_to_ref {
                    bits.push(true);
                    refs.push(MessageChild::Init);
                } else {
                    bits.push(false);
                    push_bits(&mut bits, &i.bits);
                    push_hash_children(&mut refs, &i.refs);
                }
            },
            None => {
                bits.push(false);
            },
        }
        match &self.body {
            Some(b) => {
                if body_to_ref {
                    bits.push(true);
                    refs.push(MessageChild::Body);
                } else {
                    bits.push(false);
                    push_bits(&mut bits, &b.bits);
                    push_hash_children(&mut refs, &b.refs);
                }
            },
            None => {
                bits.push(false);
            },
        }
        assert(bits@ =~= message_bits(*self, body_to_ref, init_to_ref));
        assert(refs@ =~= message_children(*self, body_to_ref, init_to_ref));
        if bits.len() > MAX_DATA_BITS || refs.len() > MAX_REFERENCES_COUNT {
            return Err(BlockError::InvalidData(message("message does not fit into a cell")));
        }
        Ok(MessageCell { bits, refs })
    }
}

/// Anycast information: the prefix that rewrites the address, as a bit string stored with its
/// completion bit (at most 31 bits).
#[derive(Clone, Debug, PartialEq, Eq)]
pub struct AnycastInfo {
    pub rewrite_pfx: Vec<u8>,
}

/// An external address: a bit string stored with its completion bit (at most 511 bits).
#[derive(Clone, Debug, PartialEq, Eq)]
pub struct MsgAddrExt(pub Vec<u8>);

/// A standard internal address: anycast, an 8-bit workchain and the address bits (stored with
/// their completion bit).
#[derive(Clone, Debug, PartialEq, Eq)]
pub struct MsgAddrStd {
    pub anycast: Option<AnycastInfo>,
    pub workchain_id: i8,
    pub address: Vec<u8>,
}

/// An internal address of variable length: anycast, a 32-bit workchain and the address bits
/// (stored with their completion bit, at most 511 bits).
#[derive(Clone, Debug, PartialEq, Eq)]
pub struct MsgAddrVar {
    pub anycast: Option<AnycastInfo>,
    pub workchain_id: i32,
    pub address: Vec<u8>,
}

/// A message address.
#[derive(Clone, Debug, PartialEq, Eq)]
pub enum MsgAddress {
    AddrNone,
    AddrExt(MsgAddrExt),
    AddrStd(MsgAddrStd),
    AddrVar(MsgAddrVar),
}

/// A message address with its bit strings as byte sequences.
pub enum MsgAddressModel {
    AddrNone,
    AddrExt(Seq<u8>),
    AddrStd(Option<Seq<u8>>, i8, Seq<u8>),
    AddrVar(Option<Seq<u8>>, i32, Seq<u8>),
}

/// The rewrite prefix of optional anycast information.
pub open spec fn anycast_view(a: Option<AnycastInfo>) -> Option<Seq<u8>> {
    match a {
        Some(i) => Some(i.rewrite_pfx@),
        None => None,
    }
}

impl View for MsgAddress {
    type V = MsgAddressModel;

    open spec fn view(&self) -> MsgAddressModel {
        match *self {
            MsgAddress::AddrNone => MsgAddressModel::AddrNone,
            MsgAddress::AddrExt(e) => MsgAddressModel::AddrExt(e.0@),
            MsgAddress::AddrStd(a) => MsgAddressModel::AddrStd(anycast_view(a.anycast), a.workchain_id, a.address@),
            MsgAddress::AddrVar(a) => MsgAddressModel::AddrVar(anycast_view(a.anycast), a.workchain_id, a.address@),
        }
    }
}

/// The address that the `:`-separated parts of an address text stand for, or `None` when they
/// stand for none. The last part is the address bits in hexadecimal (with `_` closing a bit
/// string that does not end on a digit); a single empty part is no address. Two parts with an
/// empty first one are an external address (at most 511 bits). Otherwise the part before the
/// last is the workchain (0 when there is none) and a third part before it is the anycast
/// prefix (not empty, at most 31 bits); the address is standard when the workchain lies
/// strictly between -128 and 128 and the last part has 64 characters, and of variable length
/// (at most 511 bits) otherwise.
pub open spec fn address_from_parts(parts: Seq<Seq<char>>) -> Option<MsgAddressModel> {
    let n = parts.len() as int;
    let last = parts[n - 1];
    if last.len() == 0 {
        if n == 1 {
            Some(MsgAddressModel::AddrNone)
        } else {
            None
        }
    } else {
        match parsed_slice(last, 0, 16) {
            None => None,
            Some(addr) => if n == 2 && parts[0].len() == 0 {
                if tagged_bit_len(addr) <= 511 {
                    Some(MsgAddressModel::AddrExt(addr))
                } else {
                    None
                }
            } else {
                let wc = if n >= 2 {
                    parse_i32(parts[n - 2])
                } else {
                    Some(0int)
                };
                let any: Option<Option<Seq<u8>>> = if n == 3 {
                    if parts[0].len() == 0 {
                        None
                    } else {
                        match parsed_slice(parts[0], 0, 16) {
                            Some(p) => if tagged_bit_len(p) <= 31 {
                                Some(Some(p))
                            } else {
                                None
                            },
                            None => None,
                        }
                    }
                } else {
                    Some(None)
                };
                match (wc, any) {
                    (Some(w), Some(a)) => if -128 < w < 128 && last.len() == 64 {
                        Some(MsgAddressModel::AddrStd(a, w as i8, addr))
                    } else if tagged_bit_len(addr) <= 511 {
                        Some(MsgAddressModel::AddrVar(a, w as i32, addr))
                    } else {
                        None
                    },
                    _ => None,
                }
            },
        }
    }
}

/// The `:`-separated parts of `s`, `None` when there are more than three.
pub open spec fn address_parts(s: Seq<char>) -> Option<Seq<Seq<char>>> {
    let (p0, r0) = split_first(s, ':');
    match r0 {
        None => Some(seq![p0]),
        Some(t0) => {
            let (p1, r1) = split_first(t0, ':');
            match r1 {
                None => Some(seq![p0, p1]),
                Some(t1) => {
                    let (p2, r2) = split_first(t1, ':');
                    match r2 {
                        None => Some(seq![p0, p1, p2]),
                        Some(_) => None,
                    }
                },
            }
        },
    }
}

/// The address an address text stands for, or `None`.
pub open spec fn msg_address_text(s: Seq<char>) -> Option<MsgAddressModel> {
    match address_parts(s) {
        Some(parts) => address_from_parts(parts),
        None => None,
    }
}

/// Splitting on `:` where the pieces hold no `:`: the first piece, and what follows the colon.
proof fn lemma_split_first_colon(p: Seq<char>, q: Seq<char>)
    requires
        forall|i: int| 0 <= i < p.len() ==> p[i] != ':',
    ensures
        split_first(p, ':') == (p, Option::<Seq<char>>::None),
        split_first(p + seq![':'] + q, ':') == (p, Some(q)),
    decreases p.len(),
{
    if p.len() == 0 {
        assert(p + seq![':'] + q =~= seq![':'] + q);
        assert((seq![':'] + q).drop_first() =~= q);
    } else {
        let t = p.drop_first();
        lemma_split_first_colon(t, q);
        assert((p + seq![':'] + q).drop_first() =~= t + seq![':'] + q);
        assert(seq![p[0]] + t =~= p);
    }
}

/// The parts of an address text are the pieces between its colons: one, two or three pieces
/// with no colon in them, joined by colons, give back those pieces; with a fourth piece the text
/// has too many parts.
pub proof fn law_address_parts(p0: Seq<char>, p1: Seq<char>, p2: Seq<char>, p3: Seq<char>)
    requires
        forall|i: int| 0 <= i < p0.len() ==> p0[i] != ':',
        forall|i: int| 0 <= i < p1.len() ==> p1[i] != ':',
        forall|i: int| 0 <= i < p2.len() ==> p2[i] != ':',
    ensures
        address_parts(p0) == Some(seq![p0]),
        address_parts(p0 + seq![':'] + p1) == Some(seq![p0, p1]),
        address_parts(p0 + seq![':'] + p1 + seq![':'] + p2) == Some(seq![p0, p1, p2]),
        address_parts(p0 + seq![':'] + p1 + seq![':'] + p2 + seq![':'] + p3) is None,
{
    lemma_split_first_colon(p0, Seq::empty());
    lemma_split_first_colon(p0, p1);
    lemma_split_first_colon(p1, Seq::empty());
    lemma_split_first_colon(p0, p1 + seq![':'] + p2);
    assert(p0 + seq![':'] + p1 + seq![':'] + p2 =~= p0 + seq![':'] + (p1 + seq![':'] + p2));
    lemma_split_first_colon(p1, p2);
    lemma_split_first_colon(p2, Seq::empty());
    let rest = p1 + seq![':'] + p2 + seq![':'] + p3;
    lemma_split_first_colon(p0, rest);
    assert(p0 + seq![':'] + p1 + seq![':'] + p2 + seq![':'] + p3 =~= p0 + seq![':'] + rest);
    lemma_split_first_colon(p1, p2 + seq![':'] + p3);
    assert(rest =~= p1 + seq![':'] + (p2 + seq![':'] + p3));
    lemma_split_first_colon(p2, p3);
}

/// The anycast of address parts: none without a third part; with one, its bits when it is a
/// nonempty hexadecimal bit string of at most 31 bits (`None` when it is not).
pub open spec fn anycast_of_parts(parts: Seq<Seq<char>>) -> Option<Option<Seq<u8>>> {
    if parts.len() == 3 {
        if parts[0].len() == 0 {
            None
        } else {
            match parsed_slice(parts[0], 0, 16) {
                Some(p) => if tagged_bit_len(p) <= 31 {
                    Some(Some(p))
                } else {
                    None
                },
                None => None,
            }
        }
    } else {
        Some(None)
    }
}

/// The workchain of address parts: the part before the last as a signed decimal number, 0 when
/// there is one part.
pub open spec fn workchain_of_parts(parts: Seq<Seq<char>>) -> Option<int> {
    if parts.len() >= 2 {
        parse_i32(parts[parts.len() - 2])
    } else {
        Some(0)
    }
}

/// Address parts that are not external: one part, three parts, or two parts whose first is
/// not empty.
pub open spec fn internal_form(parts: Seq<Seq<char>>) -> bool {
    parts.len() == 1 || parts.len() == 3 || (parts.len() == 2 && parts[0].len() > 0)
}

/// An address text with an empty last part is no address when it is empty, and none at all
/// when it has other parts; a last part that is not a hexadecimal bit string gives none.
pub proof fn law_address_empty_or_bad(parts: Seq<Seq<char>>)
    requires
        1 <= parts.len() <= 3,
    ensures
        parts.len() == 1 && parts[0].len() == 0 ==> address_from_parts(parts) == Some(MsgAddressModel::AddrNone),
        parts.len() > 1 && parts[parts.len() - 1].len() == 0 ==> address_from_parts(parts) is None,
        parsed_slice(parts[parts.len() - 1], 0, 16) is None && parts[parts.len() - 1].len() > 0 ==> address_from_parts(
            parts,
        ) is None,
{
}

/// Two parts with an empty first one are an external address: the bits of the last part, when
/// they are at most 511; otherwise no address.
pub proof fn law_address_external(parts: Seq<Seq<char>>, addr: Seq<u8>)
    requires
        parts.len() == 2,
        parts[0].len() == 0,
        parts[1].len() > 0,
        parsed_slice(parts[1], 0, 16) == Some(addr),
    ensures
        tagged_bit_len(addr) <= 511 ==> address_from_parts(parts) == Some(MsgAddressModel::AddrExt(addr)),
        tagged_bit_len(addr) > 511 ==> address_from_parts(parts) is None,
{
}

/// Internal address parts whose workchain lies strictly between -128 and 128 and whose last
/// part has 64 characters are a standard address with that workchain, the anycast of the parts
/// and the bits of the last part, whatever the workchain's sign and whether there is an anycast.
pub proof fn law_address_standard(parts: Seq<Seq<char>>, w: int, any: Option<Seq<u8>>, addr: Seq<u8>)
    requires
        1 <= parts.len() <= 3,
        internal_form(parts),
        parts[parts.len() - 1].len() == 64,
        parsed_slice(parts[parts.len() - 1], 0, 16) == Some(addr),
        workchain_of_parts(parts) == Some(w),
        -128 < w < 128,
        anycast_of_parts(parts) == Some(any),
    ensures
        address_from_parts(parts) == Some(MsgAddressModel::AddrStd(any, w as i8, addr)),
{
}

/// Other internal address parts (the workchain at most -128 or at least 128, or a last part
/// not of 64 characters) are an address of variable length with that workchain, when its bits
/// are at most 511, and no address otherwise.
pub proof fn law_address_variable(parts: Seq<Seq<char>>, w: int, any: Option<Seq<u8>>, addr: Seq<u8>)
    requires
        1 <= parts.len() <= 3,
        internal_form(parts),
        parts[parts.len() - 1].len() > 0,
        parsed_slice(parts[parts.len() - 1], 0, 16) == Some(addr),
        workchain_of_parts(parts) == Some(w),
        !(-128 < w < 128) || parts[parts.len() - 1].len() != 64,
        anycast_of_parts(parts) == Some(any),
    ensures
        tagged_bit_len(addr) <= 511 ==> address_from_parts(parts) == Some(MsgAddressModel::AddrVar(any, w as i32, addr)),
        tagged_bit_len(addr) > 511 ==> address_from_parts(parts) is None,
{
}

/// Internal address parts with a workchain that is not a number, or with a bad anycast, are no
/// address.
pub proof fn law_address_bad_workchain_or_anycast(parts: Seq<Seq<char>>)
    requires
        1 <= parts.len() <= 3,
        internal_form(parts),
        parts[parts.len() - 1].len() > 0,
        workchain_of_parts(parts) is None || anycast_of_parts(parts) is None,
    ensures
        address_from_parts(parts) is None,
{
}

/// Reads the address of `parts` (character ranges of `v`).
fn address_from_ranges(v: &Vec<char>, ranges: &Vec<(usize, usize)>) -> (r: Result<MsgAddress, BlockError>)
    requires
        1 <= ranges@.len() <= 3,
        forall|i: int| 0 <= i < ranges@.len() ==> ranges@[i].0 <= #[trigger] ranges@[i].1 <= v@.len(),
    ensures
        r is Ok <==> address_from_parts(
            Seq::new(ranges@.len(), |i: int| v@.subrange(ranges@[i].0 as int, ranges@[i].1 as int)),
        ) is Some,
        r matches Ok(a) ==> Some(a@) == address_from_parts(
            Seq::new(ranges@.len(), |i: int| v@.subrange(ranges@[i].0 as int, ranges@[i].1 as int)),
        ),
{
    let ghost parts = Seq::new(ranges@.len(), |i: int| v@.subrange(ranges@[i].0 as int, ranges@[i].1 as int));
    let n = ranges.len();
    let (llo, lhi) = ranges[n - 1];
    assert(parts[n - 1] == v@.subrange(llo as int, lhi as int));
    if llo == lhi {
        if n == 1 {
            return Ok(MsgAddress::AddrNone);
        } else {
            return Err(BlockError::InvalidArg(message("wrong format")));
        }
    }
    let address = match parse_slice_chars(v, llo, lhi, 0, 16) {
        Some(a) => a,
        None => {
            return Err(BlockError::InvalidArg(message("wrong address")));
        },
    };
    let (flo, fhi) = ranges[0];
    assert(parts[0] == v@.subrange(flo as int, fhi as int));
    if n == 2 && flo == fhi {
        if tagged_len_at_most(&address, 511) {
            return Ok(MsgAddress::AddrExt(MsgAddrExt(address)));
        } else {
            return Err(BlockError::InvalidArg(message("address can't be longer than 2^9-1 bits")));
        }
    }
    let workchain_id: i32 = if n >= 2 {
        let (wlo, whi) = ranges[n - 2];
        assert(parts[n - 2] == v@.subrange(wlo as int, whi as int));
        match read_i32(v, wlo, whi) {
            Some(w) => w,
            None => {
                return Err(BlockError::InvalidArg(message("workchain_id is not correct number")));
            },
        }
    } else {
        0
    };
    let anycast: Option<AnycastInfo> = if n == 3 {
        if flo == fhi {
            return Err(BlockError::InvalidArg(message("wrong format")));
        }
        match parse_slice_chars(v, flo, fhi, 0, 16) {
            Some(p) => {
                if tagged_len_at_most(&p, 31) {
                    Some(AnycastInfo { rewrite_pfx: p })
                } else {
                    return Err(BlockError::InvalidArg(message("anycast is not correct")));
                }
            },
            None => {
                return Err(BlockError::InvalidArg(message("anycast is not correct")));
            },
        }
    } else {
        None
    };
    if -128 < workchain_id && workchain_id < 128 && lhi - llo == 64 {
        Ok(MsgAddress::AddrStd(MsgAddrStd { anycast, workchain_id: workchain_id as i8, address }))
    } else if tagged_len_at_most(&address, 511) {
        Ok(MsgAddress::AddrVar(MsgAddrVar { anycast, workchain_id, address }))
    } else {
        Err(BlockError::InvalidArg(message("address can't be longer than 2^9-1 bits")))
    }
}

impl MsgAddress {
    /// Reads an address text: up to three `:`-separated parts, as `address_from_parts` says.
    /// Fails when the text stands for no address.
    pub fn parse_msg_address(s: &str) -> (r: Result<MsgAddress, BlockError>)
        ensures
            r is Ok <==> msg_address_text(s@) is Some,
            r matches Ok(a) ==> Some(a@) == msg_address_text(s@),
    {
        let v = chars_of(s);
        let n = v.len();
        let mut ranges: Vec<(usize, usize)> = Vec::new();
        let c0 = find_char(&v, 0, n, ':');
        assert(v@.subrange(0, n as int) =~= v@);
        if c0 == n {
            ranges.push((0, n));
        } else {
            let c1 = find_char(&v, c0 + 1, n, ':');
            if c1 == n {
                ranges.push((0, c0));
                ranges.push((c0 + 1, n));
            } else {
                let c2 = find_char(&v, c1 + 1, n, ':');
                if c2 == n {
                    ranges.push((0, c0));
                    ranges.push((c0 + 1, c1));
                    ranges.push((c1 + 1, n));
                } else {
                    return Err(BlockError::InvalidArg(message("too many components in address")));
                }
            }
        }
        let ghost parts = Seq::new(ranges@.len(), |i: int| v@.subrange(ranges@[i].0 as int, ranges@[i].1 as int));
        assert(address_parts(s@) == Some(parts));
        address_from_ranges(&v, &ranges)
    }
}

impl core::str::FromStr for MsgAddress {
    type Err = BlockError;

    fn from_str(s: &str) -> (r: Result<MsgAddress, BlockError>)
        ensures
            r is Ok <==> msg_address_text(s@) is Some,
            r matches Ok(a) ==> Some(a@) == msg_address_text(s@),
    {
        MsgAddress::parse_msg_address(s)
    }
}

} // verus!
