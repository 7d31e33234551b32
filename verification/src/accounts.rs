use vstd::prelude::*;

use crate::bytes::{be32, be32_at, get_u32, lemma_be_roundtrip, push_u32};
use crate::error::{message, BlockError};
use crate::types::{
    law_var_uint_roundtrip, lemma_var_uint_lengths, parse_var_uint, var_uint_bytes, Grams, UInt256, VarUInteger7,
    GRAMS_MAX, VAR_UINTEGER7_MAX,
};

verus! {

/// Storage used by an account: cells, bits and public cells
/// (`storage_used$_ cells:(VarUInteger 7) bits:(VarUInteger 7) public_cells:(VarUInteger 7)`).
#[derive(Clone, Copy, Debug, Default, PartialEq, Eq, PartialOrd, Ord)]
pub struct StorageUsed {
    cells: VarUInteger7,
    bits: VarUInteger7,
    public_cells: VarUInteger7,
}

impl View for StorageUsed {
    /// Cells, bits and public cells.
    type V = (nat, nat, nat);

    closed spec fn view(&self) -> (nat, nat, nat) {
        (self.cells@, self.bits@, self.public_cells@)
    }
}

impl StorageUsed {
    /// Nothing used.
    pub fn new() -> (r: Self)
        ensures
            r@ == (0nat, 0nat, 0nat),
    {
        StorageUsed { cells: VarUInteger7::zero(), bits: VarUInteger7::zero(), public_cells: VarUInteger7::zero() }
    }

    /// Number of bits.
    pub fn bits(&self) -> (r: u64)
        ensures
            r == self@.1,
    {
        self.bits.as_u64()
    }

    /// Number of cells.
    pub fn cells(&self) -> (r: u64)
        ensures
            r == self@.0,
    {
        self.cells.as_u64()
    }

    /// Number of public cells.
    pub fn public_cells(&self) -> (r: u64)
        ensures
            r == self@.2,
    {
        self.public_cells.as_u64()
    }

    /// The given amounts; refused when one does not fit in 48 bits.
    pub fn with_values_checked(cells: u64, bits: u64, public_cells: u64) -> (r: Result<Self, BlockError>)
        ensures
            r is Ok <==> (cells <= VAR_UINTEGER7_MAX && bits <= VAR_UINTEGER7_MAX && public_cells <= VAR_UINTEGER7_MAX),
            r is Ok ==> r->Ok_0@ == (cells as nat, bits as nat, public_cells as nat),
    {
        Ok(
            StorageUsed {
                cells: VarUInteger7::new(cells)?,
                bits: VarUInteger7::new(bits)?,
                public_cells: VarUInteger7::new(public_cells)?,
            },
        )
    }
}

/// Storage of a tree of cells: cells and bits
/// (`storage_used_short$_ cells:(VarUInteger 7) bits:(VarUInteger 7)`).
#[derive(Clone, Copy, Debug, Default, PartialEq, Eq, PartialOrd, Ord)]
pub struct StorageUsedShort {
    cells: VarUInteger7,
    bits: VarUInteger7,
}

impl View for StorageUsedShort {
    /// Cells and bits.
    type V = (nat, nat);

    closed spec fn view(&self) -> (nat, nat) {
        (self.cells@, self.bits@)
    }
}

/// Adds each amount in turn to `v`, skipping one that would take it above 2^48 - 1.
pub open spec fn checked_sum(v: nat, xs: Seq<nat>) -> nat
    decreases xs.len(),
{
    if xs.len() == 0 {
        v
    } else {
        let w = checked_sum(v, xs.drop_last());
        if w + xs.last() <= VAR_UINTEGER7_MAX {
            w + xs.last()
        } else {
            w
        }
    }
}

/// Whether entry `i` is the first with its hash.
pub open spec fn first_seen(s: Seq<(UInt256, u64)>, i: int) -> bool {
    forall|j: int| 0 <= j < i ==> s[j].0 != s[i].0
}

/// For each cell first seen in the first `n` entries, in order: one (a cell).
pub open spec fn distinct_ones(s: Seq<(UInt256, u64)>, n: int) -> Seq<nat>
    decreases n,
{
    if n <= 0 {
        Seq::empty()
    } else if first_seen(s, n - 1) {
        distinct_ones(s, n - 1).push(1)
    } else {
        distinct_ones(s, n - 1)
    }
}

/// For each cell first seen in the first `n` entries, in order: its bit length.
pub open spec fn distinct_bits(s: Seq<(UInt256, u64)>, n: int) -> Seq<nat>
    decreases n,
{
    if n <= 0 {
        Seq::empty()
    } else if first_seen(s, n - 1) {
        distinct_bits(s, n - 1).push(s[n - 1].1 as nat)
    } else {
        distinct_bits(s, n - 1)
    }
}

impl StorageUsedShort {
    /// Nothing used.
    pub fn new() -> (r: Self)
        ensures
            r@ == (0nat, 0nat),
    {
        StorageUsedShort { cells: VarUInteger7::zero(), bits: VarUInteger7::zero() }
    }

    /// Number of bits.
    pub fn bits(&self) -> (r: u64)
        ensures
            r == self@.1,
    {
        self.bits.as_u64()
    }

    /// Number of cells.
    pub fn cells(&self) -> (r: u64)
        ensures
            r == self@.0,
    {
        self.cells.as_u64()
    }

    /// The given amounts; refused when one does not fit in 48 bits.
    pub fn with_values_checked(cells: u64, bits: u64) -> (r: Result<Self, BlockError>)
        ensures
            r is Ok <==> (cells <= VAR_UINTEGER7_MAX && bits <= VAR_UINTEGER7_MAX),
            r is Ok ==> r->Ok_0@ == (cells as nat, bits as nat),
    {
        Ok(StorageUsedShort { cells: VarUInteger7::new(cells)?, bits: VarUInteger7::new(bits)? })
    }

    /// Adds the storage of a tree of cells, given as the cells met by a depth-first walk
    /// from its root: the representation hash and the bit length of each. A cell is counted
    /// once however often it is met (a repeated hash is the same subtree). Each addition that
    /// would go above 2^48 - 1 is skipped.
    pub fn append(&mut self, cells: &Vec<(UInt256, u64)>)
        ensures
            final(self)@.0 == checked_sum(old(self)@.0, distinct_ones(cells@, cells@.len() as int)),
            final(self)@.1 == checked_sum(old(self)@.1, distinct_bits(cells@, cells@.len() as int)),
    {
        let mut seen: Vec<UInt256> = Vec::new();
        let mut i: usize = 0;
        while i < cells.len()
            invariant
                i <= cells@.len(),
                self@.0 == checked_sum(old(self)@.0, distinct_ones(cells@, i as int)),
                self@.1 == checked_sum(old(self)@.1, distinct_bits(cells@, i as int)),
                forall|h: UInt256| seen@.contains(h) <==> exists|j: int| 0 <= j < i && cells@[j].0 == h,
            decreases cells@.len() - i,
        {
            let (hash, bit_length) = cells[i];
            let mut found = false;
            let mut k: usize = 0;
            while k < seen.len()
                invariant
                    k <= seen@.len(),
                    found <==> exists|j: int| 0 <= j < k && seen@[j] == hash,
                decreases seen@.len() - k,
            {
                if seen[k].equals(&hash) {
                    found = true;
                }
                k = k + 1;
            }
            proof {
                assert(found <==> seen@.contains(hash));
                assert(first_seen(cells@, i as int) <==> !found) by {
                    if found {
                        let j = choose|j: int| 0 <= j < i && cells@[j].0 == hash;
                        assert(cells@[j].0 == cells@[i as int].0);
                    }
                    if !found {
                        assert forall|j: int| 0 <= j < i implies cells@[j].0 != cells@[i as int].0 by {
                            if cells@[j].0 == hash {
                                assert(seen@.contains(hash));
                            }
                        }
                    }
                }
                assert(distinct_ones(cells@, i + 1) == if first_seen(cells@, i as int) {
                    distinct_ones(cells@, i as int).push(1)
                } else {
                    distinct_ones(cells@, i as int)
                });
                assert(distinct_bits(cells@, i + 1) == if first_seen(cells@, i as int) {
                    distinct_bits(cells@, i as int).push(bit_length as nat)
                } else {
                    distinct_bits(cells@, i as int)
                });
            }
            if !found {
                let ghost seen0 = seen@;
                self.cells.add_checked(1);
                self.bits.add_checked(bit_length);
                seen.push(hash);
                proof {
                    let s1 = distinct_ones(cells@, i as int).push(1);
                    assert(s1.drop_last() =~= distinct_ones(cells@, i as int));
                    let s2 = distinct_bits(cells@, i as int).push(bit_length as nat);
                    assert(s2.drop_last() =~= distinct_bits(cells@, i as int));
                    assert(seen@ == seen0.push(hash));
                    assert forall|h: UInt256| seen@.contains(h) <==> exists|j: int| 0 <= j < i + 1 && cells@[j].0 == h by {
                        if seen@.contains(h) {
                            let m = choose|m: int| 0 <= m < seen@.len() && seen@[m] == h;
                            if m < seen0.len() {
                                assert(seen0[m] == h);
                                assert(seen0.contains(h));
                            } else {
                                assert(cells@[i as int].0 == h);
                            }
                        }
                        if exists|j: int| 0 <= j < i + 1 && cells@[j].0 == h {
                            let j = choose|j: int| 0 <= j < i + 1 && cells@[j].0 == h;
                            if j == i {
                                assert(seen@[seen0.len() as int] == h);
                            } else {
                                assert(seen0.contains(h));
                                let m = choose|m: int| 0 <= m < seen0.len() && seen0[m] == h;
                                assert(seen@[m] == h);
                            }
                        }
                    }
                }
            } else {
                proof {
                    assert forall|h: UInt256| seen@.contains(h) <==> exists|j: int| 0 <= j < i + 1 && cells@[j].0 == h by {
                        if exists|j: int| 0 <= j < i + 1 && cells@[j].0 == h {
                            let j = choose|j: int| 0 <= j < i + 1 && cells@[j].0 == h;
                            if j == i {
                                assert(h == hash);
                            }
                        }
                    }
                }
            }
            i = i + 1;
        }
    }
}

/// Storage profile of an account: what it uses, when it last paid, what it owes
/// (`storage_info$_ used:StorageUsed last_paid:uint32 due_payment:(Maybe Grams)`).
#[derive(Clone, Copy, Debug, Default, PartialEq, Eq)]
pub struct StorageInfo {
    used: StorageUsed,
    last_paid: u32,
    due_payment: Option<Grams>,
}

impl StorageInfo {
    /// The storage used.
    pub closed spec fn spec_used(&self) -> StorageUsed {
        self.used
    }

    /// The time of the last payment.
    pub closed spec fn spec_last_paid(&self) -> u32 {
        self.last_paid
    }

    /// The amount due, if any.
    pub closed spec fn spec_due_payment(&self) -> Option<Grams> {
        self.due_payment
    }

    /// Nothing used, with the given payment time and amount due.
    pub fn with_values(last_paid: u32, due_payment: Option<Grams>) -> (r: Self)
        ensures
            r.spec_used()@ == (0nat, 0nat, 0nat),
            r.spec_last_paid() == last_paid,
            r.spec_due_payment() == due_payment,
    {
        StorageInfo { used: StorageUsed::new(), last_paid, due_payment }
    }

    /// The storage used.
    pub fn used(&self) -> (r: &StorageUsed)
        ensures
            *r == self.spec_used(),
    {
        &self.used
    }

    /// The time of the last payment.
    pub fn last_paid(&self) -> (r: u32)
        ensures
            r == self.spec_last_paid(),
    {
        self.last_paid
    }

    /// The amount due, if any.
    pub fn due_payment(&self) -> (r: Option<&Grams>)
        ensures
            r == match self.spec_due_payment() {
                Some(g) => Some(&g),
                None => None::<&Grams>,
            },
    {
        self.due_payment.as_ref()
    }
}

/// Status of an account (`acc_state_uninit$00`, `acc_state_frozen$01`, `acc_state_active$10`,
/// `acc_state_nonexist$11`).
#[derive(Clone, Copy, Debug, PartialEq, Eq, PartialOrd, Ord)]
pub enum AccountStatus {
    AccStateUninit,
    AccStateFrozen,
    AccStateActive,
    AccStateNonexist,
}

impl Default for AccountStatus {
    fn default() -> (r: Self)
        ensures
            r == AccountStatus::AccStateUninit,
    {
        AccountStatus::AccStateUninit
    }
}

/// The two-bit tag of a status.
pub open spec fn status_tag(s: AccountStatus) -> u8 {
    match s {
        AccountStatus::AccStateUninit => 0,
        AccountStatus::AccStateFrozen => 1,
        AccountStatus::AccStateActive => 2,
        AccountStatus::AccStateNonexist => 3,
    }
}

impl AccountStatus {
    /// The two-bit tag of the status.
    pub fn tag(&self) -> (r: u8)
        ensures
            r == status_tag(*self),
    {
        match self {
            AccountStatus::AccStateUninit => 0b00,
            AccountStatus::AccStateFrozen => 0b01,
            AccountStatus::AccStateActive => 0b10,
            AccountStatus::AccStateNonexist => 0b11,
        }
    }

    /// The status whose tag is the two low bits of `bits`.
    pub fn from_tag(bits: u8) -> (r: Self)
        ensures
            status_tag(r) == bits % 4,
    {
        let b = bits & 3;
        assert(b == bits % 4) by (bit_vector)
            requires b == bits & 3;
        if b == 0 {
            AccountStatus::AccStateUninit
        } else if b == 1 {
            AccountStatus::AccStateFrozen
        } else if b == 2 {
            AccountStatus::AccStateActive
        } else {
            AccountStatus::AccStateNonexist
        }
    }
}

/// Reading back the tag of a status gives the status.
pub proof fn law_status_tag_roundtrip(s: AccountStatus, t: AccountStatus)
    requires
        status_tag(t) == status_tag(s) % 4,
    ensures
        t == s,
{
}

/// Storage statistics as stored: cells, bits and public cells, one variable-length integer each.
pub open spec fn storage_used_bytes(u: (nat, nat, nat)) -> Seq<u8> {
    var_uint_bytes(u.0) + var_uint_bytes(u.1) + var_uint_bytes(u.2)
}

/// The storage statistics stored at `p` in `data` with the position after them, or `None`.
pub open spec fn parse_storage_used(data: Seq<u8>, p: int) -> Option<((nat, nat, nat), int)> {
    match parse_var_uint(data, p, 6) {
        Some((c, p1)) => match parse_var_uint(data, p1, 6) {
            Some((b, p2)) => match parse_var_uint(data, p2, 6) {
                Some((pc, p3)) => Some(((c, b, pc), p3)),
                None => None,
            },
            None => None,
        },
        None => None,
    }
}

/// Short storage statistics as stored: cells and bits.
pub open spec fn storage_used_short_bytes(u: (nat, nat)) -> Seq<u8> {
    var_uint_bytes(u.0) + var_uint_bytes(u.1)
}

/// The short storage statistics stored at `p` in `data` with the position after them, or
/// `None`.
pub open spec fn parse_storage_used_short(data: Seq<u8>, p: int) -> Option<((nat, nat), int)> {
    match parse_var_uint(data, p, 6) {
        Some((c, p1)) => match parse_var_uint(data, p1, 6) {
            Some((b, p2)) => Some(((c, b), p2)),
            None => None,
        },
        None => None,
    }
}

impl StorageUsed {
    /// Appends the stored form of the statistics.
    pub fn write_to(&self, out: &mut Vec<u8>)
        ensures
            final(out)@ == old(out)@ + storage_used_bytes(self@),
    {
        self.cells.write_to(out);
        self.bits.write_to(out);
        self.public_cells.write_to(out);
        assert(out@ =~= old(out)@ + storage_used_bytes(self@));
    }

    /// Reads statistics stored at `*pos` and moves `*pos` past them. Fails, changing nothing,
    /// when one of the three values does not read.
    pub fn read_from(&mut self, data: &[u8], pos: &mut usize) -> (r: Result<(), BlockError>)
        ensures
            r is Ok <==> parse_storage_used(data@, *old(pos) as int) is Some,
            r is Ok ==> parse_storage_used(data@, *old(pos) as int) == Some((final(self)@, *final(pos) as int)),
            r is Err ==> *final(self) == *old(self) && *final(pos) == *old(pos),
    {
        let mut at = *pos;
        let mut cells = self.cells;
        let mut bits = self.bits;
        let mut public_cells = self.public_cells;
        cells.read_from(data, &mut at)?;
        bits.read_from(data, &mut at)?;
        public_cells.read_from(data, &mut at)?;
        *self = StorageUsed { cells, bits, public_cells };
        *pos = at;
        Ok(())
    }
}

impl StorageUsedShort {
    /// Appends the stored form of the statistics.
    pub fn write_to(&self, out: &mut Vec<u8>)
        ensures
            final(out)@ == old(out)@ + storage_used_short_bytes(self@),
    {
        self.cells.write_to(out);
        self.bits.write_to(out);
        assert(out@ =~= old(out)@ + storage_used_short_bytes(self@));
    }

    /// Reads statistics stored at `*pos` and moves `*pos` past them. Fails, changing nothing,
    /// when one of the two values does not read.
    pub fn read_from(&mut self, data: &[u8], pos: &mut usize) -> (r: Result<(), BlockError>)
        ensures
            r is Ok <==> parse_storage_used_short(data@, *old(pos) as int) is Some,
            r is Ok ==> parse_storage_used_short(data@, *old(pos) as int) == Some((final(self)@, *final(pos) as int)),
            r is Err ==> *final(self) == *old(self) && *final(pos) == *old(pos),
    {
        let mut at = *pos;
        let mut cells = self.cells;
        let mut bits = self.bits;
        cells.read_from(data, &mut at)?;
        bits.read_from(data, &mut at)?;
        *self = StorageUsedShort { cells, bits };
        *pos = at;
        Ok(())
    }
}

/// Stored storage statistics read back as themselves, when each value fits in 48 bits.
pub proof fn law_storage_used_roundtrip(u: (nat, nat, nat), pre: Seq<u8>, post: Seq<u8>)
    requires
        u.0 <= VAR_UINTEGER7_MAX,
        u.1 <= VAR_UINTEGER7_MAX,
        u.2 <= VAR_UINTEGER7_MAX,
    ensures
        parse_storage_used(pre + storage_used_bytes(u) + post, pre.len() as int) == Some(
            (u, (pre.len() + storage_used_bytes(u).len()) as int),
        ),
{
    let a = var_uint_bytes(u.0);
    let b = var_uint_bytes(u.1);
    let c = var_uint_bytes(u.2);
    let d = pre + storage_used_bytes(u) + post;
    lemma_var_uint_lengths(u.0);
    lemma_var_uint_lengths(u.1);
    lemma_var_uint_lengths(u.2);
    law_var_uint_roundtrip(u.0, 6, pre, b + c + post);
    assert(d =~= pre + a + (b + c + post));
    law_var_uint_roundtrip(u.1, 6, pre + a, c + post);
    assert(d =~= (pre + a) + b + (c + post));
    law_var_uint_roundtrip(u.2, 6, pre + a + b, post);
    assert(d =~= (pre + a + b) + c + post);
    assert(storage_used_bytes(u).len() == a.len() + b.len() + c.len());
}

/// Stored short storage statistics read back as themselves, when each value fits in 48 bits.
pub proof fn law_storage_used_short_roundtrip(u: (nat, nat), pre: Seq<u8>, post: Seq<u8>)
    requires
        u.0 <= VAR_UINTEGER7_MAX,
        u.1 <= VAR_UINTEGER7_MAX,
    ensures
        parse_storage_used_short(pre + storage_used_short_bytes(u) + post, pre.len() as int) == Some(
            (u, (pre.len() + storage_used_short_bytes(u).len()) as int),
        ),
{
    let a = var_uint_bytes(u.0);
    let b = var_uint_bytes(u.1);
    let d = pre + storage_used_short_bytes(u) + post;
    lemma_var_uint_lengths(u.0);
    lemma_var_uint_lengths(u.1);
    law_var_uint_roundtrip(u.0, 6, pre, b + post);
    assert(d =~= pre + a + (b + post));
    law_var_uint_roundtrip(u.1, 6, pre + a, post);
    assert(d =~= (pre + a) + b + post);
    assert(storage_used_short_bytes(u).len() == a.len() + b.len());
}

/// An optional amount by its value.
pub open spec fn amount_view(g: Option<Grams>) -> Option<nat> {
    match g {
        Some(x) => Some(x@),
        None => None,
    }
}

/// An optional amount as stored: `0` for none, or `1` and then the amount.
pub open spec fn maybe_grams_bytes(g: Option<nat>) -> Seq<u8> {
    match g {
        None => seq![0u8],
        Some(v) => seq![1u8] + var_uint_bytes(v),
    }
}

/// The optional amount stored at `p` in `data` with the position after it, or `None`.
pub open spec fn parse_maybe_grams(data: Seq<u8>, p: int) -> Option<(Option<nat>, int)> {
    if p < 0 || p >= data.len() {
        None
    } else if data[p] == 0 {
        Some((None, p + 1))
    } else if data[p] == 1 {
        match parse_var_uint(data, p + 1, 15) {
            Some((v, q)) => Some((Some(v), q)),
            None => None,
        }
    } else {
        None
    }
}

/// Storage information as stored: the statistics, the time of the last payment and the
/// optional amount due.
pub open spec fn storage_info_bytes(used: (nat, nat, nat), last_paid: u32, due: Option<nat>) -> Seq<u8> {
    storage_used_bytes(used) + be32(last_paid) + maybe_grams_bytes(due)
}

/// The storage information stored at `p` in `data` with the position after it, or `None`.
pub open spec fn parse_storage_info(data: Seq<u8>, p: int) -> Option<(((nat, nat, nat), u32, Option<nat>), int)> {
    match parse_storage_used(data, p) {
        Some((used, p1)) => if p1 + 4 > data.len() {
            None
        } else {
            match parse_maybe_grams(data, p1 + 4) {
                Some((due, p2)) => Some(((used, be32_at(data, p1), due), p2)),
                None => None,
            }
        },
        None => None,
    }
}

impl StorageInfo {
    /// Appends the stored form of the information.
    pub fn write_to(&self, out: &mut Vec<u8>)
        ensures
            final(out)@ == old(out)@ + storage_info_bytes(
                self.spec_used()@,
                self.spec_last_paid(),
                amount_view(self.spec_due_payment()),
            ),
    {
        self.used.write_to(out);
        push_u32(out, self.last_paid);
        match &self.due_payment {
            Some(g) => {
                out.push(1u8);
                g.write_to(out);
            },
            None => {
                out.push(0u8);
            },
        }
        assert(out@ =~= old(out)@ + storage_info_bytes(
            self.spec_used()@,
            self.spec_last_paid(),
            amount_view(self.spec_due_payment()),
        ));
    }

    /// Reads information stored at `*pos` and moves `*pos` past it. Fails, changing nothing,
    /// when a part does not read.
    pub fn read_from(&mut self, data: &[u8], pos: &mut usize) -> (r: Result<(), BlockError>)
        ensures
            r is Ok <==> parse_storage_info(data@, *old(pos) as int) is Some,
            r is Ok ==> parse_storage_info(data@, *old(pos) as int) == Some(
                (
                    (final(self).spec_used()@, final(self).spec_last_paid(), amount_view(final(self).spec_due_payment())),
                    *final(pos) as int,
                ),
            ),
            r is Err ==> *final(self) == *old(self) && *final(pos) == *old(pos),
    {
        let mut at = *pos;
        let mut used = self.used;
        used.read_from(data, &mut at)?;
        if data.len() < 4 || at > data.len() - 4 {
            return Err(BlockError::InvalidData(message("cell underflow")));
        }
        let last_paid = get_u32(data, at);
        at = at + 4;
        if at >= data.len() {
            return Err(BlockError::InvalidData(message("cell underflow")));
        }
        let flag = data[at];
        let due_payment = if flag == 0 {
            at = at + 1;
            None
        } else if flag == 1 {
            at = at + 1;
            let mut g = Grams::zero();
            g.read_from(data, &mut at)?;
            Some(g)
        } else {
            return Err(BlockError::InvalidData(message("bad flag of an optional value")));
        };
        *self = StorageInfo { used, last_paid, due_payment };
        *pos = at;
        Ok(())
    }
}

/// Stored storage information reads back as itself, when each statistic fits in 48 bits and
/// the amount due in `Grams`.
pub proof fn law_storage_info_roundtrip(
    used: (nat, nat, nat),
    last_paid: u32,
    due: Option<nat>,
    pre: Seq<u8>,
    post: Seq<u8>,
)
    requires
        used.0 <= VAR_UINTEGER7_MAX,
        used.1 <= VAR_UINTEGER7_MAX,
        used.2 <= VAR_UINTEGER7_MAX,
        due matches Some(v) ==> v <= GRAMS_MAX,
    ensures
        parse_storage_info(pre + storage_info_bytes(used, last_paid, due) + post, pre.len() as int) == Some(
            ((used, last_paid, due), (pre.len() + storage_info_bytes(used, last_paid, due).len()) as int),
        ),
{
    let u = storage_used_bytes(used);
    let m = maybe_grams_bytes(due);
    let d = pre + storage_info_bytes(used, last_paid, due) + post;
    let n = pre.len() as int;
    law_storage_used_roundtrip(used, pre, be32(last_paid) + m + post);
    assert(d =~= pre + u + (be32(last_paid) + m + post));
    lemma_be_roundtrip(pre + u, m + post, 0, last_paid, 0);
    assert(d =~= (pre + u) + be32(last_paid) + (m + post));
    let q = n + u.len() + 4;
    match due {
        None => {
            assert(d[q] == 0u8);
        },
        Some(v) => {
            lemma_var_uint_lengths(v);
            law_var_uint_roundtrip(v, 15, pre + u + be32(last_paid) + seq![1u8], post);
            assert(d =~= (pre + u + be32(last_paid) + seq![1u8]) + var_uint_bytes(v) + post);
            assert(d[q] == 1u8);
        },
    }
}

} // verus!
