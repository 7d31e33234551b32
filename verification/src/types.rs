use vstd::prelude::*;

use crate::bytes::{
    be_bytes, be_value, byte_len, byte_len_u128, get_be_u128, lemma_be_bytes_value, lemma_be_value_bound, lemma_byte_len_bound,
    lemma_pow256_mono, lemma_pow256_values, push_be_u128,
};
use crate::error::{message, BlockError};

verus! {

/// Largest amount of nanograms that the `Grams` encoding (`VarUInteger 16`) can carry: 2^120 - 1.
pub const GRAMS_MAX: u128 = 0xff_ffff_ffff_ffff_ffff_ffff_ffff_ffff;

/// Largest value of a `VarUInteger 7`, whose length field is below 7 (at most 6 bytes):
/// 2^48 - 1.
pub const VAR_UINTEGER7_MAX: u64 = 0xffff_ffff_ffff;

/// Largest value of the high half of a `VarUInteger 32` (the whole value stays below 2^248).
pub const VAR_UINTEGER32_HI_MAX: u128 = 0xff_ffff_ffff_ffff_ffff_ffff_ffff_ffff;

/// 2^128, the weight of the high half of a `VarUInteger 32`.
pub open spec fn two_pow_128() -> int {
    0x1_0000_0000_0000_0000_0000_0000_0000_0000int
}

/// Most data bits a cell can hold.
pub const MAX_DATA_BITS: usize = 1023;

/// Most child cells a cell can hold.
pub const MAX_REFERENCES_COUNT: usize = 4;

/// Amount of nanograms.
#[derive(Clone, Copy, Debug, PartialEq, Eq, PartialOrd, Ord, Hash)]
pub struct Grams(u128);

impl Default for Grams {
    fn default() -> (r: Self)
        ensures
            r@ == 0,
    {
        Grams(0)
    }
}

impl View for Grams {
    type V = nat;

    closed spec fn view(&self) -> nat {
        self.0 as nat
    }
}

impl Grams {
    /// An amount never exceeds `GRAMS_MAX`.
    #[verifier::type_invariant]
    pub open spec fn inv(&self) -> bool {
        self@ <= GRAMS_MAX
    }

    /// Zero nanograms.
    pub fn zero() -> (r: Self)
        ensures
            r@ == 0,
    {
        Grams(0)
    }

    /// Two amounts are equal exactly when their values are.
    pub proof fn lemma_view_eq(self, other: Grams)
        ensures
            self@ == other@ <==> self == other,
    {
    }

    /// Nanograms from a 64-bit amount (always representable).
    pub fn from_u64(value: u64) -> (r: Self)
        ensures
            r@ == value,
    {
        Grams(value as u128)
    }

    /// Nanograms from a 128-bit amount; fails above `GRAMS_MAX`.
    pub fn new(value: u128) -> (r: Result<Self, BlockError>)
        ensures
            value <= GRAMS_MAX <==> r is Ok,
            r matches Ok(g) ==> g@ == value,
    {
        if value > GRAMS_MAX {
            Err(BlockError::InvalidArg(message("value is too big for Grams")))
        } else {
            Ok(Grams(value))
        }
    }

    /// The amount as a 128-bit integer.
    pub fn as_u128(&self) -> (r: u128)
        ensures
            r == self@,
            r <= GRAMS_MAX,
    {
        proof {
            use_type_invariant(self);
        }
        self.0
    }

    /// True when the amount is zero.
    pub fn is_zero(&self) -> (r: bool)
        ensures
            r == (self@ == 0),
    {
        self.0 == 0
    }

}

/// Unsigned integer of at most 6 bytes (`VarUInteger 7`: a length below 7, then that many bytes).
#[derive(Clone, Copy, Debug, Default, PartialEq, Eq, PartialOrd, Ord, Hash)]
pub struct VarUInteger7(u64);

impl View for VarUInteger7 {
    type V = nat;

    closed spec fn view(&self) -> nat {
        self.0 as nat
    }
}

impl VarUInteger7 {
    /// A value never exceeds `VAR_UINTEGER7_MAX`.
    #[verifier::type_invariant]
    pub open spec fn inv(&self) -> bool {
        self@ <= VAR_UINTEGER7_MAX
    }

    /// Zero.
    pub fn zero() -> (r: Self)
        ensures
            r@ == 0,
    {
        VarUInteger7(0)
    }

    /// Checked constructor: fails above 2^48 - 1.
    pub fn new(value: u64) -> (r: Result<Self, BlockError>)
        ensures
            value <= VAR_UINTEGER7_MAX <==> r is Ok,
            r matches Ok(v) ==> v@ == value,
    {
        if value > VAR_UINTEGER7_MAX {
            Err(BlockError::InvalidArg(message("value is too big for VarUInteger7")))
        } else {
            Ok(VarUInteger7(value))
        }
    }

    /// The value.
    pub fn as_u64(&self) -> (r: u64)
        ensures
            r == self@,
    {
        self.0
    }

    /// Adds `value` when the sum still fits; returns whether it did.
    pub fn add_checked(&mut self, value: u64) -> (r: bool)
        ensures
            r == (old(self)@ + value <= VAR_UINTEGER7_MAX),
            r ==> final(self)@ == old(self)@ + value,
            !r ==> *final(self) == *old(self),
    {
        if value <= VAR_UINTEGER7_MAX && self.0 <= VAR_UINTEGER7_MAX - value {
            self.0 = self.0 + value;
            true
        } else {
            false
        }
    }
}

/// Unsigned integer of at most 32 bytes (`VarUInteger 32`), kept as two 128-bit halves.
#[derive(Clone, Copy, Debug, Default, PartialEq, Eq, PartialOrd, Ord, Hash)]
pub struct VarUInteger32 {
    hi: u128,
    lo: u128,
}

impl View for VarUInteger32 {
    type V = nat;

    closed spec fn view(&self) -> nat {
        (self.hi * two_pow_128() + self.lo) as nat
    }
}

impl VarUInteger32 {
    /// The largest value a `VarUInteger 32` holds: 2^248 - 1.
    pub open spec fn max_value() -> int {
        (VAR_UINTEGER32_HI_MAX + 1) * two_pow_128() - 1
    }

    /// Builds `hi * 2^128 + lo`; fails when the value does not fit in 31 bytes.
    pub fn from_two_u128(hi: u128, lo: u128) -> (r: Result<Self, BlockError>)
        ensures
            hi <= VAR_UINTEGER32_HI_MAX <==> r is Ok,
            r matches Ok(v) ==> v@ == hi * two_pow_128() + lo && v.is_valid(),
    {
        proof {
            lemma_valid_iff_high_half(hi, lo);
        }
        if hi > VAR_UINTEGER32_HI_MAX {
            Err(BlockError::InvalidArg(message("value is too big for VarUInteger32")))
        } else {
            Ok(VarUInteger32 { hi, lo })
        }
    }

    /// Zero.
    pub fn zero() -> (r: Self)
        ensures
            r@ == 0,
            r.is_valid(),
    {
        VarUInteger32 { hi: 0, lo: 0 }
    }

    /// True when `self@ < other@`.
    pub fn less_than(&self, other: &Self) -> (r: bool)
        ensures
            r == (self@ < other@),
    {
        let r = self.hi < other.hi || (self.hi == other.hi && self.lo < other.lo);
        proof {
            lemma_two_halves_order(self.hi, self.lo, other.hi, other.lo);
        }
        r
    }

    /// Adds `other`; fails (and leaves `self` unchanged) when the sum exceeds 2^248 - 1.
    pub fn add(&mut self, other: &Self) -> (r: Result<(), BlockError>)
        requires
            old(self).is_valid(),
            other.is_valid(),
        ensures
            (old(self)@ + other@ <= Self::max_value()) <==> r is Ok,
            r is Ok ==> final(self)@ == old(self)@ + other@,
            final(self).is_valid(),
            r is Err ==> *final(self) == *old(self),
    {
        proof {
            lemma_valid_iff_high_half(self.hi, self.lo);
            lemma_valid_iff_high_half(other.hi, other.lo);
        }
        let lo = self.lo.wrapping_add(other.lo);
        let carry: u128 = if lo < self.lo { 1 } else { 0 };
        let hi = self.hi + other.hi + carry;
        proof {
            assert(self.lo + other.lo == lo + carry * two_pow_128());
        }
        proof {
            lemma_valid_iff_high_half(hi as u128, lo);
        }
        if hi > VAR_UINTEGER32_HI_MAX {
            Err(BlockError::InvalidArg(message("VarUInteger32 overflow")))
        } else {
            self.hi = hi;
            self.lo = lo;
            Ok(())
        }
    }

    /// Subtracts `other` when it is not larger than `self`; returns whether it did.
    pub fn sub(&mut self, other: &Self) -> (r: bool)
        ensures
            r == (other@ <= old(self)@),
            r ==> final(self)@ == old(self)@ - other@,
            old(self).is_valid() ==> final(self).is_valid(),
            !r ==> *final(self) == *old(self),
    {
        proof {
            lemma_two_halves_order(self.hi, self.lo, other.hi, other.lo);
        }
        if self.hi < other.hi || (self.hi == other.hi && self.lo < other.lo) {
            return false;
        }
        let borrow: u128 = if self.lo < other.lo { 1 } else { 0 };
        let lo = self.lo.wrapping_sub(other.lo);
        let hi = self.hi - other.hi - borrow;
        proof {
            assert(self.lo - other.lo == lo - borrow * two_pow_128());
        }
        self.hi = hi;
        self.lo = lo;
        proof {
            lemma_valid_iff_high_half(self.hi, self.lo);
            lemma_valid_iff_high_half(old(self).hi, old(self).lo);
        }
        true
    }

    /// True when the value fits the encoding (below 2^248).
    pub open spec fn is_valid(&self) -> bool {
        self@ <= Self::max_value()
    }
}

/// A value given as two halves fits in 31 bytes exactly when its high half fits in 15 bytes.
proof fn lemma_valid_iff_high_half(hi: u128, lo: u128)
    ensures
        (hi * two_pow_128() + lo <= VarUInteger32::max_value()) == (hi <= VAR_UINTEGER32_HI_MAX),
{
    lemma_two_halves_order(hi, lo, (VAR_UINTEGER32_HI_MAX + 1) as u128, 0);
}

/// Two values given as 128-bit halves compare as their high halves, then their low halves.
proof fn lemma_two_halves_order(ah: u128, al: u128, bh: u128, bl: u128)
    ensures
        (ah * two_pow_128() + al < bh * two_pow_128() + bl)
            == (ah < bh || (ah == bh && al < bl)),
{
    if ah < bh {
        assert(ah * two_pow_128() + two_pow_128() <= bh * two_pow_128()) by (nonlinear_arith)
            requires ah < bh;
    } else if ah > bh {
        assert(bh * two_pow_128() + two_pow_128() <= ah * two_pow_128()) by (nonlinear_arith)
            requires ah > bh;
    }
}


/// Unsigned integer of at most 5 bits (`## 5`).
#[derive(Clone, Copy, Debug, Default, PartialEq, Eq, PartialOrd, Ord, Hash)]
pub struct Number5(u32);

/// Unsigned integer of at most 12 bits (`## 12`).
#[derive(Copy, Debug, PartialEq, Eq, PartialOrd, Ord, Hash)]
pub struct Number12(u32);

impl Clone for Number12 {
    fn clone(&self) -> (r: Self)
        ensures
            r == *self,
    {
        *self
    }
}

impl Default for Number12 {
    fn default() -> (r: Self)
        ensures
            r@ == 0,
    {
        Number12(0)
    }
}

/// Unsigned integer of at most 16 bits (`## 16`).
#[derive(Clone, Copy, Debug, Default, PartialEq, Eq, PartialOrd, Ord, Hash)]
pub struct Number16(u32);

/// Unsigned integer of 32 bits (`## 32`).
#[derive(Clone, Copy, Debug, Default, PartialEq, Eq, PartialOrd, Ord, Hash)]
pub struct Number32(u32);

impl View for Number5 {
    type V = nat;

    closed spec fn view(&self) -> nat {
        self.0 as nat
    }
}

impl View for Number12 {
    type V = nat;

    closed spec fn view(&self) -> nat {
        self.0 as nat
    }
}

impl View for Number16 {
    type V = nat;

    closed spec fn view(&self) -> nat {
        self.0 as nat
    }
}

impl View for Number32 {
    type V = nat;

    closed spec fn view(&self) -> nat {
        self.0 as nat
    }
}

impl Number5 {
    /// Checked constructor: fails above 31.
    pub fn new(value: u32) -> (r: Result<Self, BlockError>)
        ensures
            value <= 31 <==> r is Ok,
            r matches Ok(n) ==> n@ == value,
    {
        Self::new_checked(value, 31)
    }

    /// Checked constructor with a tighter bound: fails above `max` (and above 31).
    pub fn new_checked(value: u32, max: u32) -> (r: Result<Self, BlockError>)
        ensures
            (value <= max && value <= 31) <==> r is Ok,
            r matches Ok(n) ==> n@ == value,
    {
        if value > max || value > 31 {
            Err(BlockError::InvalidArg(message("value is too big for Number5")))
        } else {
            Ok(Number5(value))
        }
    }

    /// The value.
    pub fn as_u32(&self) -> (r: u32)
        ensures
            r == self@,
    {
        self.0
    }
}

impl Number12 {
    /// A 12-bit value is at most 4095.
    #[verifier::type_invariant]
    closed spec fn fits(self) -> bool {
        self.0 <= 4095
    }

    /// Checked constructor: fails above 4095.
    pub fn new(value: u32) -> (r: Result<Self, BlockError>)
        ensures
            value <= 4095 <==> r is Ok,
            r matches Ok(n) ==> n@ == value,
    {
        if value > 4095 {
            Err(BlockError::InvalidArg(message("value is too big for Number12")))
        } else {
            Ok(Number12(value))
        }
    }

    /// The value as `u16` (it always fits).
    pub fn as_u16(&self) -> (r: u16)
        ensures
            r == self@,
            r <= 4095,
    {
        proof {
            use_type_invariant(self);
        }
        self.0 as u16
    }

    /// The value.
    pub fn as_u32(&self) -> (r: u32)
        ensures
            r == self@,
    {
        self.0
    }
}

impl Number16 {
    /// Zero.
    pub fn zero() -> (r: Self)
        ensures
            r@ == 0,
    {
        Number16(0)
    }

    /// Checked constructor: fails above 65535.
    pub fn new(value: u32) -> (r: Result<Self, BlockError>)
        ensures
            value <= 65535 <==> r is Ok,
            r matches Ok(n) ==> n@ == value,
    {
        if value > 65535 {
            Err(BlockError::InvalidArg(message("value is too big for Number16")))
        } else {
            Ok(Number16(value))
        }
    }

    /// The value.
    pub fn as_u32(&self) -> (r: u32)
        ensures
            r == self@,
    {
        self.0
    }
}

impl Number32 {
    /// Constructor (every `u32` fits).
    pub fn new(value: u32) -> (r: Self)
        ensures
            r@ == value,
    {
        Number32(value)
    }

    /// The value.
    pub fn as_u32(&self) -> (r: u32)
        ensures
            r == self@,
    {
        self.0
    }
}

/// Unix time in seconds, 32 bits.
#[derive(Clone, Copy, Debug, Default, PartialEq, Eq, PartialOrd, Ord, Hash)]
pub struct UnixTime32(u32);

impl View for UnixTime32 {
    type V = u32;

    closed spec fn view(&self) -> u32 {
        self.0
    }
}

impl UnixTime32 {
    /// Time from seconds.
    pub fn new(seconds: u32) -> (r: Self)
        ensures
            r@ == seconds,
    {
        UnixTime32(seconds)
    }

    /// Seconds.
    pub fn as_u32(&self) -> (r: u32)
        ensures
            r == self@,
    {
        self.0
    }
}

/// 256-bit value (hash, account address), big-endian bytes.
#[derive(Clone, Copy, Debug, Default, PartialEq, Eq, PartialOrd, Ord, Hash)]
pub struct UInt256([u8; 32]);

impl View for UInt256 {
    type V = Seq<u8>;

    closed spec fn view(&self) -> Seq<u8> {
        self.0@
    }
}

impl UInt256 {
    /// The value with all bits zero.
    pub fn new() -> (r: Self)
        ensures
            r@ == Seq::new(32, |i: int| 0u8),
    {
        let r = UInt256([0u8; 32]);
        assert(r@ =~= Seq::new(32, |i: int| 0u8));
        r
    }

    /// The value with the given bytes.
    pub fn with_array(bytes: [u8; 32]) -> (r: Self)
        ensures
            r@ == bytes@,
    {
        UInt256(bytes)
    }

    /// The bytes.
    pub fn as_array(&self) -> (r: &[u8; 32])
        ensures
            r@ == self@,
    {
        &self.0
    }

    /// A value has 32 bytes, and two values are equal exactly when their bytes are.
    pub proof fn lemma_bytes(self, other: UInt256)
        ensures
            self@.len() == 32,
            other@.len() == 32,
            self@ == other@ <==> self == other,
    {
        if self@ == other@ {
            assert(self.0 =~= other.0);
        }
    }

    /// Byte-wise equality.
    pub fn equals(&self, other: &UInt256) -> (r: bool)
        ensures
            r == (self@ == other@),
            r == (*self == *other),
    {
        let mut i: usize = 0;
        while i < 32
            invariant
                i <= 32,
                self.0@.len() == 32,
                other.0@.len() == 32,
                forall|j: int| 0 <= j < i ==> self.0@[j] == other.0@[j],
            decreases 32 - i,
        {
            if self.0[i] != other.0[i] {
                assert(self.0@[i as int] != other.0@[i as int]);
                return false;
            }
            i = i + 1;
        }
        assert(self.0@ =~= other.0@);
        assert(self.0 =~= other.0);
        true
    }
}

/// A value serialized into a child cell of its parent. The default cell is empty,
/// and reading a structure from an empty cell fails.
#[derive(Clone, Copy, Debug, Default, PartialEq, Eq)]
pub struct ChildCell<T> {
    value: Option<T>,
}

impl<T: Copy> ChildCell<T> {
    /// What the cell holds: `None` for an empty cell.
    pub closed spec fn spec_struct(&self) -> Option<T> {
        self.value
    }

    /// An empty cell.
    pub fn empty() -> (r: Self)
        ensures
            r.spec_struct() is None,
    {
        ChildCell { value: None }
    }

    /// A cell holding `value`.
    pub fn with_struct(value: &T) -> (r: Self)
        ensures
            r.spec_struct() == Some(*value),
    {
        ChildCell { value: Some(*value) }
    }

    /// Reads the stored structure; an empty cell cannot be read.
    pub fn read_struct(&self) -> (r: Result<T, BlockError>)
        ensures
            self.spec_struct() is Some <==> r is Ok,
            r is Ok ==> Some(r->Ok_0) == self.spec_struct(),
    {
        match self.value {
            Some(v) => Ok(v),
            None => Err(BlockError::InvalidData(message("cell underflow"))),
        }
    }

    /// Replaces the stored structure.
    pub fn write_struct(&mut self, value: &T)
        ensures
            final(self).spec_struct() == Some(*value),
    {
        self.value = Some(*value);
    }
}

/// A variable-length unsigned integer as stored: the number of bytes of its value, then those
/// bytes, high first.
pub open spec fn var_uint_bytes(v: nat) -> Seq<u8> {
    seq![byte_len(v) as u8] + be_bytes(v, byte_len(v))
}

/// The variable-length unsigned integer of at most `max_len` bytes stored at `p` in `data`,
/// with the position after it; `None` when the data ends too soon or the length is too big.
pub open spec fn parse_var_uint(data: Seq<u8>, p: int, max_len: nat) -> Option<(nat, int)> {
    if p < 0 || p >= data.len() {
        None
    } else {
        let len = data[p] as int;
        if len > max_len || p + 1 + len > data.len() {
            None
        } else {
            Some((be_value(data.subrange(p + 1, p + 1 + len)), p + 1 + len))
        }
    }
}

/// A stored variable-length integer reads back as itself, when it takes at most `max_len`
/// bytes.
pub proof fn law_var_uint_roundtrip(v: nat, max_len: nat, pre: Seq<u8>, post: Seq<u8>)
    requires
        byte_len(v) <= max_len <= 255,
    ensures
        parse_var_uint(pre + var_uint_bytes(v) + post, pre.len() as int, max_len) == Some(
            (v, (pre.len() + 1 + byte_len(v)) as int),
        ),
        var_uint_bytes(v).len() == 1 + byte_len(v),
{
    let n = pre.len() as int;
    let b = be_bytes(v, byte_len(v));
    let d = pre + var_uint_bytes(v) + post;
    lemma_be_bytes_value(v);
    assert(d[n] == byte_len(v) as u8);
    assert(d.subrange(n + 1, n + 1 + byte_len(v)) =~= b);
}

/// Reads the variable-length integer of at most `max_len` bytes stored at `*pos`, and moves
/// `*pos` past it.
fn read_var_uint(data: &[u8], pos: &mut usize, max_len: u8) -> (r: Result<u128, BlockError>)
    requires
        max_len <= 16,
    ensures
        r is Ok <==> parse_var_uint(data@, *old(pos) as int, max_len as nat) is Some,
        r matches Ok(v) ==> parse_var_uint(data@, *old(pos) as int, max_len as nat) == Some(
            (v as nat, *final(pos) as int),
        ),
        r is Err ==> *final(pos) == *old(pos),
{
    let p = *pos;
    if p >= data.len() {
        return Err(BlockError::InvalidData(message("cell underflow")));
    }
    let len = data[p];
    if len > max_len || data.len() - (p + 1) < len as usize {
        return Err(BlockError::InvalidData(message("cell underflow")));
    }
    let v = get_be_u128(data, p + 1, len as usize);
    *pos = p + 1 + len as usize;
    Ok(v)
}

impl VarUInteger7 {
    /// Appends the stored form of the value.
    pub fn write_to(&self, out: &mut Vec<u8>)
        ensures
            final(out)@ == old(out)@ + var_uint_bytes(self@),
    {
        let len = byte_len_u128(self.0 as u128);
        out.push(len as u8);
        push_be_u128(out, self.0 as u128, len);
        assert(out@ =~= old(out)@ + var_uint_bytes(self@));
    }

    /// Reads a value of at most 6 bytes stored at `*pos` and moves `*pos` past it. Fails,
    /// changing nothing, when the data ends too soon or the length is above 6.
    pub fn read_from(&mut self, data: &[u8], pos: &mut usize) -> (r: Result<(), BlockError>)
        ensures
            r is Ok <==> parse_var_uint(data@, *old(pos) as int, 6) is Some,
            r is Ok ==> parse_var_uint(data@, *old(pos) as int, 6) == Some((final(self)@, *final(pos) as int)),
            r is Err ==> *final(self) == *old(self) && *final(pos) == *old(pos),
    {
        let ghost p = *pos as int;
        let v = read_var_uint(data, pos, 6)?;
        proof {
            lemma_be_value_bound(data@.subrange(p + 1, p + 1 + data@[p] as int));
            lemma_pow256_mono(data@[p] as nat, 6);
            lemma_pow256_values();
        }
        *self = VarUInteger7(v as u64);
        Ok(())
    }
}

impl Grams {
    /// Appends the stored form of the amount.
    pub fn write_to(&self, out: &mut Vec<u8>)
        ensures
            final(out)@ == old(out)@ + var_uint_bytes(self@),
    {
        let len = byte_len_u128(self.0);
        out.push(len as u8);
        push_be_u128(out, self.0, len);
        assert(out@ =~= old(out)@ + var_uint_bytes(self@));
    }

    /// Reads an amount of at most 15 bytes stored at `*pos` and moves `*pos` past it. Fails,
    /// changing nothing, when the data ends too soon or the length is above 15.
    pub fn read_from(&mut self, data: &[u8], pos: &mut usize) -> (r: Result<(), BlockError>)
        ensures
            r is Ok <==> parse_var_uint(data@, *old(pos) as int, 15) is Some,
            r is Ok ==> parse_var_uint(data@, *old(pos) as int, 15) == Some((final(self)@, *final(pos) as int)),
            r is Err ==> *final(self) == *old(self) && *final(pos) == *old(pos),
    {
        let ghost p = *pos as int;
        let v = read_var_uint(data, pos, 15)?;
        proof {
            lemma_be_value_bound(data@.subrange(p + 1, p + 1 + data@[p] as int));
            lemma_pow256_mono(data@[p] as nat, 15);
            lemma_pow256_values();
        }
        *self = Grams(v);
        Ok(())
    }
}

/// The bytes that amounts and 7-byte values take fit their stored length limits.
pub proof fn lemma_var_uint_lengths(v: nat)
    ensures
        v <= VAR_UINTEGER7_MAX ==> byte_len(v) <= 6,
        v <= GRAMS_MAX ==> byte_len(v) <= 15,
{
    lemma_pow256_values();
    if v <= VAR_UINTEGER7_MAX {
        lemma_byte_len_bound(v, 6);
    }
    if v <= GRAMS_MAX {
        lemma_byte_len_bound(v, 15);
    }
}

} // verus!
