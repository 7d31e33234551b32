use vstd::prelude::*;

use crate::error::{message, BlockError};
use crate::messages::AddSub;
use crate::shard::{interpolated, AccountIdPrefixFull};
use crate::types::Grams;

verus! {

/// Number of bits of a full address: a 32-bit workchain id and a 64-bit prefix.
pub const FULL_BITS: u8 = 96;

/// An intermediate address of a message in transit
/// (`interm_addr_regular$0 use_dest_bits:(#<= 96)`,
/// `interm_addr_simple$10 workchain_id:int8 addr_pfx:(64 * Bit)`,
/// `interm_addr_ext$11 workchain_id:int32 addr_pfx:(64 * Bit)`).
#[derive(Clone, Copy, Debug, PartialEq, Eq, Hash)]
pub enum IntermediateAddress {
    Regular(IntermediateAddressRegular),
    Simple(IntermediateAddressSimple),
    Ext(IntermediateAddressExt),
}

/// An address that takes its first `use_dest_bits` bits from the destination and the rest
/// from the source.
#[derive(Copy, Debug, PartialEq, Eq, Hash)]
pub struct IntermediateAddressRegular {
    use_dest_bits: u8,
}

impl View for IntermediateAddressRegular {
    type V = u8;

    /// The number of bits taken from the destination.
    closed spec fn view(&self) -> u8 {
        self.use_dest_bits
    }
}

impl Clone for IntermediateAddressRegular {
    fn clone(&self) -> (r: Self)
        ensures
            r == *self,
    {
        *self
    }
}

impl Default for IntermediateAddressRegular {
    fn default() -> (r: Self)
        ensures
            r@ == 0,
    {
        IntermediateAddressRegular { use_dest_bits: 0 }
    }
}

impl IntermediateAddressRegular {
    /// At most the full 96 bits come from the destination.
    #[verifier::type_invariant]
    closed spec fn within_full(self) -> bool {
        self.use_dest_bits <= FULL_BITS
    }

    /// The address taking `use_src_bits` bits from the source; refused above 96.
    pub fn with_use_src_bits(use_src_bits: u8) -> (r: Result<Self, BlockError>)
        ensures
            r is Ok <==> use_src_bits <= FULL_BITS,
            r is Ok ==> r->Ok_0@ == FULL_BITS - use_src_bits,
            r is Err ==> r->Err_0 is InvalidArg,
    {
        if use_src_bits > FULL_BITS {
            return Err(BlockError::InvalidArg(message("use_src_bits must be <= 96")));
        }
        Ok(IntermediateAddressRegular { use_dest_bits: FULL_BITS - use_src_bits })
    }

    /// The address taking `use_dest_bits` bits from the destination; refused above 96.
    pub fn with_use_dest_bits(use_dest_bits: u8) -> (r: Result<Self, BlockError>)
        ensures
            r is Ok <==> use_dest_bits <= FULL_BITS,
            r is Ok ==> r->Ok_0@ == use_dest_bits,
            r is Err ==> r->Err_0 is InvalidArg,
    {
        if use_dest_bits > FULL_BITS {
            return Err(BlockError::InvalidArg(message("use_dest_bits must be <= 96")));
        }
        Ok(IntermediateAddressRegular { use_dest_bits })
    }

    /// Number of bits taken from the source.
    pub fn use_src_bits(&self) -> (r: u8)
        ensures
            r == FULL_BITS - self@,
            self@ <= FULL_BITS,
    {
        proof {
            use_type_invariant(self);
        }
        FULL_BITS - self.use_dest_bits
    }

    /// Number of bits taken from the destination.
    pub fn use_dest_bits(&self) -> (r: u8)
        ensures
            r == self@,
            r <= FULL_BITS,
    {
        proof {
            use_type_invariant(self);
        }
        self.use_dest_bits
    }

    /// Sets the number of bits taken from the source; refused above 96.
    pub fn set_use_src_bits(&mut self, use_src_bits: u8) -> (r: Result<(), BlockError>)
        ensures
            r is Ok <==> use_src_bits <= FULL_BITS,
            r is Ok ==> final(self)@ == FULL_BITS - use_src_bits,
            r is Err ==> *final(self) == *old(self) && r->Err_0 is InvalidArg,
    {
        if use_src_bits > FULL_BITS {
            return Err(BlockError::InvalidArg(message("use_src_bits must be <= 96")));
        }
        self.use_dest_bits = FULL_BITS - use_src_bits;
        Ok(())
    }
}

/// An address made from a number of source bits gives that number back, and its source
/// and destination bits add up to the full 96.
pub proof fn law_src_dest_bits(a: IntermediateAddressRegular, use_src_bits: u8)
    requires
        use_src_bits <= FULL_BITS,
        a@ == FULL_BITS - use_src_bits,
    ensures
        FULL_BITS - a@ == use_src_bits,
        (FULL_BITS - a@) + a@ == FULL_BITS,
{
}

/// An address given by an 8-bit workchain id and a 64-bit prefix.
#[derive(Clone, Copy, Debug, Default, PartialEq, Eq, Hash)]
pub struct IntermediateAddressSimple {
    pub workchain_id: i8,
    pub addr_pfx: u64,
}

impl IntermediateAddressSimple {
    /// The address with the given workchain and prefix.
    pub fn with_addr(workchain_id: i8, addr_pfx: u64) -> (r: Self)
        ensures
            r.workchain_id == workchain_id && r.addr_pfx == addr_pfx,
    {
        IntermediateAddressSimple { workchain_id, addr_pfx }
    }

    /// The workchain id.
    pub fn workchain_id(&self) -> (r: i8)
        ensures
            r == self.workchain_id,
    {
        self.workchain_id
    }

    /// The prefix.
    pub fn addr_pfx(&self) -> (r: u64)
        ensures
            r == self.addr_pfx,
    {
        self.addr_pfx
    }

    /// Sets the workchain id.
    pub fn set_workchain_id(&mut self, workchain_id: i8)
        ensures
            *final(self) == (IntermediateAddressSimple { workchain_id, addr_pfx: old(self).addr_pfx }),
    {
        self.workchain_id = workchain_id;
    }

    /// Sets the prefix.
    pub fn set_addr_pfx(&mut self, addr_pfx: u64)
        ensures
            *final(self) == (IntermediateAddressSimple { workchain_id: old(self).workchain_id, addr_pfx }),
    {
        self.addr_pfx = addr_pfx;
    }
}

/// An address given by a 32-bit workchain id and a 64-bit prefix.
#[derive(Clone, Copy, Debug, Default, PartialEq, Eq, Hash)]
pub struct IntermediateAddressExt {
    pub workchain_id: i32,
    pub addr_pfx: u64,
}

impl IntermediateAddressExt {
    /// The address with the given workchain and prefix.
    pub fn with_addr(workchain_id: i32, addr_pfx: u64) -> (r: Self)
        ensures
            r.workchain_id == workchain_id && r.addr_pfx == addr_pfx,
    {
        IntermediateAddressExt { workchain_id, addr_pfx }
    }

    /// The workchain id.
    pub fn workchain_id(&self) -> (r: i32)
        ensures
            r == self.workchain_id,
    {
        self.workchain_id
    }

    /// The prefix.
    pub fn addr_pfx(&self) -> (r: u64)
        ensures
            r == self.addr_pfx,
    {
        self.addr_pfx
    }

    /// Sets the workchain id.
    pub fn set_workchain_id(&mut self, workchain_id: i32)
        ensures
            *final(self) == (IntermediateAddressExt { workchain_id, addr_pfx: old(self).addr_pfx }),
    {
        self.workchain_id = workchain_id;
    }

    /// Sets the prefix.
    pub fn set_addr_pfx(&mut self, addr_pfx: u64)
        ensures
            *final(self) == (IntermediateAddressExt { workchain_id: old(self).workchain_id, addr_pfx }),
    {
        self.addr_pfx = addr_pfx;
    }
}

/// The regular address taking `bits` bits from the destination.
pub open spec fn regular_dest_bits(a: IntermediateAddress, bits: int) -> bool {
    a matches IntermediateAddress::Regular(r) && r@ == bits
}

/// One regular address only takes a given number of bits from the destination: two regular
/// addresses taking the same number of bits are the same address.
pub proof fn lemma_regular_dest_bits_unique(a: IntermediateAddress, b: IntermediateAddress, bits: int)
    requires
        regular_dest_bits(a, bits),
        regular_dest_bits(b, bits),
    ensures
        a == b,
{
}

impl IntermediateAddress {
    /// The regular address taking `use_src_bits` bits from the source; refused above 96.
    pub fn use_src_bits(use_src_bits: u8) -> (r: Result<Self, BlockError>)
        ensures
            r is Ok <==> use_src_bits <= FULL_BITS,
            r is Ok ==> regular_dest_bits(r->Ok_0, FULL_BITS - use_src_bits),
            r is Err ==> r->Err_0 is InvalidArg,
    {
        let ia = IntermediateAddressRegular::with_use_src_bits(use_src_bits)?;
        Ok(IntermediateAddress::Regular(ia))
    }

    /// The regular address taking `use_dest_bits` bits from the destination; refused above 96.
    pub fn use_dest_bits(use_dest_bits: u8) -> (r: Result<Self, BlockError>)
        ensures
            r is Ok <==> use_dest_bits <= FULL_BITS,
            r is Ok ==> regular_dest_bits(r->Ok_0, use_dest_bits as int),
            r is Err ==> r->Err_0 is InvalidArg,
    {
        let ia = IntermediateAddressRegular::with_use_dest_bits(use_dest_bits)?;
        Ok(IntermediateAddress::Regular(ia))
    }

    /// The whole source address (no bit from the destination).
    pub fn full_src() -> (r: Self)
        ensures
            regular_dest_bits(r, 0),
    {
        IntermediateAddress::Regular(IntermediateAddressRegular { use_dest_bits: 0 })
    }

    /// The whole destination address (all 96 bits from the destination).
    pub fn full_dest() -> (r: Self)
        ensures
            regular_dest_bits(r, 96),
    {
        IntermediateAddress::Regular(IntermediateAddressRegular { use_dest_bits: FULL_BITS })
    }

    /// Any address in the masterchain: workchain -1, prefix 0x8000_0000_0000_0000.
    pub fn any_masterchain() -> (r: Self)
        ensures
            r == IntermediateAddress::Simple(
                IntermediateAddressSimple { workchain_id: -1i8, addr_pfx: 0x8000_0000_0000_0000u64 },
            ),
    {
        IntermediateAddress::Simple(IntermediateAddressSimple::with_addr(-1, 0x8000_0000_0000_0000))
    }

    /// The workchain id of a simple or extended address; a regular one has none.
    pub fn workchain_id(&self) -> (r: Result<i32, BlockError>)
        ensures
            r is Ok <==> !(*self is Regular),
            self matches IntermediateAddress::Simple(s) ==> r == Ok::<i32, BlockError>(s.workchain_id as i32),
            self matches IntermediateAddress::Ext(e) ==> r == Ok::<i32, BlockError>(e.workchain_id),
    {
        match self {
            IntermediateAddress::Simple(simple) => Ok(simple.workchain_id() as i32),
            IntermediateAddress::Ext(ext) => Ok(ext.workchain_id()),
            _ => Err(BlockError::Other(message("Unsupported address type"))),
        }
    }

    /// The prefix of a simple or extended address; a regular one has none.
    pub fn prefix(&self) -> (r: Result<u64, BlockError>)
        ensures
            r is Ok <==> !(*self is Regular),
            self matches IntermediateAddress::Simple(s) ==> r == Ok::<u64, BlockError>(s.addr_pfx),
            self matches IntermediateAddress::Ext(e) ==> r == Ok::<u64, BlockError>(e.addr_pfx),
    {
        match self {
            IntermediateAddress::Simple(simple) => Ok(simple.addr_pfx()),
            IntermediateAddress::Ext(ext) => Ok(ext.addr_pfx()),
            _ => Err(BlockError::Other(message("Unsupported address type"))),
        }
    }

    /// Whether this is a regular address taking exactly `bits` bits from the destination.
    pub fn dest_bits_equal(&self, bits: u8) -> (r: bool)
        ensures
            r == regular_dest_bits(*self, bits as int),
    {
        match self {
            IntermediateAddress::Regular(ia) => ia.use_dest_bits() == bits,
            _ => false,
        }
    }
}

impl IntermediateAddress {
    /// How a regular address compares with a number of destination bits: `Some(-1)`, `Some(0)`
    /// or `Some(1)` as it takes fewer, as many or more bits; `None` for any other address.
    pub fn compare_dest_bits(&self, bits: u8) -> (r: Option<i8>)
        ensures
            r is Some <==> *self is Regular,
            self matches IntermediateAddress::Regular(ia) ==> r == Some(
                if ia@ < bits {
                    -1i8
                } else if ia@ == bits {
                    0i8
                } else {
                    1i8
                },
            ),
    {
        match self {
            IntermediateAddress::Regular(ia) => {
                let n = ia.use_dest_bits();
                if n < bits {
                    Some(-1)
                } else if n == bits {
                    Some(0)
                } else {
                    Some(1)
                }
            },
            _ => None,
        }
    }
}

impl Default for IntermediateAddress {
    fn default() -> (r: Self)
        ensures
            regular_dest_bits(r, 0),
    {
        IntermediateAddress::full_src()
    }
}

/// A message on its way between shards (of type `M`): where it is now and where it goes next,
/// as intermediate addresses between its source and its destination, and the forwarding fee
/// that is left.
#[derive(Clone, Debug)]
pub struct MsgEnvelope<M> {
    cur_addr: IntermediateAddress,
    next_addr: IntermediateAddress,
    fwd_fee_remaining: Grams,
    msg: M,
}

impl<M> MsgEnvelope<M> {
    /// The current address.
    pub closed spec fn spec_cur_addr(&self) -> IntermediateAddress {
        self.cur_addr
    }

    /// The next address.
    pub closed spec fn spec_next_addr(&self) -> IntermediateAddress {
        self.next_addr
    }

    /// The forwarding fee left.
    pub closed spec fn spec_fwd_fee_remaining(&self) -> Grams {
        self.fwd_fee_remaining
    }

    /// The message.
    pub closed spec fn spec_msg(&self) -> M {
        self.msg
    }

    /// An envelope with the given message, fee and routing.
    pub fn with_routing(
        msg: M,
        fwd_fee_remaining: Grams,
        cur_addr: IntermediateAddress,
        next_addr: IntermediateAddress,
    ) -> (r: Self)
        ensures
            r.spec_msg() == msg,
            r.spec_fwd_fee_remaining() == fwd_fee_remaining,
            r.spec_cur_addr() == cur_addr,
            r.spec_next_addr() == next_addr,
    {
        MsgEnvelope { cur_addr, next_addr, fwd_fee_remaining, msg }
    }

    /// The message.
    pub fn message(&self) -> (r: &M)
        ensures
            *r == self.spec_msg(),
    {
        &self.msg
    }

    /// The forwarding fee left.
    pub fn fwd_fee_remaining(&self) -> (r: &Grams)
        ensures
            *r == self.spec_fwd_fee_remaining(),
    {
        &self.fwd_fee_remaining
    }

    /// Takes `fee` from the forwarding fee left, when enough is left; returns whether it did.
    pub fn collect_fee(&mut self, fee: Grams) -> (r: bool)
        ensures
            r == (fee@ <= old(self).spec_fwd_fee_remaining()@),
            r ==> final(self).spec_fwd_fee_remaining()@ == old(self).spec_fwd_fee_remaining()@ - fee@,
            !r ==> final(self).spec_fwd_fee_remaining() == old(self).spec_fwd_fee_remaining(),
            final(self).spec_msg() == old(self).spec_msg(),
            final(self).spec_cur_addr() == old(self).spec_cur_addr(),
            final(self).spec_next_addr() == old(self).spec_next_addr(),
    {
        let mut left = self.fwd_fee_remaining;
        let taken = match left.sub(&fee) {
            Ok(b) => b,
            Err(_) => false,
        };
        self.fwd_fee_remaining = left;
        taken
    }

    /// Sets the current address; gives the envelope back for further changes.
    pub fn set_cur_addr(&mut self, addr: IntermediateAddress) -> (r: &mut Self)
        ensures
            r.spec_cur_addr() == addr,
            r.spec_next_addr() == old(self).spec_next_addr(),
            r.spec_fwd_fee_remaining() == old(self).spec_fwd_fee_remaining(),
            r.spec_msg() == old(self).spec_msg(),
            *final(self) == *final(r),
    {
        self.cur_addr = addr;
        self
    }

    /// Sets the next address; gives the envelope back for further changes.
    pub fn set_next_addr(&mut self, addr: IntermediateAddress) -> (r: &mut Self)
        ensures
            r.spec_next_addr() == addr,
            r.spec_cur_addr() == old(self).spec_cur_addr(),
            r.spec_fwd_fee_remaining() == old(self).spec_fwd_fee_remaining(),
            r.spec_msg() == old(self).spec_msg(),
            *final(self) == *final(r),
    {
        self.next_addr = addr;
        self
    }

    /// The current address.
    pub fn cur_addr(&self) -> (r: &IntermediateAddress)
        ensures
            *r == self.spec_cur_addr(),
    {
        &self.cur_addr
    }

    /// The next address.
    pub fn next_addr(&self) -> (r: &IntermediateAddress)
        ensures
            *r == self.spec_next_addr(),
    {
        &self.next_addr
    }

    /// The account prefixes that the current and the next address stand for, on the way from
    /// the message's source `src` to its destination `dst`; both addresses must be regular.
    pub fn calc_cur_next_prefix(&self, src: &AccountIdPrefixFull, dst: &AccountIdPrefixFull) -> (r: Result<
        (AccountIdPrefixFull, AccountIdPrefixFull),
        BlockError,
    >)
        ensures
            r is Ok <==> self.spec_cur_addr() is Regular && self.spec_next_addr() is Regular,
            r is Ok ==> r->Ok_0 == (
                interpolated(*src, *dst, self.spec_cur_addr()->Regular_0@),
                interpolated(*src, *dst, self.spec_next_addr()->Regular_0@),
            ),
    {
        let cur = src.interpolate_addr_intermediate(dst, &self.cur_addr)?;
        let next = src.interpolate_addr_intermediate(dst, &self.next_addr)?;
        Ok((cur, next))
    }
}

} // verus!
