use vstd::prelude::*;

pub mod accounts;
pub mod assoc;
pub mod blocks;
pub mod bytes;
pub mod config_params;
pub mod copyleft;
pub mod envelope_message;
pub mod error;
pub mod hashmapaug;
pub mod inbound_messages;
pub mod master;
pub mod merkle_proof;
pub mod messages;
pub mod miscellaneous;
pub mod out_actions;
pub mod outbound_messages;
pub mod shard;
pub mod shard_accounts;
pub mod signature;
pub mod signed_block;
pub mod slice_text;
pub mod text;
pub mod types;

verus! {

/// Tests on the bits of a flag word.
pub trait Mask: Sized {
    /// Whether every bit of `bits` is set.
    fn bit(&self, bits: Self) -> bool;

    /// The bits of `mask` that are set.
    fn mask(&self, mask: Self) -> Self;

    /// Whether some bit of `bits` is set.
    fn any(&self, bits: Self) -> bool;

    /// Whether no bit of `bits` is set.
    fn non(&self, bits: Self) -> bool;
}

impl Mask for u8 {
    fn bit(&self, bits: u8) -> (r: bool)
        ensures
            r == (*self & bits == bits),
    {
        (*self & bits) == bits
    }

    fn mask(&self, mask: u8) -> (r: u8)
        ensures
            r == *self & mask,
    {
        *self & mask
    }

    fn any(&self, bits: u8) -> (r: bool)
        ensures
            r == (*self & bits != 0),
    {
        (*self & bits) != 0
    }

    fn non(&self, bits: u8) -> (r: bool)
        ensures
            r == (*self & bits == 0),
    {
        (*self & bits) == 0
    }
}

/// Some bit set is the opposite of no bit set, and all bits set implies some when there are bits.
pub proof fn law_mask(v: u8, bits: u8)
    ensures
        (v & bits != 0) == !(v & bits == 0),
        bits != 0 && v & bits == bits ==> v & bits != 0,
{
}

} // verus!
