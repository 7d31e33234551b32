use vstd::prelude::*;

use crate::bytes::{be32, be32_at, be64, be64_at, get_bytes32, get_u32, get_u64, lemma_be_roundtrip, push_bytes32, push_u32, push_u64};
use crate::error::{message, BlockError};
use crate::shard::AccountIdPrefixFull;
use crate::text::{hex_bytes, push_hex_bytes, push_signed_decimal, push_upper_hex16, signed_dec_chars, upper_hex16};
use crate::types::UInt256;

verus! {

/// The key of an outbound message in the queue: the 32-bit workchain of its next hop, the
/// first 64 bits of the next-hop address in that workchain, and the hash of the message.
#[derive(Clone, Copy, Debug, PartialEq, Eq, Hash, Default)]
pub struct OutMsgQueueKey {
    pub workchain_id: i32,
    pub prefix: u64,
    pub hash: UInt256,
}

/// A key as stored: workchain, prefix, hash (44 bytes).
pub open spec fn out_msg_queue_key_bytes(k: OutMsgQueueKey) -> Seq<u8> {
    be32(k.workchain_id as u32) + be64(k.prefix) + k.hash@
}

/// `k` is the key stored at `p` in `data`.
pub open spec fn out_msg_queue_key_at(data: Seq<u8>, p: int, k: OutMsgQueueKey) -> bool {
    &&& 0 <= p && p + 44 <= data.len()
    &&& k.workchain_id == be32_at(data, p) as i32
    &&& k.prefix == be64_at(data, p + 4)
    &&& k.hash@ == data.subrange(p + 12, p + 44)
}

/// The text form of a key: `workchain:PREFIX, hash: hash`, the prefix as 16 uppercase
/// hexadecimal digits and the hash as 64 lowercase ones.
pub open spec fn out_msg_queue_key_text(k: OutMsgQueueKey) -> Seq<char> {
    signed_dec_chars(k.workchain_id as int) + seq![':'] + upper_hex16(k.prefix) + seq![
        ',',
        ' ',
        'h',
        'a',
        's',
        'h',
        ':',
        ' ',
    ] + hex_bytes(k.hash@)
}

impl OutMsgQueueKey {
    /// The key of the message with hash `hash` going to `prefix` of `workchain_id`.
    pub fn with_workchain_id_and_prefix(workchain_id: i32, prefix: u64, hash: UInt256) -> (r: Self)
        ensures
            r == (OutMsgQueueKey { workchain_id, prefix, hash }),
    {
        OutMsgQueueKey { workchain_id, prefix, hash }
    }

    /// The key of the message with hash `hash` going to the account prefix `prefix`.
    pub fn with_account_prefix(prefix: &AccountIdPrefixFull, hash: UInt256) -> (r: Self)
        ensures
            r == (OutMsgQueueKey { workchain_id: prefix.workchain_id, prefix: prefix.prefix, hash }),
    {
        Self::with_workchain_id_and_prefix(prefix.workchain_id, prefix.prefix, hash)
    }

    /// The first 64 bits of an account address.
    pub fn first_u64(acc: &UInt256) -> (r: u64)
        ensures
            r == be64_at(acc@, 0),
    {
        let bytes = acc.as_array();
        proof {
            acc.lemma_bytes(*acc);
        }
        get_u64(bytes, 0)
    }

    /// The text form of the key (see `out_msg_queue_key_text`).
    pub fn to_hex_string(&self) -> (r: String)
        ensures
            r@ == out_msg_queue_key_text(*self),
    {
        let mut out = String::new();
        push_signed_decimal(&mut out, self.workchain_id);
        out.append(":");
        push_upper_hex16(&mut out, self.prefix);
        out.append(", hash: ");
        push_hex_bytes(&mut out, self.hash.as_array());
        proof {
            reveal_strlit(":");
            reveal_strlit(", hash: ");
            assert(out@ =~= out_msg_queue_key_text(*self));
        }
        out
    }

    /// Appends the stored form of the key.
    pub fn write_to(&self, out: &mut Vec<u8>)
        ensures
            final(out)@ == old(out)@ + out_msg_queue_key_bytes(*self),
    {
        push_u32(out, self.workchain_id as u32);
        push_u64(out, self.prefix);
        push_bytes32(out, self.hash.as_array());
        assert(out@ =~= old(out)@ + out_msg_queue_key_bytes(*self));
    }

    /// Reads a key stored at `*pos` and moves `*pos` past it. Fails, changing nothing, when
    /// fewer than 44 bytes are left.
    pub fn read_from(&mut self, data: &[u8], pos: &mut usize) -> (r: Result<(), BlockError>)
        ensures
            r is Ok <==> *old(pos) + 44 <= data@.len(),
            r is Ok ==> out_msg_queue_key_at(data@, *old(pos) as int, *final(self)) && *final(pos) == *old(pos) + 44,
            r is Err ==> *final(self) == *old(self) && *final(pos) == *old(pos),
    {
        let p = *pos;
        if data.len() < 44 || p > data.len() - 44 {
            return Err(BlockError::InvalidData(message("cell underflow")));
        }
        self.workchain_id = get_u32(data, p) as i32;
        self.prefix = get_u64(data, p + 4);
        self.hash = UInt256::with_array(get_bytes32(data, p + 12));
        *pos = p + 44;
        Ok(())
    }
}

/// A stored key reads back as itself, and as nothing else.
pub proof fn law_out_msg_queue_key_roundtrip(k: OutMsgQueueKey, x: OutMsgQueueKey, pre: Seq<u8>, post: Seq<u8>)
    ensures
        out_msg_queue_key_at(pre + out_msg_queue_key_bytes(k) + post, pre.len() as int, x) <==> x == k,
{
    let n = pre.len() as int;
    let d = pre + out_msg_queue_key_bytes(k) + post;
    let wc = k.workchain_id;
    k.hash.lemma_bytes(x.hash);
    lemma_be_roundtrip(pre, be64(k.prefix) + k.hash@ + post, 0, wc as u32, 0);
    assert(d =~= pre + be32(wc as u32) + (be64(k.prefix) + k.hash@ + post));
    lemma_be_roundtrip(pre + be32(wc as u32), k.hash@ + post, 0, 0, k.prefix);
    assert(d =~= (pre + be32(wc as u32)) + be64(k.prefix) + (k.hash@ + post));
    assert(d.subrange(n + 12, n + 44) =~= k.hash@);
    assert((wc as u32) as i32 == wc) by (bit_vector);
}

} // verus!
