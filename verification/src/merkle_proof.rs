use vstd::prelude::*;

use crate::blocks::BlockInfo;
use crate::error::{message, BlockError};
use crate::out_actions::opt_hash;
use crate::shard::account_in_shard;
use crate::types::UInt256;

verus! {

// The checks of this module decide whether a Merkle proof of a block shows a transaction or a
// message. Walking the proof's cells is the cell library's work; the checks take what the walk
// found (hashes of cells, or their absence) and decide.

/// The proof is a proof of the given block: its hash is the block's id. Fails with
/// `WrongMerkleProof` otherwise.
pub fn check_block_info_proof(proof_hash: &UInt256, block_hash: &UInt256) -> (r: Result<(), BlockError>)
    ensures
        r is Ok <==> proof_hash@ == block_hash@,
        r is Err ==> r->Err_0 is WrongMerkleProof,
{
    if !proof_hash.equals(block_hash) {
        return Err(BlockError::WrongMerkleProof(message("Proof hash is not equal given block hash")));
    }
    Ok(())
}

/// Whether a transaction found in a proof is the one looked for: `transaction` is `None` when
/// the proof has no account block for the account or no transaction at its logical time,
/// `Some(None)` when the entry found has no transaction cell, and `Some(Some(h))` with the hash
/// of that cell.
pub open spec fn transaction_matches(transaction: Option<Option<UInt256>>, tr_hash: Seq<u8>) -> bool {
    match transaction {
        None => false,
        Some(None) => true,
        Some(Some(h)) => h@ == tr_hash,
    }
}

/// Checks that a transaction (of account `account`, at logical time `lt`, with hash `tr_hash`)
/// is in the block whose header `info` a proof with hash `proof_hash` holds: the proof is of
/// block `block_id`, the account belongs to the block's shard, the time falls within the block's
/// logical times, and the transaction found in the proof is the one given. Fails with
/// `WrongMerkleProof` otherwise.
pub fn check_transaction_in_block(
    info: &BlockInfo,
    proof_hash: &UInt256,
    block_id: &UInt256,
    account: &UInt256,
    lt: u64,
    transaction: Option<Option<UInt256>>,
    tr_hash: &UInt256,
) -> (r: Result<(), BlockError>)
    ensures
        r is Ok <==> (proof_hash@ == block_id@ && account_in_shard(info@.shard@.1, account@) && info@.start_lt <= lt
            <= info@.end_lt && transaction_matches(transaction, tr_hash@)),
        r is Err ==> r->Err_0 is WrongMerkleProof,
{
    check_block_info_proof(proof_hash, block_id)?;
    if !info.shard().contains_account(account) {
        return Err(BlockError::WrongMerkleProof(message("Account address in transaction belongs other shardchain")));
    }
    if lt < info.start_lt() || lt > info.end_lt() {
        return Err(
            BlockError::WrongMerkleProof(
                message("Transaction's logical time doesn't belong to block's logical time interval"),
            ),
        );
    }
    match transaction {
        None => Err(BlockError::WrongMerkleProof(message("No transaction in proof"))),
        Some(None) => Ok(()),
        Some(Some(h)) => {
            if h.equals(tr_hash) {
                Ok(())
            } else {
                Err(BlockError::WrongMerkleProof(message("Wrong transaction's hash in proof")))
            }
        },
    }
}

/// The transaction id given with a message agrees with the transaction cell the message's
/// description refers to: both absent, or both present with the same hash. Fails with
/// `WrongMerkleProof` otherwise.
pub fn check_transaction_id(given: Option<UInt256>, existing: Option<UInt256>) -> (r: Result<(), BlockError>)
    ensures
        r is Ok <==> opt_hash(given) == opt_hash(existing),
        r is Err ==> r->Err_0 is WrongMerkleProof,
{
    match (given, existing) {
        (None, Some(_)) => Err(
            BlockError::WrongMerkleProof(
                message("Invalid transaction id: None is passed, but the transaction exists in a block"),
            ),
        ),
        (Some(_), None) => Err(
            BlockError::WrongMerkleProof(
                message("Invalid transaction id: it is passed, but the transaction doesn't exists in a block"),
            ),
        ),
        (None, None) => Ok(()),
        (Some(a), Some(b)) => {
            if a.equals(&b) {
                Ok(())
            } else {
                Err(BlockError::WrongMerkleProof(message("Invalid transaction id")))
            }
        },
    }
}

/// What a message description found in a proof holds: the hash of the transaction cell it
/// refers to, if any, and the hash of its message, `None` when the message cannot be read.
#[derive(Clone, Copy, Debug, PartialEq, Eq)]
pub struct MsgFound {
    pub transaction: Option<UInt256>,
    pub message: Option<UInt256>,
}

/// The description found holds the message looked for, with the transaction given.
pub open spec fn msg_found_matches(f: MsgFound, msg_hash: Seq<u8>, tr_id: Option<UInt256>) -> bool {
    opt_hash(tr_id) == opt_hash(f.transaction) && opt_hash(f.message) == Some(msg_hash)
}

/// Whether a message shows in a block through the descriptions found in its proof: the inbound
/// description when there is one, else the outbound one.
pub open spec fn message_in_block(
    proof_hash: Seq<u8>,
    block_id: Seq<u8>,
    msg_hash: Seq<u8>,
    tr_id: Option<UInt256>,
    in_msg: Option<MsgFound>,
    out_msg: Option<Option<MsgFound>>,
) -> bool {
    proof_hash == block_id && match in_msg {
        Some(f) => msg_found_matches(f, msg_hash, tr_id),
        None => match out_msg {
            Some(Some(f)) => msg_found_matches(f, msg_hash, tr_id),
            _ => false,
        },
    }
}

/// Checks that the message with hash `msg_hash` (and transaction id `tr_id`) is in the block
/// `block_id`, given what a proof with hash `proof_hash` shows: `in_msg` is the inbound
/// description under the message's hash (`None` when the inbound descriptions cannot be read or
/// hold none), and `out_msg` the outbound one (`None` when the outbound descriptions cannot be
/// read, `Some(None)` when they hold none); the outbound one counts only when there is no
/// inbound one. Fails with `WrongMerkleProof` otherwise.
pub fn check_message_in_block(
    proof_hash: &UInt256,
    block_id: &UInt256,
    msg_hash: &UInt256,
    tr_id: Option<UInt256>,
    in_msg: Option<MsgFound>,
    out_msg: Option<Option<MsgFound>>,
) -> (r: Result<(), BlockError>)
    ensures
        r is Ok <==> message_in_block(proof_hash@, block_id@, msg_hash@, tr_id, in_msg, out_msg),
        r is Err ==> r->Err_0 is WrongMerkleProof,
{
    check_block_info_proof(proof_hash, block_id)?;
    match in_msg {
        Some(f) => {
            check_transaction_id(tr_id, f.transaction)?;
            match f.message {
                Some(m) => {
                    if m.equals(msg_hash) {
                        Ok(())
                    } else {
                        Err(BlockError::WrongMerkleProof(message("Wrong message's hash in proof")))
                    }
                },
                None => Err(BlockError::WrongMerkleProof(message("Error extracting message from in message"))),
            }
        },
        None => match out_msg {
            None => Err(BlockError::WrongMerkleProof(message("Error extracting out msg descr from proof"))),
            Some(None) => Err(BlockError::WrongMerkleProof(message("No message in proof"))),
            Some(Some(f)) => match f.message {
                Some(m) => {
                    check_transaction_id(tr_id, f.transaction)?;
                    if m.equals(msg_hash) {
                        Ok(())
                    } else {
                        Err(BlockError::WrongMerkleProof(message("Wrong message's hash in proof")))
                    }
                },
                None => Err(BlockError::WrongMerkleProof(message("Error extracting message from out message"))),
            },
        },
    }
}

} // verus!
