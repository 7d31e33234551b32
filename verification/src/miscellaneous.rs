use vstd::prelude::*;

use crate::types::UInt256;

verus! {

/// Key of the processed-messages information: shard and masterchain sequence number.
#[derive(Clone, Copy, Debug, Default, PartialEq, Eq)]
pub struct ProcessedInfoKey {
    pub shard: u64,
    pub mc_seqno: u32,
}

impl ProcessedInfoKey {
    /// The key of the given shard and masterchain sequence number.
    pub fn with_params(shard: u64, mc_seqno: u32) -> (r: Self)
        ensures
            r == (ProcessedInfoKey { shard, mc_seqno }),
    {
        ProcessedInfoKey { shard, mc_seqno }
    }

    /// The masterchain sequence number.
    pub fn seq_no(&self) -> (r: u32)
        ensures
            r == self.mc_seqno,
    {
        self.mc_seqno
    }
}

/// The last message processed: its logical time and hash.
#[derive(Clone, Copy, Debug, Default, PartialEq, Eq)]
pub struct ProcessedUpto {
    pub last_msg_lt: u64,
    pub last_msg_hash: UInt256,
}

impl ProcessedUpto {
    /// The given logical time and hash.
    pub fn with_params(last_msg_lt: u64, last_msg_hash: UInt256) -> (r: Self)
        ensures
            r == (ProcessedUpto { last_msg_lt, last_msg_hash }),
    {
        ProcessedUpto { last_msg_lt, last_msg_hash }
    }
}

/// Logical time from which an instant hypercube routing message is pending
/// (`ihr_pending$_ import_lt:uint64 = IhrPendingSince`).
#[derive(Clone, Copy, Debug, Default, PartialEq, Eq)]
pub struct IhrPendingSince {
    import_lt: u64,
}

impl View for IhrPendingSince {
    type V = u64;

    /// The import logical time.
    closed spec fn view(&self) -> u64 {
        self.import_lt
    }
}

impl IhrPendingSince {
    /// Import logical time zero.
    pub fn new() -> (r: Self)
        ensures
            r@ == 0,
    {
        IhrPendingSince { import_lt: 0 }
    }

    /// The given import logical time.
    pub fn with_import_lt(import_lt: u64) -> (r: Self)
        ensures
            r@ == import_lt,
    {
        IhrPendingSince { import_lt }
    }

    /// The import logical time.
    pub fn import_lt(&self) -> (r: u64)
        ensures
            r == self@,
    {
        self.import_lt
    }
}

} // verus!
