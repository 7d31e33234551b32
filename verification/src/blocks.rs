use vstd::prelude::*;

use crate::assoc::{assign, lemma_assign_lookup, lemma_first_index, lookup};
use crate::bytes::{
    be16, be16_at, be32, be32_at, be64, be64_at, get_bytes32, get_u16, get_u32, get_u64, lemma_be_at, lemma_be_at_concat,
    lemma_be_roundtrip, push_bytes32, push_u16, push_u32, push_u64,
};
use crate::config_params::GlobalVersion;
use crate::copyleft::CopyleftRewards;
use crate::error::{message, BlockError};
use crate::master::BlkMasterInfo;
use crate::messages::CurrencyCollection;
use crate::signature::BlockSignatures;
use crate::shard::{
    hex16, lemma_retag, lemma_shard_of, lemma_tagged_unique, lowest_bit, parent_prefix, prefix_len_of, shard_of, tagged_prefix, ShardIdent,
    INVALID_WORKCHAIN_ID, MASTERCHAIN_ID, SHARD_FULL,
};
use crate::text::{
    dec_chars, hex_bytes, lemma_dec_chars, lemma_parse_dec, lemma_parse_hex16, lemma_parse_hex_bytes,
    lemma_parse_signed_dec, lemma_split_first_at, lemma_split_first_none, lemma_trim_end_char_once, lemma_trim_plain,
    lemma_trim_start_char_once, lemma_trim_start_str_once, push_decimal, push_hex_bytes, push_signed_decimal,
    signed_dec_chars, trim_end_ws, trim_start_ws, chars_of, find_char, hex32, parse_i32, parse_unsigned, read_hex32, read_i32, read_unsigned, skip_end_char,
    skip_start_char, skip_start_str, split_first, trim, trim_end_char, trim_start_char, trim_start_str, trim_range,
};
use crate::types::{ChildCell, UInt256, UnixTime32};

verus! {

///
/// Full block identifier: shard, sequence number, root hash and file hash.
///
#[derive(Clone, Copy, Debug, PartialEq, Eq, Default, Hash, Ord, PartialOrd)]
pub struct BlockIdExt {
    pub shard_id: ShardIdent,
    pub seq_no: u32,
    pub root_hash: UInt256,
    pub file_hash: UInt256,
}

impl BlockIdExt {
    /// New instance of BlockIdExt structure.
    pub fn with_params(shard_id: ShardIdent, seq_no: u32, root_hash: UInt256, file_hash: UInt256) -> (r: Self)
        ensures
            r == (BlockIdExt { shard_id, seq_no, root_hash, file_hash }),
    {
        BlockIdExt { shard_id, seq_no, root_hash, file_hash }
    }

    /// The identifier of a masterchain block given by its reference.
    pub fn from_ext_blk(blk: ExtBlkRef) -> (r: Self)
        ensures
            r.shard_id@ == (MASTERCHAIN_ID, SHARD_FULL),
            r.seq_no == blk.seq_no,
            r.root_hash == blk.root_hash,
            r.file_hash == blk.file_hash,
    {
        BlockIdExt {
            shard_id: ShardIdent::masterchain(),
            seq_no: blk.seq_no,
            root_hash: blk.root_hash,
            file_hash: blk.file_hash,
        }
    }

    /// The shard.
    pub fn shard(&self) -> (r: &ShardIdent)
        ensures
            *r == self.shard_id,
    {
        &self.shard_id
    }

    /// The sequence number.
    pub fn seq_no(&self) -> (r: u32)
        ensures
            r == self.seq_no,
    {
        self.seq_no
    }

    /// The root hash.
    pub fn root_hash(&self) -> (r: &UInt256)
        ensures
            *r == self.root_hash,
    {
        &self.root_hash
    }

    /// The file hash.
    pub fn file_hash(&self) -> (r: &UInt256)
        ensures
            *r == self.file_hash,
    {
        &self.file_hash
    }
}

/// The fields that the text `(workchain:shard, seq_no, rh root_hash, fh file_hash)` gives: the
/// parentheses around it are dropped, the parts are split at commas and the shard part at
/// colons, white space is trimmed around the workchain, the shard and the sequence number, and
/// the hashes follow the prefixes ` rh ` and ` fh `. `None` when a part is missing or does not
/// read (the workchain as a signed decimal, the shard in hexadecimal, the sequence number in
/// decimal, each hash as 64 hexadecimal digits).
pub open spec fn block_id_text_fields(s: Seq<char>) -> Option<(i32, u64, u32, Seq<u8>, Seq<u8>)> {
    let t = trim_end_char(trim_start_char(s, '('), ')');
    let (p0, r1) = split_first(t, ',');
    let (wc_text, shard_rest) = split_first(trim(p0), ':');
    match (parse_i32(trim(wc_text)), shard_rest, r1) {
        (Some(wc), Some(sr), Some(r1)) => {
            let (p1, r2) = split_first(r1, ',');
            match (parse_unsigned(trim(split_first(sr, ':').0), 16, u64::MAX as int), parse_unsigned(
                trim(p1),
                10,
                u32::MAX as int,
            ), r2) {
                (Some(shard), Some(seq_no), Some(r2)) => {
                    let (p2, r3) = split_first(r2, ',');
                    match (hex32(trim_start_str(p2, seq![' ', 'r', 'h', ' '])), r3) {
                        (Some(rh), Some(r3)) => match hex32(
                            trim_start_str(split_first(r3, ',').0, seq![' ', 'f', 'h', ' ']),
                        ) {
                            Some(fh) => Some((wc as i32, shard as u64, seq_no as u32, rh, fh)),
                            None => None,
                        },
                        _ => None,
                    }
                },
                _ => None,
            }
        },
        _ => None,
    }
}

impl BlockIdExt {
    /// Reads a block identifier from its text form
    /// `(workchain:shard, seq_no, rh root_hash, fh file_hash)`; the shard must be a valid
    /// tagged prefix of a valid workchain.
    #[verifier::spinoff_prover]
    #[verifier::rlimit(40)]
    pub fn from_text(s: &str) -> (r: Result<Self, BlockError>)
        ensures
            r is Ok <==> (block_id_text_fields(s@) matches Some(f) && f.1 & 7 == 0 && f.0 != INVALID_WORKCHAIN_ID),
            r is Ok ==> (block_id_text_fields(s@) matches Some(f) && r->Ok_0.shard_id@ == (f.0, f.1)
                && r->Ok_0.seq_no == f.2 && r->Ok_0.root_hash@ == f.3 && r->Ok_0.file_hash@ == f.4),
    {
        let v = chars_of(s);
        let n = v.len();
        let lo = skip_start_char(&v, 0, n, '(');
        let hi = skip_end_char(&v, lo, n, ')');
        assert(v@.subrange(0, n as int) =~= s@);
        assert(v@.subrange(lo as int, n as int).subrange(0, hi - lo) =~= v@.subrange(lo as int, hi as int));
        let c0 = find_char(&v, lo, hi, ',');
        let (a, b) = trim_range(&v, lo, c0);
        let k = find_char(&v, a, b, ':');
        let (wa, wb) = trim_range(&v, a, k);
        let wc = match read_i32(&v, wa, wb) {
            Some(w) => w,
            None => {
                return Err(BlockError::InvalidArg(message("Can't read workchain_id")));
            },
        };
        if k == b {
            return Err(BlockError::InvalidArg(message("Can't read shard")));
        }
        let k2 = find_char(&v, k + 1, b, ':');
        let (sa, sb) = trim_range(&v, k + 1, k2);
        let shard = match read_unsigned(&v, sa, sb, 16, u64::MAX) {
            Some(x) => x,
            None => {
                return Err(BlockError::InvalidArg(message("Can't read shard")));
            },
        };
        if c0 == hi {
            return Err(BlockError::InvalidArg(message("Can't read seq_no")));
        }
        let c1 = find_char(&v, c0 + 1, hi, ',');
        let (qa, qb) = trim_range(&v, c0 + 1, c1);
        let seq_no = match read_unsigned(&v, qa, qb, 10, 0xffff_ffff) {
            Some(x) => x,
            None => {
                return Err(BlockError::InvalidArg(message("Can't read seq_no")));
            },
        };
        if c1 == hi {
            return Err(BlockError::InvalidArg(message("Can't read root_hash")));
        }
        let c2 = find_char(&v, c1 + 1, hi, ',');
        let rh_prefix = chars_of(" rh ");
        proof {
            reveal_strlit(" rh ");
            assert(rh_prefix@ =~= seq![' ', 'r', 'h', ' ']);
        }
        let rs = skip_start_str(&v, c1 + 1, c2, &rh_prefix);
        let rh = match read_hex32(&v, rs, c2) {
            Some(x) => x,
            None => {
                return Err(BlockError::InvalidArg(message("Can't read root_hash")));
            },
        };
        if c2 == hi {
            return Err(BlockError::InvalidArg(message("Can't read file_hash")));
        }
        let c3 = find_char(&v, c2 + 1, hi, ',');
        let fh_prefix = chars_of(" fh ");
        proof {
            reveal_strlit(" fh ");
            assert(fh_prefix@ =~= seq![' ', 'f', 'h', ' ']);
        }
        let fs = skip_start_str(&v, c2 + 1, c3, &fh_prefix);
        let fh = match read_hex32(&v, fs, c3) {
            Some(x) => x,
            None => {
                return Err(BlockError::InvalidArg(message("Can't read file_hash")));
            },
        };
        let shard_id = ShardIdent::with_tagged_prefix(wc, shard)?;
        Ok(BlockIdExt::with_params(shard_id, seq_no as u32, UInt256::with_array(rh), UInt256::with_array(fh)))
    }
}

impl BlockIdExt {
    /// Whether both identify the same block: same shard, sequence number and hashes.
    pub fn equals(&self, other: &Self) -> (r: bool)
        ensures
            r == (*self == *other),
    {
        proof {
            lemma_shard_of(self.shard_id, self.shard_id@.0, self.shard_id@.1);
            lemma_shard_of(other.shard_id, other.shard_id@.0, other.shard_id@.1);
        }
        self.shard_id.workchain_id() == other.shard_id.workchain_id()
            && self.shard_id.shard_prefix_with_tag() == other.shard_id.shard_prefix_with_tag()
            && self.seq_no == other.seq_no && self.root_hash.equals(&other.root_hash) && self.file_hash.equals(
            &other.file_hash,
        )
    }
}

/// The text form of a block identifier, `(workchain:shard, seq_no, rh root_hash, fh file_hash)`:
/// the workchain and sequence number in decimal, the tagged shard prefix as 16 lowercase
/// hexadecimal digits, each hash as 64.
pub open spec fn block_id_text(id: BlockIdExt) -> Seq<char> {
    seq!['('] + signed_dec_chars(id.shard_id@.0 as int) + seq![':'] + hex16(id.shard_id@.1) + seq![',', ' ']
        + dec_chars(id.seq_no as nat) + seq![',', ' ', 'r', 'h', ' '] + hex_bytes(id.root_hash@) + seq![
        ',',
        ' ',
        'f',
        'h',
        ' ',
    ] + hex_bytes(id.file_hash@) + seq![')']
}

impl BlockIdExt {
    /// The text form of the identifier (see `block_id_text`).
    pub fn to_text(&self) -> (r: String)
        ensures
            r@ == block_id_text(*self),
    {
        let mut out = String::from_str("(");
        proof {
            reveal_strlit("(");
            reveal_strlit(":");
            reveal_strlit(", ");
            reveal_strlit(", rh ");
            reveal_strlit(", fh ");
            reveal_strlit(")");
        }
        push_signed_decimal(&mut out, self.shard_id.workchain_id());
        out.append(":");
        let shard = self.shard_id.shard_prefix_as_str_with_tag();
        out.append(shard.as_str());
        out.append(", ");
        push_decimal(&mut out, self.seq_no as u64);
        out.append(", rh ");
        push_hex_bytes(&mut out, self.root_hash.as_array());
        out.append(", fh ");
        push_hex_bytes(&mut out, self.file_hash.as_array());
        out.append(")");
        proof {
            assert(out@ =~= block_id_text(*self));
        }
        out
    }
}

/// A block identifier written in its text form reads back as the same fields; `from_text`
/// then gives the identifier back whenever its shard is valid.
pub proof fn law_block_id_text_roundtrip(id: BlockIdExt)
    ensures
        block_id_text_fields(block_id_text(id)) == Some(
            (id.shard_id@.0, id.shard_id@.1, id.seq_no, id.root_hash@, id.file_hash@),
        ),
{
    let wc = id.shard_id@.0;
    let p = id.shard_id@.1;
    id.root_hash.lemma_bytes(id.file_hash);
    let w = signed_dec_chars(wc as int);
    let x = hex16(p);
    let d = dec_chars(id.seq_no as nat);
    let h1 = hex_bytes(id.root_hash@);
    let h2 = hex_bytes(id.file_hash@);
    lemma_parse_signed_dec(wc);
    lemma_parse_hex16(p);
    lemma_dec_chars(id.seq_no as nat);
    lemma_parse_dec(id.seq_no as nat, u32::MAX as int);
    lemma_parse_hex_bytes(id.root_hash@);
    lemma_parse_hex_bytes(id.file_hash@);
    let rh_p = seq![' ', 'r', 'h', ' '];
    let fh_p = seq![' ', 'f', 'h', ' '];
    let r3 = fh_p + h2;
    let r2 = rh_p + h1 + seq![','] + r3;
    let r1 = seq![' '] + d + seq![','] + r2;
    let a = w + seq![':'] + x;
    let t = a + seq![','] + r1;
    let text = block_id_text(id);
    assert(text =~= seq!['('] + t + seq![')']);
    // the parentheses
    let u = text.drop_first();
    assert(u =~= t + seq![')']);
    lemma_trim_start_char_once(text, '(');
    assert(u.last() == ')');
    assert(u[u.len() - 2] == h2[63]);
    lemma_trim_end_char_once(u, ')');
    assert(u.drop_last() =~= t);
    // the shard part
    assert forall|i: int| 0 <= i < a.len() implies a[i] != ',' by {
        if i < w.len() {
            assert(a[i] == w[i]);
        } else if i > w.len() {
            assert(a[i] == x[i - w.len() - 1]);
        }
    }
    lemma_split_first_at(a, ',', r1);
    assert(a[0] == w[0]);
    assert(a.last() == x[15]);
    lemma_trim_plain(a);
    assert forall|i: int| 0 <= i < w.len() implies w[i] != ':' by {}
    lemma_split_first_at(w, ':', x);
    assert(w.last() == w[w.len() - 1]);
    lemma_trim_plain(w);
    assert forall|i: int| 0 <= i < x.len() implies x[i] != ':' by {}
    lemma_split_first_none(x, ':');
    lemma_trim_plain(x);
    // the sequence number
    assert forall|i: int| 0 <= i < 1 + d.len() implies (seq![' '] + d)[i] != ',' by {
        if i > 0 {
            assert((seq![' '] + d)[i] == d[i - 1]);
        }
    }
    lemma_split_first_at(seq![' '] + d, ',', r2);
    assert((seq![' '] + d).drop_first() =~= d);
    assert(trim_start_ws(d) == d);
    assert(trim_start_ws(seq![' '] + d) == d);
    assert(d.last() == d[d.len() - 1]);
    assert(trim_end_ws(d) == d);
    // the hashes
    assert forall|i: int| 0 <= i < 4 + h1.len() implies (rh_p + h1)[i] != ',' by {
        if i >= 4 {
            assert((rh_p + h1)[i] == h1[i - 4]);
        }
    }
    lemma_split_first_at(rh_p + h1, ',', r3);
    lemma_trim_start_str_once(rh_p, h1);
    assert forall|i: int| 0 <= i < r3.len() implies r3[i] != ',' by {
        if i >= 4 {
            assert(r3[i] == h2[i - 4]);
        }
    }
    lemma_split_first_none(r3, ',');
    lemma_trim_start_str_once(fh_p, h2);
}

impl core::str::FromStr for BlockIdExt {
    type Err = BlockError;

    fn from_str(s: &str) -> (r: Result<Self, BlockError>)
        ensures
            r is Ok <==> (block_id_text_fields(s@) matches Some(f) && f.1 & 7 == 0 && f.0 != INVALID_WORKCHAIN_ID),
            r is Ok ==> (block_id_text_fields(s@) matches Some(f) && r->Ok_0.shard_id@ == (f.0, f.1)
                && r->Ok_0.seq_no == f.2 && r->Ok_0.root_hash@ == f.3 && r->Ok_0.file_hash@ == f.4),
    {
        BlockIdExt::from_text(s)
    }
}

/// Additional struct, used for convenience.
#[derive(Clone, Copy, Debug, PartialEq, Eq, Default)]
pub struct BlockSeqNoAndShard {
    pub seq_no: u32,
    pub vert_seq_no: u32,
    pub shard_id: ShardIdent,
}

/// Bit of `BlockInfo::flags` telling that `gen_software` is present.
pub const GEN_SOFTWARE_EXISTS_FLAG: u8 = 1;

/// Reference to a block by its end logical time, sequence number and hashes
/// (`ext_blk_ref$_ end_lt:uint64 seq_no:uint32 root_hash:bits256 file_hash:bits256 = ExtBlkRef`).
#[derive(Clone, Copy, Debug, Default, PartialEq, Eq)]
pub struct ExtBlkRef {
    pub end_lt: u64,
    pub seq_no: u32,
    pub root_hash: UInt256,
    pub file_hash: UInt256,
}

/// The identifier of the block referred to by `r`, in shard `shard_id`.
pub open spec fn ext_block_id(r: ExtBlkRef, shard_id: ShardIdent) -> BlockIdExt {
    BlockIdExt { shard_id, seq_no: r.seq_no, root_hash: r.root_hash, file_hash: r.file_hash }
}

impl ExtBlkRef {
    /// A reference with all fields zero.
    pub fn zero() -> (r: Self)
        ensures
            r.end_lt == 0,
            r.seq_no == 0,
            r.root_hash@ == Seq::new(32, |i: int| 0u8),
            r.file_hash@ == Seq::new(32, |i: int| 0u8),
    {
        ExtBlkRef { end_lt: 0, seq_no: 0, root_hash: UInt256::new(), file_hash: UInt256::new() }
    }

    /// End logical time and the identifier of the referred masterchain block.
    pub fn master_block_id(self) -> (r: (u64, BlockIdExt))
        ensures
            r.0 == self.end_lt,
            r.1.shard_id@ == (MASTERCHAIN_ID, SHARD_FULL),
            r.1.seq_no == self.seq_no,
            r.1.root_hash == self.root_hash,
            r.1.file_hash == self.file_hash,
    {
        (self.end_lt, BlockIdExt::from_ext_blk(self))
    }

    /// End logical time and the identifier of the referred block in shard `shard_id`.
    pub fn workchain_block_id(self, shard_id: ShardIdent) -> (r: (u64, BlockIdExt))
        ensures
            r.0 == self.end_lt,
            r.1 == ext_block_id(self, shard_id),
    {
        let block_id = BlockIdExt {
            shard_id,
            seq_no: self.seq_no,
            root_hash: self.root_hash,
            file_hash: self.file_hash,
        };
        (self.end_lt, block_id)
    }
}

/// The previous block of a block, or the two previous blocks of a block made by a merge.
#[derive(Clone, Copy, Debug, PartialEq, Eq)]
pub enum BlkPrevInfo {
    Block { prev: ExtBlkRef },
    Blocks { prev1: ChildCell<ExtBlkRef>, prev2: ChildCell<ExtBlkRef> },
}

/// The first previous block, `None` when its cell cannot be read.
pub open spec fn spec_prev1(p: BlkPrevInfo) -> Option<ExtBlkRef> {
    match p {
        BlkPrevInfo::Block { prev } => Some(prev),
        BlkPrevInfo::Blocks { prev1, .. } => prev1.spec_struct(),
    }
}

impl Default for BlkPrevInfo {
    fn default() -> (r: Self)
        ensures
            r == (BlkPrevInfo::Block { prev: r->prev }),
            r->prev.end_lt == 0 && r->prev.seq_no == 0,
    {
        BlkPrevInfo::default_block()
    }
}

impl BlkPrevInfo {
    /// One previous block from a list of one, two from a list of two; any other length
    /// is refused.
    pub fn new(ext_block_refs: Vec<ExtBlkRef>) -> (r: Result<Self, BlockError>)
        ensures
            r is Ok <==> (ext_block_refs@.len() == 1 || ext_block_refs@.len() == 2),
            ext_block_refs@.len() == 1 ==> r == Ok::<Self, BlockError>(
                BlkPrevInfo::Block { prev: ext_block_refs@[0] },
            ),
            ext_block_refs@.len() == 2 ==> (r matches Ok(BlkPrevInfo::Blocks { prev1, prev2 })
                && prev1.spec_struct() == Some(ext_block_refs@[0])
                && prev2.spec_struct() == Some(ext_block_refs@[1])),
    {
        let n = ext_block_refs.len();
        if n == 2 {
            let prev1 = ChildCell::with_struct(&ext_block_refs[0]);
            let prev2 = ChildCell::with_struct(&ext_block_refs[1]);
            Ok(BlkPrevInfo::Blocks { prev1, prev2 })
        } else if n == 1 {
            Ok(BlkPrevInfo::Block { prev: ext_block_refs[0] })
        } else {
            Err(BlockError::Other(message("prev blocks must be 1 or 2")))
        }
    }

    /// One previous block, with a reference of zeros.
    pub fn default_block() -> (r: Self)
        ensures
            r is Block,
            r->prev.end_lt == 0 && r->prev.seq_no == 0,
            r->prev.root_hash@ == Seq::new(32, |i: int| 0u8),
            r->prev.file_hash@ == Seq::new(32, |i: int| 0u8),
    {
        BlkPrevInfo::Block { prev: ExtBlkRef::zero() }
    }

    /// Two previous blocks, both cells empty.
    pub fn default_blocks() -> (r: Self)
        ensures
            r is Blocks,
            r->prev1.spec_struct() is None,
            r->prev2.spec_struct() is None,
    {
        BlkPrevInfo::Blocks { prev1: ChildCell::empty(), prev2: ChildCell::empty() }
    }

    /// Whether there is one previous block.
    pub fn is_one_prev(&self) -> (r: bool)
        ensures
            r == (*self is Block),
    {
        match self {
            BlkPrevInfo::Block { .. } => true,
            BlkPrevInfo::Blocks { .. } => false,
        }
    }

    /// The (first) previous block; fails when its cell cannot be read.
    pub fn prev1(&self) -> (r: Result<ExtBlkRef, BlockError>)
        ensures
            r is Ok <==> spec_prev1(*self) is Some,
            r is Ok ==> Some(r->Ok_0) == spec_prev1(*self),
    {
        match self {
            BlkPrevInfo::Block { prev } => Ok(*prev),
            BlkPrevInfo::Blocks { prev1, .. } => prev1.read_struct(),
        }
    }

    /// The second previous block, `None` when there is one; fails when its cell cannot be read.
    pub fn prev2(&self) -> (r: Result<Option<ExtBlkRef>, BlockError>)
        ensures
            *self is Block ==> r == Ok::<Option<ExtBlkRef>, BlockError>(None),
            *self is Blocks ==> (r is Ok <==> self->prev2.spec_struct() is Some),
            *self is Blocks && r is Ok ==> r->Ok_0 == self->prev2.spec_struct(),
    {
        match self {
            BlkPrevInfo::Block { .. } => Ok(None),
            BlkPrevInfo::Blocks { prev2, .. } => match prev2.read_struct() {
                Ok(v) => Ok(Some(v)),
                Err(e) => Err(e),
            },
        }
    }
}

///
/// Header of a block (`block_info`).
///
#[derive(Clone, Copy, Debug, PartialEq, Eq)]
pub struct BlockInfo {
    version: u32,
    after_merge: bool,
    before_split: bool,
    after_split: bool,
    want_split: bool,
    want_merge: bool,
    key_block: bool,
    vert_seqno_incr: u32,
    flags: u8,
    seq_no: u32,
    vert_seq_no: u32,
    shard: ShardIdent,
    gen_utime: UnixTime32,
    gen_utime_ms_part: u16,
    start_lt: u64,
    end_lt: u64,
    gen_validator_list_hash_short: u32,
    gen_catchain_seqno: u32,
    min_ref_mc_seqno: u32,
    prev_key_block_seqno: u32,
    gen_software: Option<GlobalVersion>,
    master_ref: Option<BlkMasterInfo>,
    prev_ref: ChildCell<BlkPrevInfo>,
    prev_vert_ref: Option<BlkPrevInfo>,
}

/// Abstract content of a block header; `prev_ref` is `None` while its cell is empty.
pub struct BlockInfoModel {
    pub version: u32,
    pub after_merge: bool,
    pub before_split: bool,
    pub after_split: bool,
    pub want_split: bool,
    pub want_merge: bool,
    pub key_block: bool,
    pub vert_seqno_incr: u32,
    pub flags: u8,
    pub seq_no: u32,
    pub vert_seq_no: u32,
    pub shard: ShardIdent,
    pub gen_utime: u32,
    pub gen_utime_ms_part: u16,
    pub start_lt: u64,
    pub end_lt: u64,
    pub gen_validator_list_hash_short: u32,
    pub gen_catchain_seqno: u32,
    pub min_ref_mc_seqno: u32,
    pub prev_key_block_seqno: u32,
    pub gen_software: Option<GlobalVersion>,
    pub master_ref: Option<BlkMasterInfo>,
    pub prev_ref: Option<BlkPrevInfo>,
    pub prev_vert_ref: Option<BlkPrevInfo>,
}

impl View for BlockInfo {
    type V = BlockInfoModel;

    closed spec fn view(&self) -> BlockInfoModel {
        BlockInfoModel {
            version: self.version,
            after_merge: self.after_merge,
            before_split: self.before_split,
            after_split: self.after_split,
            want_split: self.want_split,
            want_merge: self.want_merge,
            key_block: self.key_block,
            vert_seqno_incr: self.vert_seqno_incr,
            flags: self.flags,
            seq_no: self.seq_no,
            vert_seq_no: self.vert_seq_no,
            shard: self.shard,
            gen_utime: self.gen_utime@,
            gen_utime_ms_part: self.gen_utime_ms_part,
            start_lt: self.start_lt,
            end_lt: self.end_lt,
            gen_validator_list_hash_short: self.gen_validator_list_hash_short,
            gen_catchain_seqno: self.gen_catchain_seqno,
            min_ref_mc_seqno: self.min_ref_mc_seqno,
            prev_key_block_seqno: self.prev_key_block_seqno,
            gen_software: self.gen_software,
            master_ref: self.master_ref,
            prev_ref: self.prev_ref.spec_struct(),
            prev_vert_ref: self.prev_vert_ref,
        }
    }
}

/// The previous-blocks reference as it reads back: present, and of the shape that
/// `after_merge` calls for (two blocks exactly after a merge).
pub open spec fn readable_prev_ref(m: BlockInfoModel) -> Option<BlkPrevInfo> {
    match m.prev_ref {
        Some(p) => if (p is Block) == !m.after_merge {
            Some(p)
        } else {
            None
        },
        None => None,
    }
}

/// The masterchain block that a header refers to: its master reference, or else its first
/// previous block.
pub open spec fn spec_master_id(m: BlockInfoModel) -> Option<ExtBlkRef> {
    match m.master_ref {
        Some(mr) => Some(mr.master),
        None => match readable_prev_ref(m) {
            Some(p) => spec_prev1(p),
            None => None,
        },
    }
}

/// Whether a shard with prefix `p` can be split.
pub open spec fn splittable(p: u64) -> bool {
    (lowest_bit(p) / 2) & 7 == 0
}

/// The left and right halves of a shard.
pub open spec fn left_half(s: ShardIdent) -> (i32, u64) {
    (s@.0, (s@.1 - lowest_bit(s@.1) / 2) as u64)
}

/// The right half of a shard.
pub open spec fn right_half(s: ShardIdent) -> (i32, u64) {
    (s@.0, (s@.1 + lowest_bit(s@.1) / 2) as u64)
}

/// Identifiers of the previous blocks of a header: after a merge, the two halves' blocks;
/// after a split, the block of the parent shard; else the block of the same shard.
/// `None` when a reference cannot be read or the shard cannot be split or merged.
pub open spec fn spec_prev_ids(m: BlockInfoModel, ids: Seq<BlockIdExt>) -> bool {
    match readable_prev_ref(m) {
        Some(BlkPrevInfo::Blocks { prev1, prev2 }) => {
            &&& prev1.spec_struct() is Some && prev2.spec_struct() is Some
            &&& splittable(m.shard@.1)
            &&& ids.len() == 2
            &&& ids[0].shard_id@ == left_half(m.shard) && ids[1].shard_id@ == right_half(m.shard)
            &&& ids[0] == ext_block_id(prev1.spec_struct()->0, ids[0].shard_id)
            &&& ids[1] == ext_block_id(prev2.spec_struct()->0, ids[1].shard_id)
        },
        Some(BlkPrevInfo::Block { prev }) => {
            &&& ids.len() == 1
            &&& ids[0] == ext_block_id(prev, ids[0].shard_id)
            &&& if m.after_split {
                m.shard@.1 != SHARD_FULL && ids[0].shard_id@ == (m.shard@.0, parent_prefix(
                    m.shard@.1,
                ))
            } else {
                ids[0].shard_id == m.shard
            }
        },
        None => false,
    }
}

/// Whether the previous block identifiers of a header can be computed.
pub open spec fn prev_ids_defined(m: BlockInfoModel) -> bool {
    match readable_prev_ref(m) {
        Some(BlkPrevInfo::Blocks { prev1, prev2 }) => prev1.spec_struct() is Some
            && prev2.spec_struct() is Some && splittable(m.shard@.1),
        Some(BlkPrevInfo::Block { .. }) => !m.after_split || m.shard@.1 != SHARD_FULL,
        None => false,
    }
}

/// The default header: sequence number 1 in the whole basechain, every other field zero,
/// false or absent.
pub open spec fn default_header(m: BlockInfoModel) -> bool {
    &&& m.version == 0
    &&& !m.after_merge && !m.before_split && !m.after_split
    &&& !m.want_split && !m.want_merge && !m.key_block
    &&& m.vert_seqno_incr == 0
    &&& m.flags == 0
    &&& m.seq_no == 1
    &&& m.vert_seq_no == 0
    &&& m.shard@ == (0i32, SHARD_FULL)
    &&& m.gen_utime == 0
    &&& m.gen_utime_ms_part == 0
    &&& m.start_lt == 0 && m.end_lt == 0
    &&& m.gen_validator_list_hash_short == 0
    &&& m.gen_catchain_seqno == 0
    &&& m.min_ref_mc_seqno == 0
    &&& m.prev_key_block_seqno == 0
    &&& m.gen_software is None
    &&& m.master_ref is None
    &&& m.prev_ref is None
    &&& m.prev_vert_ref is None
}

impl Default for BlockInfo {
    fn default() -> (r: Self)
        ensures
            default_header(r@),
    {
        BlockInfo {
            version: 0,
            after_merge: false,
            before_split: false,
            after_split: false,
            want_split: false,
            want_merge: false,
            key_block: false,
            vert_seqno_incr: 0,
            flags: 0,
            seq_no: 1,
            vert_seq_no: 0,
            shard: ShardIdent::default(),
            gen_utime: UnixTime32::new(0),
            gen_utime_ms_part: 0,
            start_lt: 0,
            end_lt: 0,
            gen_validator_list_hash_short: 0,
            gen_catchain_seqno: 0,
            min_ref_mc_seqno: 0,
            prev_key_block_seqno: 0,
            gen_software: None,
            master_ref: None,
            prev_ref: ChildCell::empty(),
            prev_vert_ref: None,
        }
    }
}

impl BlockInfo {
    /// The default header.
    pub fn new() -> (r: Self)
        ensures
            default_header(r@),
    {
        Self::default()
    }

    /// Block format version.
    pub fn version(&self) -> (r: u32)
        ensures
            r == self@.version,
    {
        self.version
    }

    /// Sets `version`.
    pub fn set_version(&mut self, version: u32)
        ensures
            final(self)@ == (BlockInfoModel { version, ..old(self)@ }),
    {
        self.version = version;
    }

    /// Whether the shard splits after this block.
    pub fn before_split(&self) -> (r: bool)
        ensures
            r == self@.before_split,
    {
        self.before_split
    }

    /// Sets `before_split`.
    pub fn set_before_split(&mut self, before_split: bool)
        ensures
            final(self)@ == (BlockInfoModel { before_split, ..old(self)@ }),
    {
        self.before_split = before_split;
    }

    /// Whether this block follows a split.
    pub fn after_split(&self) -> (r: bool)
        ensures
            r == self@.after_split,
    {
        self.after_split
    }

    /// Sets `after_split`.
    pub fn set_after_split(&mut self, after_split: bool)
        ensures
            final(self)@ == (BlockInfoModel { after_split, ..old(self)@ }),
    {
        self.after_split = after_split;
    }

    /// Whether the shard wants to split.
    pub fn want_split(&self) -> (r: bool)
        ensures
            r == self@.want_split,
    {
        self.want_split
    }

    /// Sets `want_split`.
    pub fn set_want_split(&mut self, want_split: bool)
        ensures
            final(self)@ == (BlockInfoModel { want_split, ..old(self)@ }),
    {
        self.want_split = want_split;
    }

    /// Whether the shard wants to merge.
    pub fn want_merge(&self) -> (r: bool)
        ensures
            r == self@.want_merge,
    {
        self.want_merge
    }

    /// Sets `want_merge`.
    pub fn set_want_merge(&mut self, want_merge: bool)
        ensures
            final(self)@ == (BlockInfoModel { want_merge, ..old(self)@ }),
    {
        self.want_merge = want_merge;
    }

    /// Whether this is a key block.
    pub fn key_block(&self) -> (r: bool)
        ensures
            r == self@.key_block,
    {
        self.key_block
    }

    /// Sets `key_block`.
    pub fn set_key_block(&mut self, key_block: bool)
        ensures
            final(self)@ == (BlockInfoModel { key_block, ..old(self)@ }),
    {
        self.key_block = key_block;
    }

    /// The flags; bit 0 tells that `gen_software` is present.
    pub fn flags(&self) -> (r: u8)
        ensures
            r == self@.flags,
    {
        self.flags
    }

    /// Sequence number of the block.
    pub fn seq_no(&self) -> (r: u32)
        ensures
            r == self@.seq_no,
    {
        self.seq_no
    }

    /// Sets the sequence number; zero is refused.
    pub fn set_seq_no(&mut self, seq_no: u32) -> (r: Result<(), BlockError>)
        ensures
            r is Ok <==> seq_no != 0,
            r is Ok ==> final(self)@ == (BlockInfoModel { seq_no, ..old(self)@ }),
            r is Err ==> *final(self) == *old(self),
            r is Err ==> r->Err_0 is InvalidArg,
    {
        if seq_no == 0 {
            return Err(BlockError::InvalidArg(message("`seq_no` can't be zero")));
        }
        self.seq_no = seq_no;
        Ok(())
    }

    /// The shard of the block.
    pub fn shard(&self) -> (r: &ShardIdent)
        ensures
            *r == self@.shard,
    {
        &self.shard
    }

    /// Sets the shard.
    pub fn set_shard(&mut self, shard: ShardIdent)
        ensures
            final(self)@ == (BlockInfoModel { shard, ..old(self)@ }),
    {
        self.shard = shard;
    }

    /// Generation time in seconds.
    pub fn gen_utime(&self) -> (r: UnixTime32)
        ensures
            r@ == self@.gen_utime,
    {
        self.gen_utime
    }

    /// Generation time in milliseconds: the seconds times 1000 plus the milliseconds part.
    pub fn gen_utime_ms(&self) -> (r: u64)
        ensures
            r == self@.gen_utime_ms_part + self@.gen_utime * 1000,
    {
        self.gen_utime_ms_part as u64 + self.gen_utime.as_u32() as u64 * 1000
    }

    /// Milliseconds part of the generation time.
    pub fn gen_utime_ms_part(&self) -> (r: u16)
        ensures
            r == self@.gen_utime_ms_part,
    {
        self.gen_utime_ms_part
    }

    /// Sets the generation time in seconds, with no milliseconds part.
    pub fn set_gen_utime(&mut self, gen_utime: UnixTime32)
        ensures
            final(self)@ == (BlockInfoModel {
                gen_utime: gen_utime@,
                gen_utime_ms_part: 0,
                ..old(self)@
            }),
    {
        self.gen_utime = gen_utime;
        self.gen_utime_ms_part = 0;
    }

    /// Sets the generation time from milliseconds: the seconds (taken modulo 2^32) and
    /// the remaining milliseconds.
    pub fn set_gen_utime_ms(&mut self, gen_utime_millis: u64)
        ensures
            final(self)@ == (BlockInfoModel {
                gen_utime: (gen_utime_millis / 1000) as u32,
                gen_utime_ms_part: (gen_utime_millis % 1000) as u16,
                ..old(self)@
            }),
    {
        self.gen_utime = UnixTime32::new((gen_utime_millis / 1000) as u32);
        self.gen_utime_ms_part = (gen_utime_millis % 1000) as u16;
    }

    /// Logical time at the start of the block.
    pub fn start_lt(&self) -> (r: u64)
        ensures
            r == self@.start_lt,
    {
        self.start_lt
    }

    /// Sets `start_lt`.
    pub fn set_start_lt(&mut self, start_lt: u64)
        ensures
            final(self)@ == (BlockInfoModel { start_lt, ..old(self)@ }),
    {
        self.start_lt = start_lt;
    }

    /// Logical time at the end of the block.
    pub fn end_lt(&self) -> (r: u64)
        ensures
            r == self@.end_lt,
    {
        self.end_lt
    }

    /// Sets `end_lt`.
    pub fn set_end_lt(&mut self, end_lt: u64)
        ensures
            final(self)@ == (BlockInfoModel { end_lt, ..old(self)@ }),
    {
        self.end_lt = end_lt;
    }

    /// Short hash of the validator list that made the block.
    pub fn gen_validator_list_hash_short(&self) -> (r: u32)
        ensures
            r == self@.gen_validator_list_hash_short,
    {
        self.gen_validator_list_hash_short
    }

    /// Sets `gen_validator_list_hash_short`.
    pub fn set_gen_validator_list_hash_short(&mut self, hash: u32)
        ensures
            final(self)@ == (BlockInfoModel { gen_validator_list_hash_short: hash, ..old(self)@ }),
    {
        self.gen_validator_list_hash_short = hash;
    }

    /// Catchain sequence number of the validator session.
    pub fn gen_catchain_seqno(&self) -> (r: u32)
        ensures
            r == self@.gen_catchain_seqno,
    {
        self.gen_catchain_seqno
    }

    /// Sets `gen_catchain_seqno`.
    pub fn set_gen_catchain_seqno(&mut self, cc_seqno: u32)
        ensures
            final(self)@ == (BlockInfoModel { gen_catchain_seqno: cc_seqno, ..old(self)@ }),
    {
        self.gen_catchain_seqno = cc_seqno;
    }

    /// Smallest masterchain sequence number referred to.
    pub fn min_ref_mc_seqno(&self) -> (r: u32)
        ensures
            r == self@.min_ref_mc_seqno,
    {
        self.min_ref_mc_seqno
    }

    /// Sets `min_ref_mc_seqno`.
    pub fn set_min_ref_mc_seqno(&mut self, min_ref_mc_seqno: u32)
        ensures
            final(self)@ == (BlockInfoModel { min_ref_mc_seqno, ..old(self)@ }),
    {
        self.min_ref_mc_seqno = min_ref_mc_seqno;
    }

    /// Sequence number of the last key block.
    pub fn prev_key_block_seqno(&self) -> (r: u32)
        ensures
            r == self@.prev_key_block_seqno,
    {
        self.prev_key_block_seqno
    }

    /// Sets `prev_key_block_seqno`.
    pub fn set_prev_key_block_seqno(&mut self, prev_key_block_seqno: u32)
        ensures
            final(self)@ == (BlockInfoModel { prev_key_block_seqno, ..old(self)@ }),
    {
        self.prev_key_block_seqno = prev_key_block_seqno;
    }

    /// The software version that made the block, if recorded.
    pub fn gen_software(&self) -> (r: Option<&GlobalVersion>)
        ensures
            r == match self@.gen_software {
                Some(v) => Some(&v),
                None => None::<&GlobalVersion>,
            },
    {
        self.gen_software.as_ref()
    }

    /// Records the software version (or none), and sets or clears the flag bit that tells
    /// that it is present.
    pub fn set_gen_software(&mut self, gen_software: Option<GlobalVersion>)
        ensures
            final(self)@ == (BlockInfoModel {
                gen_software,
                flags: if gen_software is Some {
                    old(self)@.flags | GEN_SOFTWARE_EXISTS_FLAG
                } else {
                    old(self)@.flags & !GEN_SOFTWARE_EXISTS_FLAG
                },
                ..old(self)@
            }),
    {
        self.gen_software = gen_software;
        if self.gen_software.is_some() {
            self.flags = self.flags | GEN_SOFTWARE_EXISTS_FLAG;
        } else {
            self.flags = self.flags & !GEN_SOFTWARE_EXISTS_FLAG;
        }
    }

    /// The reference to the masterchain block, if any.
    pub fn read_master_ref(&self) -> (r: Result<Option<BlkMasterInfo>, BlockError>)
        ensures
            r == Ok::<Option<BlkMasterInfo>, BlockError>(self@.master_ref),
    {
        Ok(self.master_ref)
    }

    /// Sets (or removes) the reference to the masterchain block.
    pub fn write_master_ref(&mut self, value: Option<&BlkMasterInfo>) -> (r: Result<(), BlockError>)
        ensures
            r is Ok,
            final(self)@ == (BlockInfoModel {
                master_ref: match value {
                    Some(v) => Some(*v),
                    None => None::<BlkMasterInfo>,
                },
                ..old(self)@
            }),
    {
        self.master_ref = match value {
            Some(v) => Some(*v),
            None => None,
        };
        Ok(())
    }

    /// The masterchain block the header refers to: the master reference, or else the first
    /// previous block.
    pub fn read_master_id(&self) -> (r: Result<ExtBlkRef, BlockError>)
        ensures
            r is Ok <==> spec_master_id(self@) is Some,
            r is Ok ==> Some(r->Ok_0) == spec_master_id(self@),
    {
        match self.master_ref {
            Some(mr) => Ok(mr.master),
            None => {
                let prev = self.read_prev_ref()?;
                prev.prev1()
            },
        }
    }

    /// Whether this block follows a merge.
    pub fn after_merge(&self) -> (r: bool)
        ensures
            r == self@.after_merge,
    {
        self.after_merge
    }

    /// The cell of the previous-blocks reference.
    pub fn prev_ref_cell(&self) -> (r: ChildCell<BlkPrevInfo>)
        ensures
            r.spec_struct() == self@.prev_ref,
    {
        self.prev_ref
    }

    /// Reads the previous-blocks reference, in the shape that `after_merge` calls for: it
    /// fails when the cell is empty or holds the other shape.
    pub fn read_prev_ref(&self) -> (r: Result<BlkPrevInfo, BlockError>)
        ensures
            r is Ok <==> readable_prev_ref(self@) is Some,
            r is Ok ==> Some(r->Ok_0) == readable_prev_ref(self@),
    {
        let prev = self.prev_ref.read_struct()?;
        if prev.is_one_prev() == !self.after_merge {
            Ok(prev)
        } else {
            Err(BlockError::InvalidData(message("previous blocks reference of a wrong shape")))
        }
    }

    /// Identifiers of the previous blocks: after a merge, those of the two halves of the
    /// shard; after a split, that of the parent shard; else that of the same shard.
    pub fn read_prev_ids(&self) -> (r: Result<Vec<BlockIdExt>, BlockError>)
        ensures
            r is Ok <==> prev_ids_defined(self@),
            r is Ok ==> spec_prev_ids(self@, r->Ok_0@),
    {
        let prev = self.read_prev_ref()?;
        if let Some(prev2) = prev.prev2()? {
            let (shard1, shard2) = self.shard.split()?;
            let prev1 = prev.prev1()?;
            Ok(vec![prev1.workchain_block_id(shard1).1, prev2.workchain_block_id(shard2).1])
        } else if self.after_split {
            let parent = self.shard.merge()?;
            let prev1 = prev.prev1()?;
            Ok(vec![prev1.workchain_block_id(parent).1])
        } else {
            let prev1 = prev.prev1()?;
            Ok(vec![prev1.workchain_block_id(self.shard).1])
        }
    }

    /// Sets the previous-blocks reference with the merge flag: two previous blocks go with
    /// `after_merge` and one without; anything else is refused.
    pub fn set_prev_stuff(&mut self, after_merge: bool, prev_ref: &BlkPrevInfo) -> (r: Result<(), BlockError>)
        ensures
            r is Ok <==> (after_merge == (*prev_ref is Blocks)),
            r is Ok ==> final(self)@ == (BlockInfoModel {
                after_merge,
                prev_ref: Some(*prev_ref),
                ..old(self)@
            }),
            r is Err ==> *final(self) == *old(self),
    {
        if !after_merge ^ prev_ref.is_one_prev() {
            return Err(BlockError::InvalidArg(
                message("`prev_ref` may handle two blocks only if `after_merge`"),
            ));
        }
        self.after_merge = after_merge;
        self.prev_ref.write_struct(prev_ref);
        Ok(())
    }

    /// Vertical sequence number.
    pub fn vert_seq_no(&self) -> (r: u32)
        ensures
            r == self@.vert_seq_no,
    {
        self.vert_seq_no
    }

    /// Vertical sequence number increment.
    pub fn vert_seqno_incr(&self) -> (r: u32)
        ensures
            r == self@.vert_seqno_incr,
    {
        self.vert_seqno_incr
    }

    /// The reference to the previous block of the vertical chain, if any.
    pub fn read_prev_vert_ref(&self) -> (r: Result<Option<BlkPrevInfo>, BlockError>)
        ensures
            r == Ok::<Option<BlkPrevInfo>, BlockError>(self@.prev_vert_ref),
    {
        Ok(self.prev_vert_ref)
    }

    /// Sets the vertical chain data. Refused when `vert_seq_no < vert_seqno_incr`, or when a
    /// vertical reference is given exactly when the increment is zero.
    pub fn set_vertical_stuff(
        &mut self,
        vert_seqno_incr: u32,
        vert_seq_no: u32,
        prev_vert_ref: Option<BlkPrevInfo>,
    ) -> (r: Result<(), BlockError>)
        ensures
            r is Ok <==> (vert_seq_no >= vert_seqno_incr && ((vert_seqno_incr == 0) == (prev_vert_ref is None))),
            r is Ok ==> final(self)@ == (BlockInfoModel {
                vert_seqno_incr,
                vert_seq_no,
                prev_vert_ref,
                ..old(self)@
            }),
            r is Err ==> *final(self) == *old(self),
    {
        if vert_seq_no < vert_seqno_incr {
            return Err(BlockError::InvalidArg(
                message("`vert_seq_no` can't be less then `vert_seqno_incr`"),
            ));
        }
        if (vert_seqno_incr == 0) ^ prev_vert_ref.is_none() {
            return Err(BlockError::InvalidArg(
                message("`prev_vert_ref` may be Some only if `vert_seqno_incr != 0` and vice versa"),
            ));
        }
        self.vert_seqno_incr = vert_seqno_incr;
        self.vert_seq_no = vert_seq_no;
        self.prev_vert_ref = prev_vert_ref;
        Ok(())
    }
}

/// Setting the generation time in milliseconds and reading it back gives the same value,
/// whenever the seconds fit in 32 bits.
pub proof fn law_gen_utime_ms_roundtrip(millis: u64)
    requires
        millis / 1000 <= u32::MAX,
    ensures
        ((millis % 1000) as u16) + ((millis / 1000) as u32) * 1000 == millis,
{
}

/// Processing status of a block.
#[derive(Clone, Copy, Debug, PartialEq, Eq)]
pub enum BlockProcessingStatus {
    Unknown,
    Proposed,
    Finalized,
    Refused,
}

impl Default for BlockProcessingStatus {
    fn default() -> (r: Self)
        ensures
            r == BlockProcessingStatus::Unknown,
    {
        BlockProcessingStatus::Unknown
    }
}

/// Flow of value through a block.
#[derive(Debug, PartialEq, Eq)]
pub struct ValueFlow {
    pub from_prev_blk: CurrencyCollection,
    pub to_next_blk: CurrencyCollection,
    pub imported: CurrencyCollection,
    pub exported: CurrencyCollection,
    pub fees_collected: CurrencyCollection,
    pub fees_imported: CurrencyCollection,
    pub recovered: CurrencyCollection,
    pub created: CurrencyCollection,
    pub minted: CurrencyCollection,
    pub copyleft_rewards: CopyleftRewards,
}

impl ValueFlow {
    /// Reads every dictionary of the flow in full. The flow is held in memory whole, so there
    /// is nothing left to load and this always succeeds.
    pub fn read_in_full_depth(&self) -> (r: Result<(), BlockError>)
        ensures
            r is Ok,
    {
        Ok(())
    }
}

impl Default for ValueFlow {
    fn default() -> (r: Self)
        ensures
            r.from_prev_blk.grams@ == 0 && r.from_prev_blk.other@ == Map::<u32, nat>::empty(),
            r.to_next_blk.grams@ == 0 && r.to_next_blk.other@ == Map::<u32, nat>::empty(),
            r.imported.grams@ == 0 && r.imported.other@ == Map::<u32, nat>::empty(),
            r.exported.grams@ == 0 && r.exported.other@ == Map::<u32, nat>::empty(),
            r.fees_collected.grams@ == 0 && r.fees_collected.other@ == Map::<u32, nat>::empty(),
            r.fees_imported.grams@ == 0 && r.fees_imported.other@ == Map::<u32, nat>::empty(),
            r.recovered.grams@ == 0 && r.recovered.other@ == Map::<u32, nat>::empty(),
            r.created.grams@ == 0 && r.created.other@ == Map::<u32, nat>::empty(),
            r.minted.grams@ == 0 && r.minted.other@ == Map::<u32, nat>::empty(),
            r.copyleft_rewards@ == Map::<UInt256, nat>::empty(),
    {
        ValueFlow {
            from_prev_blk: CurrencyCollection::new(),
            to_next_blk: CurrencyCollection::new(),
            imported: CurrencyCollection::new(),
            exported: CurrencyCollection::new(),
            fees_collected: CurrencyCollection::new(),
            fees_imported: CurrencyCollection::new(),
            recovered: CurrencyCollection::new(),
            created: CurrencyCollection::new(),
            minted: CurrencyCollection::new(),
            copyleft_rewards: CopyleftRewards::default(),
        }
    }
}

/// Constructor tag of a block header without a milliseconds part.
pub const BLOCK_INFO_TAG_1: u32 = 0x9bc7a987;

/// Constructor tag of a block header with a milliseconds part.
pub const BLOCK_INFO_TAG_2: u32 = 0x9bc7a988;

/// Constructor tag of a global version.
pub const GLOBAL_VERSION_TAG: u8 = 0xc4;

/// A block header stored in a cell: its data bytes and its child cells, in order. A child
/// cell holding a block reference is kept as a one-block `BlkPrevInfo` (the two have the same
/// layout); a cell holding two references as a two-block one.
pub struct BlockInfoCell {
    pub data: Vec<u8>,
    pub refs: Vec<ChildCell<BlkPrevInfo>>,
}

/// What the child cells of a stored header hold, in order.
pub open spec fn cell_children(refs: Seq<ChildCell<BlkPrevInfo>>) -> Seq<Option<BlkPrevInfo>> {
    refs.map_values(|c: ChildCell<BlkPrevInfo>| c.spec_struct())
}

/// The constructor tag: with a milliseconds part only when it is not zero.
pub open spec fn info_tag(m: BlockInfoModel) -> u32 {
    if m.gen_utime_ms_part == 0 {
        BLOCK_INFO_TAG_1
    } else {
        BLOCK_INFO_TAG_2
    }
}

/// The flag byte: not-master, after-merge, before-split, after-split, want-split, want-merge,
/// key-block and vertical-increment, from the highest bit down.
pub open spec fn header_byte(m: BlockInfoModel) -> u8 {
    (if m.master_ref is Some { 0x80u8 } else { 0u8 }) | (if m.after_merge { 0x40u8 } else { 0u8 }) | (
    if m.before_split { 0x20u8 } else { 0u8 }) | (if m.after_split { 0x10u8 } else { 0u8 }) | (if m.want_split {
        0x08u8
    } else {
        0u8
    }) | (if m.want_merge { 0x04u8 } else { 0u8 }) | (if m.key_block { 0x02u8 } else { 0u8 }) | (
    if m.vert_seqno_incr != 0 { 0x01u8 } else { 0u8 })
}

/// A shard as stored: its prefix length, its workchain, its prefix without the tag.
pub open spec fn shard_bytes(s: ShardIdent) -> Seq<u8> {
    seq![prefix_len_of(s@.1) as u8] + be32(s@.0 as u32) + be64((s@.1 - lowest_bit(s@.1)) as u64)
}

/// The first 35 bytes of a stored header (up to the generation time).
pub open spec fn info_head(m: BlockInfoModel) -> Seq<u8> {
    be32(info_tag(m)) + be32(m.version) + seq![header_byte(m), m.flags] + be32(m.seq_no) + be32(m.vert_seq_no)
        + shard_bytes(m.shard) + be32(m.gen_utime)
}

/// The milliseconds part, stored only when it is not zero.
pub open spec fn info_ms(m: BlockInfoModel) -> Seq<u8> {
    if m.gen_utime_ms_part != 0 {
        be16(m.gen_utime_ms_part)
    } else {
        Seq::empty()
    }
}

/// The logical times and sequence numbers that follow (32 bytes).
pub open spec fn info_body(m: BlockInfoModel) -> Seq<u8> {
    be64(m.start_lt) + be64(m.end_lt) + be32(m.gen_validator_list_hash_short) + be32(m.gen_catchain_seqno) + be32(
        m.min_ref_mc_seqno,
    ) + be32(m.prev_key_block_seqno)
}

/// The software version, stored when the flag says so.
pub open spec fn info_gen_software(m: BlockInfoModel) -> Seq<u8> {
    if m.flags & GEN_SOFTWARE_EXISTS_FLAG != 0 {
        seq![GLOBAL_VERSION_TAG] + be32(m.gen_software->0.version) + be64(m.gen_software->0.capabilities)
    } else {
        Seq::empty()
    }
}

/// The data bytes of a stored header.
pub open spec fn block_info_data(m: BlockInfoModel) -> Seq<u8> {
    info_head(m) + info_ms(m) + info_body(m) + info_gen_software(m)
}

/// The child cells of a stored header: the masterchain block if any, the previous blocks,
/// and the previous vertical blocks if any.
pub open spec fn block_info_children(m: BlockInfoModel) -> Seq<Option<BlkPrevInfo>> {
    (match m.master_ref {
        Some(mi) => seq![Some(BlkPrevInfo::Block { prev: mi.master })],
        None => Seq::empty(),
    }) + seq![m.prev_ref] + (match m.prev_vert_ref {
        Some(p) => seq![Some(p)],
        None => Seq::empty(),
    })
}

/// The flag bit of the software version agrees with its presence.
pub open spec fn gen_software_consistent(m: BlockInfoModel) -> bool {
    (m.flags & GEN_SOFTWARE_EXISTS_FLAG != 0) == (m.gen_software is Some)
}

/// Child cell `i` exists and holds one block reference.
pub open spec fn child_is_block(refs: Seq<Option<BlkPrevInfo>>, i: int) -> bool {
    0 <= i < refs.len() && match refs[i] {
        Some(BlkPrevInfo::Block { .. }) => true,
        _ => false,
    }
}

/// Child cell `i` exists and holds previous blocks of the given shape (two after a merge).
pub open spec fn child_has_shape(refs: Seq<Option<BlkPrevInfo>>, i: int, two: bool) -> bool {
    0 <= i < refs.len() && match refs[i] {
        Some(p) => (p is Blocks) == two,
        None => false,
    }
}

/// The header that stored data and child cells read as, or `None` when they do not read
/// (`old_gen_software` is kept when the data has no software version).
pub open spec fn parse_block_info(
    data: Seq<u8>,
    refs: Seq<Option<BlkPrevInfo>>,
    allow_v2: bool,
    old_gen_software: Option<GlobalVersion>,
) -> Option<BlockInfoModel> {
    if data.len() < 10 {
        None
    } else {
        let tag = be32_at(data, 0);
        let v2 = tag == BLOCK_INFO_TAG_2;
        let byte = data[8];
        let flags = data[9];
        let has_gs = flags & GEN_SOFTWARE_EXISTS_FLAG != 0;
        let base: int = if v2 { 37 } else { 35 };
        let size: int = base + 32 + if has_gs { 13int } else { 0int };
        if tag != BLOCK_INFO_TAG_1 && !(allow_v2 && v2) {
            None
        } else if data.len() < size {
            None
        } else {
            let shard_byte = data[18];
            let len = shard_byte & 0x3f;
            let wc = be32_at(data, 19) as i32;
            let not_master = byte & 0x80 != 0;
            let after_merge = byte & 0x40 != 0;
            let vert = byte & 0x01 != 0;
            let mi: int = if not_master { 1 } else { 0 };
            let seq_no = be32_at(data, 10);
            let vert_seq_no = be32_at(data, 14);
            if seq_no == 0 || shard_byte & 0xc0 != 0 || len > 60 || wc == INVALID_WORKCHAIN_ID || (has_gs
                && data[base + 32] != GLOBAL_VERSION_TAG) || (not_master && !child_is_block(refs, 0)) || !child_has_shape(
                refs,
                mi,
                after_merge,
            ) || (vert && !child_is_block(refs, mi + 1)) || (vert && vert_seq_no < 1) {
                None
            } else {
                Some(
                    BlockInfoModel {
                        version: be32_at(data, 4),
                        after_merge,
                        before_split: byte & 0x20 != 0,
                        after_split: byte & 0x10 != 0,
                        want_split: byte & 0x08 != 0,
                        want_merge: byte & 0x04 != 0,
                        key_block: byte & 0x02 != 0,
                        vert_seqno_incr: if vert { 1 } else { 0 },
                        flags,
                        seq_no,
                        vert_seq_no,
                        shard: shard_of(wc, tagged_prefix(be64_at(data, 23), len as nat)),
                        gen_utime: be32_at(data, 31),
                        gen_utime_ms_part: if v2 { be16_at(data, 35) } else { 0 },
                        start_lt: be64_at(data, base),
                        end_lt: be64_at(data, base + 8),
                        gen_validator_list_hash_short: be32_at(data, base + 16),
                        gen_catchain_seqno: be32_at(data, base + 20),
                        min_ref_mc_seqno: be32_at(data, base + 24),
                        prev_key_block_seqno: be32_at(data, base + 28),
                        gen_software: if has_gs {
                            Some(
                                GlobalVersion {
                                    version: be32_at(data, base + 33),
                                    capabilities: be64_at(data, base + 37),
                                },
                            )
                        } else {
                            old_gen_software
                        },
                        master_ref: if not_master {
                            Some(BlkMasterInfo { master: refs[0]->Some_0->prev })
                        } else {
                            None
                        },
                        prev_ref: refs[mi],
                        prev_vert_ref: if vert { refs[mi + 1] } else { None },
                    },
                )
            }
        }
    }
}

impl BlockInfo {
    /// Stores the header in a cell: its data bytes and its child cells. Refused when the flag
    /// bit of the software version does not agree with its presence.
    #[verifier::spinoff_prover]
    #[verifier::rlimit(30)]
    pub fn write_to(&self) -> (r: Result<BlockInfoCell, BlockError>)
        ensures
            r is Ok <==> gen_software_consistent(self@),
            r is Ok ==> r->Ok_0.data@ == block_info_data(self@),
            r is Ok ==> cell_children(r->Ok_0.refs@) == block_info_children(self@),
    {
        let has_gs = self.flags & GEN_SOFTWARE_EXISTS_FLAG != 0;
        if has_gs != self.gen_software.is_some() {
            return Err(BlockError::InvalidData(message("GEN_SOFTWARE_EXISTS_FLAG disagrees with gen_software")));
        }
        let byte: u8 = (if self.master_ref.is_some() { 0x80u8 } else { 0u8 }) | (if self.after_merge { 0x40u8 } else {
            0u8
        }) | (if self.before_split { 0x20u8 } else { 0u8 }) | (if self.after_split { 0x10u8 } else { 0u8 }) | (
        if self.want_split { 0x08u8 } else { 0u8 }) | (if self.want_merge { 0x04u8 } else { 0u8 }) | (
        if self.key_block { 0x02u8 } else { 0u8 }) | (if self.vert_seqno_incr != 0 { 0x01u8 } else { 0u8 });
        let tag = if self.gen_utime_ms_part == 0 {
            BLOCK_INFO_TAG_1
        } else {
            BLOCK_INFO_TAG_2
        };
        let mut data: Vec<u8> = Vec::new();
        push_u32(&mut data, tag);
        push_u32(&mut data, self.version);
        data.push(byte);
        data.push(self.flags);
        push_u32(&mut data, self.seq_no);
        push_u32(&mut data, self.vert_seq_no);
        data.push(self.shard.prefix_len());
        push_u32(&mut data, self.shard.workchain_id() as u32);
        push_u64(&mut data, self.shard.shard_prefix_without_tag());
        push_u32(&mut data, self.gen_utime.as_u32());
        assert(data@ =~= info_head(self@));
        if self.gen_utime_ms_part != 0 {
            push_u16(&mut data, self.gen_utime_ms_part);
        }
        assert(data@ =~= info_head(self@) + info_ms(self@));
        push_u64(&mut data, self.start_lt);
        push_u64(&mut data, self.end_lt);
        push_u32(&mut data, self.gen_validator_list_hash_short);
        push_u32(&mut data, self.gen_catchain_seqno);
        push_u32(&mut data, self.min_ref_mc_seqno);
        push_u32(&mut data, self.prev_key_block_seqno);
        assert(data@ =~= info_head(self@) + info_ms(self@) + info_body(self@));
        if let Some(gs) = self.gen_software {
            data.push(GLOBAL_VERSION_TAG);
            push_u32(&mut data, gs.version);
            push_u64(&mut data, gs.capabilities);
        }
        assert(data@ =~= block_info_data(self@));
        let mut refs: Vec<ChildCell<BlkPrevInfo>> = Vec::new();
        if let Some(master) = self.master_ref {
            refs.push(ChildCell::with_struct(&BlkPrevInfo::Block { prev: master.master }));
        }
        refs.push(self.prev_ref);
        if let Some(prev_vert) = self.prev_vert_ref {
            refs.push(ChildCell::with_struct(&prev_vert));
        }
        assert(cell_children(refs@) =~= block_info_children(self@));
        Ok(BlockInfoCell { data, refs })
    }

    /// Reads a stored header: the data bytes, then the child cells in order. With `allow_v2`
    /// the tag with a milliseconds part is accepted too. Nothing changes when it fails; when
    /// the data has no software version, the one already set stays.
    pub fn read_from_ex(&mut self, cell: &BlockInfoCell, allow_v2: bool) -> (r: Result<(), BlockError>)
        ensures
            r is Ok <==> parse_block_info(cell.data@, cell_children(cell.refs@), allow_v2, old(self)@.gen_software) is Some,
            r is Ok ==> Some(final(self)@) == parse_block_info(
                cell.data@,
                cell_children(cell.refs@),
                allow_v2,
                old(self)@.gen_software,
            ),
            r is Err ==> *final(self) == *old(self),
            cell.data@.len() < 4 ==> r matches Err(BlockError::InvalidData(_)),
            cell.data@.len() >= 4 && be32_at(cell.data@, 0) != BLOCK_INFO_TAG_1 && !(allow_v2 && be32_at(cell.data@, 0)
                == BLOCK_INFO_TAG_2) ==> (r matches Err(BlockError::InvalidConstructorTag { t, .. }) && t == be32_at(
                cell.data@,
                0,
            )),
    {
        let data = cell.data.as_slice();
        let ghost refs = cell_children(cell.refs@);
        if data.len() < 4 {
            return Err(BlockError::InvalidData(message("cell underflow")));
        }
        let tag = get_u32(data, 0);
        if tag != BLOCK_INFO_TAG_1 && !(allow_v2 && tag == BLOCK_INFO_TAG_2) {
            return Err(BlockError::InvalidConstructorTag { t: tag, s: message("BlockInfo") });
        }
        if data.len() < 10 {
            return Err(BlockError::InvalidData(message("cell underflow")));
        }
        let v2 = tag == BLOCK_INFO_TAG_2;
        let byte = data[8];
        let flags = data[9];
        let has_gs = flags & GEN_SOFTWARE_EXISTS_FLAG != 0;
        let base: usize = if v2 { 37 } else { 35 };
        let size: usize = base + 32 + if has_gs { 13 } else { 0 };
        if data.len() < size {
            return Err(BlockError::InvalidData(message("cell underflow")));
        }
        let seq_no = get_u32(data, 10);
        if seq_no == 0 {
            return Err(BlockError::InvalidArg(message("`seq_no` can't be zero")));
        }
        let vert_seq_no = get_u32(data, 14);
        let shard_byte = data[18];
        if shard_byte & 0xc0 != 0 {
            return Err(BlockError::InvalidData(message("2 high bits in ShardIdent's first byte have to be zero")));
        }
        let wc = get_u32(data, 19) as i32;
        let pfx = get_u64(data, 23);
        let shard = ShardIdent::with_prefix_len(shard_byte & 0x3f, wc, pfx)?;
        proof {
            lemma_tagged_unique(shard@.1, pfx, (shard_byte & 0x3f) as nat);
            lemma_shard_of(shard, wc, shard@.1);
        }
        let gen_software = if has_gs {
            if data[base + 32] != GLOBAL_VERSION_TAG {
                return Err(BlockError::InvalidConstructorTag { t: data[base + 32] as u32, s: message("GlobalVersion") });
            }
            Some(GlobalVersion { version: get_u32(data, base + 33), capabilities: get_u64(data, base + 37) })
        } else {
            self.gen_software
        };
        let not_master = byte & 0x80 != 0;
        let after_merge = byte & 0x40 != 0;
        let vert = byte & 0x01 != 0;
        let mut idx: usize = 0;
        let master_ref = if not_master {
            if cell.refs.len() == 0 {
                return Err(BlockError::InvalidData(message("no reference to the masterchain block")));
            }
            assert(refs[0] == cell.refs@[0].spec_struct());
            match cell.refs[0].read_struct() {
                Ok(BlkPrevInfo::Block { prev }) => {
                    idx = 1;
                    Some(BlkMasterInfo { master: prev })
                },
                _ => {
                    return Err(BlockError::InvalidData(message("bad reference to the masterchain block")));
                },
            }
        } else {
            None
        };
        if idx >= cell.refs.len() {
            return Err(BlockError::InvalidData(message("no reference to the previous blocks")));
        }
        assert(refs[idx as int] == cell.refs@[idx as int].spec_struct());
        let prev_ref = match cell.refs[idx].read_struct() {
            Ok(p) => {
                if p.is_one_prev() == after_merge {
                    return Err(BlockError::InvalidData(message("previous blocks of a wrong shape")));
                }
                p
            },
            Err(e) => {
                return Err(e);
            },
        };
        let prev_vert_ref = if vert {
            if idx + 1 >= cell.refs.len() {
                return Err(BlockError::InvalidData(message("no reference to the previous vertical block")));
            }
            assert(refs[idx + 1] == cell.refs@[idx + 1].spec_struct());
            match cell.refs[idx + 1].read_struct() {
                Ok(BlkPrevInfo::Block { prev }) => Some(BlkPrevInfo::Block { prev }),
                _ => {
                    return Err(BlockError::InvalidData(message("bad reference to the previous vertical block")));
                },
            }
        } else {
            None
        };
        if vert && vert_seq_no < 1 {
            return Err(BlockError::InvalidArg(message("`vert_seq_no` can't be less then `vert_seqno_incr`")));
        }
        *self = BlockInfo {
            version: get_u32(data, 4),
            after_merge,
            before_split: byte & 0x20 != 0,
            after_split: byte & 0x10 != 0,
            want_split: byte & 0x08 != 0,
            want_merge: byte & 0x04 != 0,
            key_block: byte & 0x02 != 0,
            vert_seqno_incr: if vert { 1 } else { 0 },
            flags,
            seq_no,
            vert_seq_no,
            shard,
            gen_utime: UnixTime32::new(get_u32(data, 31)),
            gen_utime_ms_part: if v2 { get_u16(data, 35) } else { 0 },
            start_lt: get_u64(data, base),
            end_lt: get_u64(data, base + 8),
            gen_validator_list_hash_short: get_u32(data, base + 16),
            gen_catchain_seqno: get_u32(data, base + 20),
            min_ref_mc_seqno: get_u32(data, base + 24),
            prev_key_block_seqno: get_u32(data, base + 28),
            gen_software,
            master_ref,
            prev_ref: ChildCell::with_struct(&prev_ref),
            prev_vert_ref,
        };
        Ok(())
    }
}

/// The bits of the flag byte give back the flags, and a workchain id stored as 32 unsigned
/// bits reads back as itself.
proof fn lemma_header_bits(x: u8, a: bool, b: bool, c: bool, d: bool, e: bool, f: bool, g: bool, h: bool, w: i32)
    by (bit_vector)
    requires
        x == (if a { 0x80u8 } else { 0u8 }) | (if b { 0x40u8 } else { 0u8 }) | (if c { 0x20u8 } else { 0u8 }) | (
        if d { 0x10u8 } else { 0u8 }) | (if e { 0x08u8 } else { 0u8 }) | (if f { 0x04u8 } else { 0u8 }) | (if g {
            0x02u8
        } else {
            0u8
        }) | (if h { 0x01u8 } else { 0u8 }),
    ensures
        (x & 0x80 != 0) == a && (x & 0x40 != 0) == b && (x & 0x20 != 0) == c && (x & 0x10 != 0) == d,
        (x & 0x08 != 0) == e && (x & 0x04 != 0) == f && (x & 0x02 != 0) == g && (x & 0x01 != 0) == h,
        (w as u32) as i32 == w,
{
}

/// A header that reads back as itself when stored: a set sequence number, a shard of at most
/// 60 prefix bits in a valid workchain, a vertical increment of 0 or 1 with a vertical
/// reference exactly when it is 1 (a one-block one, not below it), previous blocks of the
/// shape that the merge flag calls for, and the second tag allowed when there is a
/// milliseconds part.
pub open spec fn readable_header(m: BlockInfoModel, allow_v2: bool) -> bool {
    &&& m.seq_no != 0
    &&& m.shard@.1 != 0 && prefix_len_of(m.shard@.1) <= 60 && m.shard@.0 != INVALID_WORKCHAIN_ID
    &&& m.vert_seqno_incr <= 1
    &&& m.vert_seqno_incr == 1 ==> m.vert_seq_no >= 1
    &&& (m.vert_seqno_incr == 0) == (m.prev_vert_ref is None)
    &&& (m.prev_vert_ref matches Some(p) ==> p is Block)
    &&& (m.prev_ref matches Some(p) && (p is Blocks) == m.after_merge)
    &&& (m.gen_utime_ms_part != 0 ==> allow_v2)
}

/// The fields stored in the first 35 bytes read back.
#[verifier::spinoff_prover]
proof fn lemma_info_head(m: BlockInfoModel)
    ensures
        info_head(m).len() == 35,
        be32_at(info_head(m), 0) == info_tag(m),
        be32_at(info_head(m), 4) == m.version,
        info_head(m)[8] == header_byte(m),
        info_head(m)[9] == m.flags,
        be32_at(info_head(m), 10) == m.seq_no,
        be32_at(info_head(m), 14) == m.vert_seq_no,
        info_head(m)[18] == prefix_len_of(m.shard@.1) as u8,
        be32_at(info_head(m), 19) == m.shard@.0 as u32,
        be64_at(info_head(m), 23) == (m.shard@.1 - lowest_bit(m.shard@.1)) as u64,
        be32_at(info_head(m), 31) == m.gen_utime,
{
    let h = info_head(m);
    let p = m.shard@.1;
    let pfx = (p - lowest_bit(p)) as u64;
    assert(h.subrange(0, 4) =~= be32(info_tag(m)));
    assert(h.subrange(4, 8) =~= be32(m.version));
    assert(h.subrange(10, 14) =~= be32(m.seq_no));
    assert(h.subrange(14, 18) =~= be32(m.vert_seq_no));
    assert(h.subrange(19, 23) =~= be32(m.shard@.0 as u32));
    assert(h.subrange(23, 31) =~= be64(pfx));
    assert(h.subrange(31, 35) =~= be32(m.gen_utime));
    lemma_be_at(h, 0, 0, info_tag(m), 0);
    lemma_be_at(h, 4, 0, m.version, 0);
    lemma_be_at(h, 10, 0, m.seq_no, 0);
    lemma_be_at(h, 14, 0, m.vert_seq_no, 0);
    lemma_be_at(h, 19, 0, m.shard@.0 as u32, 0);
    lemma_be_at(h, 23, 0, 0, pfx);
    lemma_be_at(h, 31, 0, m.gen_utime, 0);
}

/// The fields stored in the 32 bytes after the generation time read back.
#[verifier::spinoff_prover]
proof fn lemma_info_body(m: BlockInfoModel)
    ensures
        info_body(m).len() == 32,
        be64_at(info_body(m), 0) == m.start_lt,
        be64_at(info_body(m), 8) == m.end_lt,
        be32_at(info_body(m), 16) == m.gen_validator_list_hash_short,
        be32_at(info_body(m), 20) == m.gen_catchain_seqno,
        be32_at(info_body(m), 24) == m.min_ref_mc_seqno,
        be32_at(info_body(m), 28) == m.prev_key_block_seqno,
{
    let b = info_body(m);
    assert(b.subrange(0, 8) =~= be64(m.start_lt));
    assert(b.subrange(8, 16) =~= be64(m.end_lt));
    assert(b.subrange(16, 20) =~= be32(m.gen_validator_list_hash_short));
    assert(b.subrange(20, 24) =~= be32(m.gen_catchain_seqno));
    assert(b.subrange(24, 28) =~= be32(m.min_ref_mc_seqno));
    assert(b.subrange(28, 32) =~= be32(m.prev_key_block_seqno));
    lemma_be_at(b, 0, 0, 0, m.start_lt);
    lemma_be_at(b, 8, 0, 0, m.end_lt);
    lemma_be_at(b, 16, 0, m.gen_validator_list_hash_short, 0);
    lemma_be_at(b, 20, 0, m.gen_catchain_seqno, 0);
    lemma_be_at(b, 24, 0, m.min_ref_mc_seqno, 0);
    lemma_be_at(b, 28, 0, m.prev_key_block_seqno, 0);
}

/// The optional parts read back: the milliseconds part and the software version.
proof fn lemma_info_optional(m: BlockInfoModel)
    ensures
        info_ms(m).len() == if m.gen_utime_ms_part != 0 { 2int } else { 0int },
        m.gen_utime_ms_part != 0 ==> be16_at(info_ms(m), 0) == m.gen_utime_ms_part,
        info_gen_software(m).len() == if m.flags & GEN_SOFTWARE_EXISTS_FLAG != 0 { 13int } else { 0int },
        m.flags & GEN_SOFTWARE_EXISTS_FLAG != 0 ==> info_gen_software(m)[0] == GLOBAL_VERSION_TAG
            && be32_at(info_gen_software(m), 1) == m.gen_software->0.version
            && be64_at(info_gen_software(m), 5) == m.gen_software->0.capabilities,
{
    if m.gen_utime_ms_part != 0 {
        assert(info_ms(m).subrange(0, 2) =~= be16(m.gen_utime_ms_part));
        lemma_be_at(info_ms(m), 0, m.gen_utime_ms_part, 0, 0);
    }
    if m.flags & GEN_SOFTWARE_EXISTS_FLAG != 0 {
        let g = info_gen_software(m);
        assert(g.subrange(1, 5) =~= be32(m.gen_software->0.version));
        assert(g.subrange(5, 13) =~= be64(m.gen_software->0.capabilities));
        lemma_be_at(g, 1, 0, m.gen_software->0.version, 0);
        lemma_be_at(g, 5, 0, 0, m.gen_software->0.capabilities);
    }
}

/// Storing a header and reading it back (into a header with no software version) gives the
/// header back.
#[verifier::spinoff_prover]
#[verifier::rlimit(60)]
pub proof fn law_block_info_roundtrip(m: BlockInfoModel, allow_v2: bool)
    requires
        gen_software_consistent(m),
        readable_header(m, allow_v2),
    ensures
        parse_block_info(block_info_data(m), block_info_children(m), allow_v2, None) == Some(m),
{
    let head = info_head(m);
    let ms = info_ms(m);
    let body = info_body(m);
    let gs = info_gen_software(m);
    let d = block_info_data(m);
    let p = m.shard@.1;
    let wc = m.shard@.0;
    let base: int = if m.gen_utime_ms_part != 0 { 37 } else { 35 };
    lemma_info_head(m);
    lemma_info_body(m);
    lemma_info_optional(m);
    let hm = head + ms;
    let hmb = hm + body;
    assert(d == hmb + gs);
    lemma_be_at_concat(head, ms, 0);
    lemma_be_at_concat(head, ms, 4);
    lemma_be_at_concat(head, ms, 8);
    lemma_be_at_concat(head, ms, 9);
    lemma_be_at_concat(head, ms, 10);
    lemma_be_at_concat(head, ms, 14);
    lemma_be_at_concat(head, ms, 18);
    lemma_be_at_concat(head, ms, 19);
    lemma_be_at_concat(head, ms, 23);
    lemma_be_at_concat(head, ms, 31);
    lemma_be_at_concat(head, ms, 35);
    let pos = seq![0int, 4, 8, 9, 10, 14, 18, 19, 23, 31, 35];
    assert forall|i: int| 0 <= i < pos.len() implies ({
        let q = #[trigger] pos[i];
        &&& q + 2 <= hm.len() ==> be16_at(hmb, q) == be16_at(hm, q) && be16_at(d, q) == be16_at(hm, q)
        &&& q + 4 <= hm.len() ==> be32_at(hmb, q) == be32_at(hm, q) && be32_at(d, q) == be32_at(hm, q)
        &&& q + 8 <= hm.len() ==> be64_at(hmb, q) == be64_at(hm, q) && be64_at(d, q) == be64_at(hm, q)
        &&& q + 1 <= hm.len() ==> d[q] == hm[q]
    }) by {
        lemma_be_at_concat(hm, body, pos[i]);
        lemma_be_at_concat(hmb, gs, pos[i]);
    }
    let bpos = seq![0int, 8, 16, 20, 24, 28];
    assert forall|i: int| 0 <= i < bpos.len() implies ({
        let q = #[trigger] bpos[i];
        &&& be64_at(d, base + q) == be64_at(body, q) || q + 8 > 32
        &&& be32_at(d, base + q) == be32_at(body, q)
    }) by {
        lemma_be_at_concat(hm, body, base + bpos[i]);
        lemma_be_at_concat(hmb, gs, base + bpos[i]);
    }
    if m.flags & GEN_SOFTWARE_EXISTS_FLAG != 0 {
        lemma_be_at_concat(hmb, gs, base + 32);
        lemma_be_at_concat(hmb, gs, base + 33);
        lemma_be_at_concat(hmb, gs, base + 37);
    }
    assert(be32_at(d, 0) == info_tag(m)) by {
        assert(pos[0] == 0);
    }
    assert(be32_at(d, 4) == m.version) by {
        assert(pos[1] == 4);
    }
    assert(d[8] == header_byte(m)) by {
        assert(pos[2] == 8);
    }
    assert(d[9] == m.flags) by {
        assert(pos[3] == 9);
    }
    assert(be32_at(d, 10) == m.seq_no) by {
        assert(pos[4] == 10);
    }
    assert(be32_at(d, 14) == m.vert_seq_no) by {
        assert(pos[5] == 14);
    }
    assert(d[18] == prefix_len_of(p) as u8) by {
        assert(pos[6] == 18);
    }
    assert(be32_at(d, 19) == wc as u32) by {
        assert(pos[7] == 19);
    }
    assert(be64_at(d, 23) == (p - lowest_bit(p)) as u64) by {
        assert(pos[8] == 23);
    }
    assert(be32_at(d, 31) == m.gen_utime) by {
        assert(pos[9] == 31);
    }
    if m.gen_utime_ms_part != 0 {
        assert(be16_at(d, 35) == m.gen_utime_ms_part) by {
            assert(pos[10] == 35);
        }
    }
    assert(be64_at(d, base) == m.start_lt) by {
        assert(bpos[0] == 0);
    }
    assert(be64_at(d, base + 8) == m.end_lt) by {
        assert(bpos[1] == 8);
    }
    assert(be32_at(d, base + 16) == m.gen_validator_list_hash_short) by {
        assert(bpos[2] == 16);
    }
    assert(be32_at(d, base + 20) == m.gen_catchain_seqno) by {
        assert(bpos[3] == 20);
    }
    assert(be32_at(d, base + 24) == m.min_ref_mc_seqno) by {
        assert(bpos[4] == 24);
    }
    assert(be32_at(d, base + 28) == m.prev_key_block_seqno) by {
        assert(bpos[5] == 28);
    }
    lemma_header_bits(
        header_byte(m),
        m.master_ref is Some,
        m.after_merge,
        m.before_split,
        m.after_split,
        m.want_split,
        m.want_merge,
        m.key_block,
        m.vert_seqno_incr != 0,
        wc,
    );
    lemma_retag(p);
    lemma_shard_of(m.shard, wc, p);
    let len = prefix_len_of(p) as u8;
    assert(len & 0xc0 == 0 && len & 0x3f == len) by (bit_vector)
        requires len <= 60;
    let refs = block_info_children(m);
    let mi: int = if m.master_ref is Some { 1 } else { 0 };
    assert(refs[mi] == m.prev_ref);
    if m.vert_seqno_incr != 0 {
        assert(refs[mi + 1] == m.prev_vert_ref);
    }
    let r = parse_block_info(d, refs, allow_v2, None);
    assert(r is Some);
    let q = r->0;
    assert(q.master_ref == m.master_ref);
    assert(q.gen_software == m.gen_software);
    assert(q.shard == m.shard);
    assert(q.vert_seqno_incr == m.vert_seqno_incr);
    assert(q.gen_utime_ms_part == m.gen_utime_ms_part);
    assert(q.prev_vert_ref == m.prev_vert_ref);
}

/// A block reference as stored: end logical time, sequence number, root hash and file hash
/// (76 bytes).
pub open spec fn ext_blk_ref_bytes(r: ExtBlkRef) -> Seq<u8> {
    be64(r.end_lt) + be32(r.seq_no) + r.root_hash@ + r.file_hash@
}

/// `r` is the block reference stored at `p` in `data`.
pub open spec fn ext_blk_ref_at(data: Seq<u8>, p: int, r: ExtBlkRef) -> bool {
    &&& 0 <= p && p + 76 <= data.len()
    &&& r.end_lt == be64_at(data, p)
    &&& r.seq_no == be32_at(data, p + 8)
    &&& r.root_hash@ == data.subrange(p + 12, p + 44)
    &&& r.file_hash@ == data.subrange(p + 44, p + 76)
}

impl ExtBlkRef {
    /// Appends the stored form of the reference.
    pub fn write_to(&self, out: &mut Vec<u8>)
        ensures
            final(out)@ == old(out)@ + ext_blk_ref_bytes(*self),
    {
        push_u64(out, self.end_lt);
        push_u32(out, self.seq_no);
        push_bytes32(out, self.root_hash.as_array());
        push_bytes32(out, self.file_hash.as_array());
        assert(out@ =~= old(out)@ + ext_blk_ref_bytes(*self));
    }

    /// Reads a reference stored at `*pos` and moves `*pos` past it. Fails, changing nothing,
    /// when fewer than 76 bytes are left.
    pub fn read_from(&mut self, data: &[u8], pos: &mut usize) -> (r: Result<(), BlockError>)
        ensures
            r is Ok <==> *old(pos) + 76 <= data@.len(),
            r is Ok ==> ext_blk_ref_at(data@, *old(pos) as int, *final(self)) && *final(pos) == *old(pos) + 76,
            r is Err ==> *final(self) == *old(self) && *final(pos) == *old(pos),
    {
        let p = *pos;
        if data.len() < 76 || p > data.len() - 76 {
            return Err(BlockError::InvalidData(message("cell underflow")));
        }
        self.end_lt = get_u64(data, p);
        self.seq_no = get_u32(data, p + 8);
        self.root_hash = UInt256::with_array(get_bytes32(data, p + 12));
        self.file_hash = UInt256::with_array(get_bytes32(data, p + 44));
        *pos = p + 76;
        Ok(())
    }
}

/// A stored block reference reads back as itself, and as nothing else.
pub proof fn law_ext_blk_ref_roundtrip(r: ExtBlkRef, x: ExtBlkRef, pre: Seq<u8>, post: Seq<u8>)
    ensures
        ext_blk_ref_at(pre + ext_blk_ref_bytes(r) + post, pre.len() as int, x) <==> x == r,
{
    let n = pre.len() as int;
    let d = pre + ext_blk_ref_bytes(r) + post;
    r.root_hash.lemma_bytes(x.root_hash);
    r.file_hash.lemma_bytes(x.file_hash);
    lemma_be_roundtrip(pre, be32(r.seq_no) + r.root_hash@ + r.file_hash@ + post, 0, 0, r.end_lt);
    assert(d =~= pre + be64(r.end_lt) + (be32(r.seq_no) + r.root_hash@ + r.file_hash@ + post));
    lemma_be_roundtrip(pre + be64(r.end_lt), r.root_hash@ + r.file_hash@ + post, 0, r.seq_no, 0);
    assert(d =~= (pre + be64(r.end_lt)) + be32(r.seq_no) + (r.root_hash@ + r.file_hash@ + post));
    assert(d.subrange(n + 12, n + 44) =~= r.root_hash@);
    assert(d.subrange(n + 44, n + 76) =~= r.file_hash@);
}

impl BlkPrevInfo {
    /// Stores the previous blocks: one block in the data itself, two blocks as two child
    /// cells (appended to `refs`).
    pub fn write_to(&self, out: &mut Vec<u8>, refs: &mut Vec<ChildCell<ExtBlkRef>>)
        ensures
            match *self {
                BlkPrevInfo::Block { prev } => final(out)@ == old(out)@ + ext_blk_ref_bytes(prev) && final(refs)@ == old(
                    refs,
                )@,
                BlkPrevInfo::Blocks { prev1, prev2 } => final(out)@ == old(out)@ && final(refs)@ == old(refs)@.push(
                    prev1,
                ).push(prev2),
            },
    {
        match self {
            BlkPrevInfo::Block { prev } => {
                prev.write_to(out);
            },
            BlkPrevInfo::Blocks { prev1, prev2 } => {
                refs.push(*prev1);
                refs.push(*prev2);
            },
        }
    }

    /// Reads previous blocks of the shape that `self` already has: one block from the data at
    /// `*pos`, or two child cells from `refs` at `*ref_pos`; moves the position past what it
    /// read. Fails, changing nothing, when not enough is left.
    pub fn read_from(
        &mut self,
        data: &[u8],
        pos: &mut usize,
        refs: &[ChildCell<ExtBlkRef>],
        ref_pos: &mut usize,
    ) -> (r: Result<(), BlockError>)
        ensures
            match *old(self) {
                BlkPrevInfo::Block { .. } => {
                    &&& r is Ok <==> *old(pos) + 76 <= data@.len()
                    &&& r is Ok ==> (*final(self) matches BlkPrevInfo::Block { prev } && ext_blk_ref_at(
                        data@,
                        *old(pos) as int,
                        prev,
                    )) && *final(pos) == *old(pos) + 76 && *final(ref_pos) == *old(ref_pos)
                },
                BlkPrevInfo::Blocks { .. } => {
                    &&& r is Ok <==> *old(ref_pos) + 2 <= refs@.len()
                    &&& r is Ok ==> *final(self) == (BlkPrevInfo::Blocks {
                        prev1: refs@[*old(ref_pos) as int],
                        prev2: refs@[*old(ref_pos) + 1],
                    }) && *final(ref_pos) == *old(ref_pos) + 2 && *final(pos) == *old(pos)
                },
            },
            r is Err ==> *final(self) == *old(self) && *final(pos) == *old(pos) && *final(ref_pos) == *old(ref_pos),
    {
        match self {
            BlkPrevInfo::Block { prev } => {
                let mut p = *prev;
                p.read_from(data, pos)?;
                *self = BlkPrevInfo::Block { prev: p };
                Ok(())
            },
            BlkPrevInfo::Blocks { .. } => {
                let q = *ref_pos;
                if refs.len() < 2 || q > refs.len() - 2 {
                    return Err(BlockError::InvalidData(message("no reference to a previous block")));
                }
                *self = BlkPrevInfo::Blocks { prev1: refs[q], prev2: refs[q + 1] };
                *ref_pos = q + 2;
                Ok(())
            },
        }
    }
}

/// The shard stored at `p` in `data` (its prefix length, its workchain, its prefix without the
/// tag: 13 bytes), or `None` when fewer bytes are left or they do not make a shard.
pub open spec fn parse_shard(data: Seq<u8>, p: int) -> Option<ShardIdent> {
    if p < 0 || p + 13 > data.len() {
        None
    } else {
        let b = data[p];
        let len = b & 0x3f;
        let wc = be32_at(data, p + 1) as i32;
        if b & 0xc0 != 0 || len > 60 || wc == INVALID_WORKCHAIN_ID {
            None
        } else {
            Some(shard_of(wc, tagged_prefix(be64_at(data, p + 5), len as nat)))
        }
    }
}

/// A shard with a prefix of at most 60 bits in a valid workchain.
pub open spec fn storable_shard(s: ShardIdent) -> bool {
    s@.1 != 0 && prefix_len_of(s@.1) <= 60 && s@.0 != INVALID_WORKCHAIN_ID
}

impl ShardIdent {
    /// Appends the stored form of the shard.
    pub fn write_to(&self, out: &mut Vec<u8>)
        ensures
            final(out)@ == old(out)@ + shard_bytes(*self),
    {
        out.push(self.prefix_len());
        push_u32(out, self.workchain_id() as u32);
        push_u64(out, self.shard_prefix_without_tag());
        assert(out@ =~= old(out)@ + shard_bytes(*self));
    }

    /// Reads a shard stored at `*pos` and moves `*pos` past it. Fails, changing nothing, when
    /// fewer than 13 bytes are left or they do not make a shard.
    pub fn read_from(&mut self, data: &[u8], pos: &mut usize) -> (r: Result<(), BlockError>)
        ensures
            r is Ok <==> parse_shard(data@, *old(pos) as int) is Some,
            r is Ok ==> parse_shard(data@, *old(pos) as int) == Some(*final(self)) && *final(pos) == *old(pos) + 13,
            r is Err ==> *final(self) == *old(self) && *final(pos) == *old(pos),
    {
        let p = *pos;
        if data.len() < 13 || p > data.len() - 13 {
            return Err(BlockError::InvalidData(message("cell underflow")));
        }
        let b = data[p];
        if b & 0xc0 != 0 {
            return Err(BlockError::InvalidData(message("2 high bits in ShardIdent's first byte have to be zero")));
        }
        let wc = get_u32(data, p + 1) as i32;
        let pfx = get_u64(data, p + 5);
        let shard = ShardIdent::with_prefix_len(b & 0x3f, wc, pfx)?;
        proof {
            lemma_tagged_unique(shard@.1, pfx, (b & 0x3f) as nat);
            lemma_shard_of(shard, wc, shard@.1);
        }
        *self = shard;
        *pos = p + 13;
        Ok(())
    }
}

/// A stored shard reads back as itself, when its prefix has at most 60 bits and its
/// workchain is valid.
pub proof fn law_shard_roundtrip(s: ShardIdent, pre: Seq<u8>, post: Seq<u8>)
    requires
        storable_shard(s),
    ensures
        parse_shard(pre + shard_bytes(s) + post, pre.len() as int) == Some(s),
{
    let p = s@.1;
    let wc = s@.0;
    let n = pre.len() as int;
    let d = pre + shard_bytes(s) + post;
    let pfx = (p - lowest_bit(p)) as u64;
    assert(d[n] == prefix_len_of(p) as u8);
    lemma_be_roundtrip(pre + seq![prefix_len_of(p) as u8], be64(pfx) + post, 0, wc as u32, 0);
    assert(d =~= (pre + seq![prefix_len_of(p) as u8]) + be32(wc as u32) + (be64(pfx) + post));
    lemma_be_roundtrip(pre + seq![prefix_len_of(p) as u8] + be32(wc as u32), post, 0, 0, pfx);
    assert(d =~= (pre + seq![prefix_len_of(p) as u8] + be32(wc as u32)) + be64(pfx) + post);
    lemma_retag(p);
    lemma_shard_of(s, wc, p);
    let len = prefix_len_of(p) as u8;
    assert(len & 0xc0 == 0 && len & 0x3f == len && (wc as u32) as i32 == wc) by (bit_vector)
        requires
            len <= 60,
    ;
    assert(be32_at(d, n + 1) == wc as u32);
    assert(be64_at(d, n + 5) == pfx);
}

/// A block identifier as stored: its shard, sequence number, root hash and file hash (81 bytes).
pub open spec fn block_id_bytes(id: BlockIdExt) -> Seq<u8> {
    shard_bytes(id.shard_id) + be32(id.seq_no) + id.root_hash@ + id.file_hash@
}

/// `id` is the block identifier stored at `p` in `data`.
pub open spec fn block_id_at(data: Seq<u8>, p: int, id: BlockIdExt) -> bool {
    &&& 0 <= p && p + 81 <= data.len()
    &&& parse_shard(data, p) == Some(id.shard_id)
    &&& id.seq_no == be32_at(data, p + 13)
    &&& id.root_hash@ == data.subrange(p + 17, p + 49)
    &&& id.file_hash@ == data.subrange(p + 49, p + 81)
}

impl BlockIdExt {
    /// Appends the stored form of the identifier.
    pub fn write_to(&self, out: &mut Vec<u8>)
        ensures
            final(out)@ == old(out)@ + block_id_bytes(*self),
    {
        self.shard_id.write_to(out);
        push_u32(out, self.seq_no);
        push_bytes32(out, self.root_hash.as_array());
        push_bytes32(out, self.file_hash.as_array());
        assert(out@ =~= old(out)@ + block_id_bytes(*self));
    }

    /// Reads an identifier stored at `*pos` and moves `*pos` past it. Fails, changing nothing,
    /// when fewer than 81 bytes are left or they do not start with a shard.
    pub fn read_from(&mut self, data: &[u8], pos: &mut usize) -> (r: Result<(), BlockError>)
        ensures
            r is Ok <==> *old(pos) + 81 <= data@.len() && parse_shard(data@, *old(pos) as int) is Some,
            r is Ok ==> block_id_at(data@, *old(pos) as int, *final(self)) && *final(pos) == *old(pos) + 81,
            r is Err ==> *final(self) == *old(self) && *final(pos) == *old(pos),
    {
        let p = *pos;
        if data.len() < 81 || p > data.len() - 81 {
            return Err(BlockError::InvalidData(message("cell underflow")));
        }
        let mut shard = self.shard_id;
        let mut at = p;
        shard.read_from(data, &mut at)?;
        self.shard_id = shard;
        self.seq_no = get_u32(data, p + 13);
        self.root_hash = UInt256::with_array(get_bytes32(data, p + 17));
        self.file_hash = UInt256::with_array(get_bytes32(data, p + 49));
        *pos = p + 81;
        Ok(())
    }
}

/// A stored block identifier reads back as itself, and as nothing else, when its shard can be
/// stored.
#[verifier::spinoff_prover]
#[verifier::rlimit(30)]
pub proof fn law_block_id_roundtrip(id: BlockIdExt, x: BlockIdExt, pre: Seq<u8>, post: Seq<u8>)
    requires
        storable_shard(id.shard_id),
    ensures
        block_id_at(pre + block_id_bytes(id) + post, pre.len() as int, x) <==> x == id,
{
    let n = pre.len() as int;
    let d = pre + block_id_bytes(id) + post;
    let sb = shard_bytes(id.shard_id);
    id.root_hash.lemma_bytes(x.root_hash);
    id.file_hash.lemma_bytes(x.file_hash);
    law_shard_roundtrip(id.shard_id, pre, be32(id.seq_no) + id.root_hash@ + id.file_hash@ + post);
    assert(d =~= pre + sb + (be32(id.seq_no) + id.root_hash@ + id.file_hash@ + post));
    lemma_be_roundtrip(pre + sb, id.root_hash@ + id.file_hash@ + post, 0, id.seq_no, 0);
    assert(d =~= (pre + sb) + be32(id.seq_no) + (id.root_hash@ + id.file_hash@ + post));
    assert(sb.len() == 13);
    assert(d.subrange(n + 17, n + 49) =~= id.root_hash@);
    assert(d.subrange(n + 49, n + 81) =~= id.file_hash@);
}

/// The description of a shard's top block, as the masterchain collator receives it: the
/// block, the signatures on it, and the chain of proofs (cells of type `C`) that lead to it.
#[derive(Debug)]
pub struct TopBlockDescr<C> {
    proof_for: BlockIdExt,
    signatures: Option<BlockSignatures>,
    chain: Vec<C>,
}

impl<C> Default for TopBlockDescr<C> {
    fn default() -> (r: Self)
        ensures
            r.spec_proof_for().shard_id@ == (0i32, SHARD_FULL),
            r.spec_proof_for().seq_no == 0,
            r.spec_proof_for().root_hash@ == Seq::new(32, |i: int| 0u8),
            r.spec_proof_for().file_hash@ == Seq::new(32, |i: int| 0u8),
            r.spec_signatures() is None,
            r.spec_chain() == Seq::<C>::empty(),
    {
        let proof_for = BlockIdExt::with_params(ShardIdent::default(), 0, UInt256::new(), UInt256::new());
        TopBlockDescr { proof_for, signatures: None, chain: Vec::new() }
    }
}

impl<C> TopBlockDescr<C> {
    /// The block described.
    pub closed spec fn spec_proof_for(&self) -> BlockIdExt {
        self.proof_for
    }

    /// The signatures on it, if any.
    pub closed spec fn spec_signatures(&self) -> Option<BlockSignatures> {
        self.signatures
    }

    /// The proofs, in order.
    pub closed spec fn spec_chain(&self) -> Seq<C> {
        self.chain@
    }

    /// The description of `proof_for`, signed by `signatures`, with no proof yet.
    pub fn with_id_and_signatures(proof_for: BlockIdExt, signatures: BlockSignatures) -> (r: Self)
        ensures
            r.spec_proof_for() == proof_for,
            r.spec_signatures() == Some(signatures),
            r.spec_chain() == Seq::<C>::empty(),
    {
        TopBlockDescr { proof_for, signatures: Some(signatures), chain: Vec::new() }
    }

    /// Appends a proof to the chain.
    pub fn append_proof(&mut self, cell: C)
        ensures
            final(self).spec_proof_for() == old(self).spec_proof_for(),
            final(self).spec_signatures() == old(self).spec_signatures(),
            final(self).spec_chain() == old(self).spec_chain().push(cell),
    {
        self.chain.push(cell);
    }

    /// The block described.
    pub fn proof_for(&self) -> (r: &BlockIdExt)
        ensures
            *r == self.spec_proof_for(),
    {
        &self.proof_for
    }

    /// The signatures on it, if any.
    pub fn signatures(&self) -> (r: Option<&BlockSignatures>)
        ensures
            r is Some <==> self.spec_signatures() is Some,
            r matches Some(s) ==> self.spec_signatures() == Some(*s),
    {
        match &self.signatures {
            Some(s) => Some(s),
            None => None,
        }
    }

    /// The proofs, in order.
    pub fn chain(&self) -> (r: &Vec<C>)
        ensures
            r@ == self.spec_chain(),
    {
        &self.chain
    }
}

/// The descriptions of the shards' top blocks, by shard (its workchain and tagged prefix).
#[derive(Debug)]
pub struct TopBlockDescrSet<C> {
    collection: Vec<((i32, u64), TopBlockDescr<C>)>,
}

impl<C> Default for TopBlockDescrSet<C> {
    fn default() -> (r: Self)
        ensures
            r.entries() == Seq::<((i32, u64), TopBlockDescr<C>)>::empty(),
    {
        TopBlockDescrSet { collection: Vec::new() }
    }
}

impl<C> TopBlockDescrSet<C> {
    /// The descriptions with their shards, in the order they were first inserted.
    pub closed spec fn entries(&self) -> Seq<((i32, u64), TopBlockDescr<C>)> {
        self.collection@
    }

    /// The description of `shard`'s top block, if the set has one.
    pub fn get_top_block_descr(&self, shard: &ShardIdent) -> (r: Option<&TopBlockDescr<C>>)
        ensures
            r is Some <==> lookup(self.entries(), shard@) is Some,
            r matches Some(d) ==> lookup(self.entries(), shard@) == Some(*d),
    {
        let key = (shard.workchain_id(), shard.shard_prefix_with_tag());
        let n = self.collection.len();
        let mut i: usize = 0;
        while i < n
            invariant
                i <= n,
                n == self.collection@.len(),
                key == shard@,
                forall|j: int| 0 <= j < i ==> (#[trigger] self.collection@[j]).0 != key,
            decreases n - i,
        {
            let k = self.collection[i].0;
            if k.0 == key.0 && k.1 == key.1 {
                proof {
                    lemma_first_index(self.collection@, key);
                }
                return Some(&self.collection[i].1);
            }
            i = i + 1;
        }
        proof {
            lemma_first_index(self.collection@, key);
        }
        None
    }

    /// Sets the description of `shard`'s top block.
    pub fn insert(&mut self, shard: &ShardIdent, descr: TopBlockDescr<C>)
        ensures
            final(self).entries() == assign(old(self).entries(), shard@, descr),
    {
        let key = (shard.workchain_id(), shard.shard_prefix_with_tag());
        let n = self.collection.len();
        let mut i: usize = 0;
        while i < n
            invariant
                i <= n,
                n == self.collection@.len(),
                self.collection@ == old(self).collection@,
                key == shard@,
                forall|j: int| 0 <= j < i ==> (#[trigger] self.collection@[j]).0 != key,
            decreases n - i,
        {
            let k = self.collection[i].0;
            if k.0 == key.0 && k.1 == key.1 {
                proof {
                    lemma_first_index(self.collection@, key);
                }
                self.collection.set(i, (key, descr));
                return;
            }
            i = i + 1;
        }
        proof {
            lemma_first_index(self.collection@, key);
        }
        self.collection.push((key, descr));
    }

    /// After an insert, the shard's description reads back as the one inserted, and every
    /// other shard reads back what it had before.
    pub proof fn law_read_after_insert(
        before: Self,
        after: Self,
        shard: (i32, u64),
        descr: TopBlockDescr<C>,
        other: (i32, u64),
    )
        requires
            after.entries() == assign(before.entries(), shard, descr),
        ensures
            lookup(after.entries(), shard) == Some(descr),
            other != shard ==> lookup(after.entries(), other) == lookup(before.entries(), other),
    {
        lemma_assign_lookup(before.entries(), shard, descr, shard);
        lemma_assign_lookup(before.entries(), shard, descr, other);
    }

    /// True when the set has no description.
    pub fn is_empty(&self) -> (r: bool)
        ensures
            r == (self.entries().len() == 0),
    {
        self.collection.len() == 0
    }

    /// The descriptions with their shards.
    pub fn collection(&self) -> (r: &Vec<((i32, u64), TopBlockDescr<C>)>)
        ensures
            r@ == self.entries(),
    {
        &self.collection
    }
}

} // verus!
