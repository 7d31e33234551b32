use vstd::prelude::*;

use crate::assoc::{assign, first_index, lemma_first_index};
use crate::error::{message, BlockError};
use crate::types::UInt256;

verus! {

/// The decoding error of the `hex` crate.
#[verifier::external_type_specification]
#[verifier::external_body]
pub struct ExFromHexError(hex::FromHexError);

/// Whether `c` is a hexadecimal digit (`0-9`, `a-f`, `A-F`).
pub open spec fn is_hex_digit(c: char) -> bool {
    ('0' <= c && c <= '9') || ('a' <= c && c <= 'f') || ('A' <= c && c <= 'F')
}

/// The value of a hexadecimal digit.
pub open spec fn hex_value(c: char) -> int {
    if '0' <= c && c <= '9' {
        c as int - '0' as int
    } else if 'a' <= c && c <= 'f' {
        c as int - 'a' as int + 10
    } else {
        c as int - 'A' as int + 10
    }
}

/// `s` is made of hexadecimal digits, two for each byte of `bytes`, high digit first.
pub open spec fn hex_encodes(s: Seq<char>, bytes: Seq<u8>) -> bool {
    &&& s.len() == 2 * bytes.len()
    &&& forall|i: int| 0 <= i < s.len() ==> is_hex_digit(#[trigger] s[i])
    &&& forall|i: int| 0 <= i < bytes.len() ==> #[trigger] bytes[i] == hex_value(s[2 * i]) * 16 + hex_value(s[2 * i + 1])
}

/// `hex::decode_to_slice` into the whole of `out`: succeeds exactly when `data` is made of
/// hexadecimal digits, two for each byte of `out`, and then `out` holds the decoded bytes.
/// The length of `out` is kept; what it holds after a failure is not stated (the crate may
/// have written some bytes before it met a bad digit).
#[verifier::external_body]
fn decode_hex_into(data: &str, out: &mut Vec<u8>) -> (r: Result<(), hex::FromHexError>)
    ensures
        final(out)@.len() == old(out)@.len(),
        r is Ok <==> (data@.len() == 2 * old(out)@.len() && forall|i: int| 0 <= i < data@.len() ==> is_hex_digit(#[trigger] data@[i])),
        r is Ok ==> hex_encodes(data@, final(out)@),
{
    hex::decode_to_slice(data, out.as_mut_slice())
}

/// The text of a hex decoding error: `Display` of `hex::FromHexError`, through `format!`. The
/// wording is the `hex` crate's own and is not stated here.
#[verifier::external_body]
fn hex_error_text(err: hex::FromHexError) -> String {
    format!("{}", err)
}

/// The message for a part `what` of a signature that is not hexadecimal: the part named,
/// then the text of the hex error.
fn hex_part_error(what: &str, err: hex::FromHexError) -> (r: String)
    ensures
        exists|d: Seq<char>| r@ == seq!['e', 'r', 'r', 'o', 'r', ' ', 'p', 'a', 'r', 's', 'i', 'n', 'g', ' ', '`'] + what@
            + seq!['`', ' ', 'h', 'e', 'x', ' ', 's', 't', 'r', 'i', 'n', 'g', ':', ' '] + d,
{
    let mut out = String::from_str("error parsing `");
    out.append(what);
    out.append("` hex string: ");
    let text = hex_error_text(err);
    let ghost before = out@;
    out.append(text.as_str());
    proof {
        reveal_strlit("error parsing `");
        reveal_strlit("` hex string: ");
        assert(out@ == before + text@);
        assert(before =~= seq!['e', 'r', 'r', 'o', 'r', ' ', 'p', 'a', 'r', 's', 'i', 'n', 'g', ' ', '`'] + what@
            + seq!['`', ' ', 'h', 'e', 'x', ' ', 's', 't', 'r', 'i', 'n', 'g', ':', ' ']);
    }
    out
}

/// Decodes `n` bytes from hexadecimal digits.
fn decode_hex_bytes(data: &str, n: usize) -> (r: Result<Vec<u8>, hex::FromHexError>)
    ensures
        r is Ok <==> (data@.len() == 2 * n && forall|i: int| 0 <= i < data@.len() ==> is_hex_digit(#[trigger] data@[i])),
        r is Ok ==> r->Ok_0@.len() == n && hex_encodes(data@, r->Ok_0@),
{
    let mut out: Vec<u8> = Vec::new();
    let mut i: usize = 0;
    while i < n
        invariant
            i <= n,
            out@.len() == i,
        decreases n - i,
    {
        out.push(0);
        i = i + 1;
    }
    match decode_hex_into(data, &mut out) {
        Ok(()) => Ok(out),
        Err(e) => Err(e),
    }
}

/// Copies `src[from..from + n]` into `dst[at..at + n]`.
fn copy_into(dst: &mut [u8; 64], at: usize, src: &[u8], from: usize, n: usize)
    requires
        at + n <= 64,
        from + n <= src@.len(),
        from + n <= usize::MAX,
    ensures
        forall|k: int| 0 <= k < 64 && !(at <= k < at + n) ==> final(dst)@[k] == old(dst)@[k],
        forall|k: int| at <= k < at + n ==> final(dst)@[k] == src@[from + k - at],
{
    let mut k: usize = 0;
    while k < n
        invariant
            k <= n,
            at + n <= 64,
            from + n <= src@.len(),
            from + n <= usize::MAX,
            forall|j: int| 0 <= j < 64 && !(at <= j < at + k) ==> dst@[j] == old(dst)@[j],
            forall|j: int| at <= j < at + k ==> dst@[j] == src@[from + j - at],
        decreases n - k,
    {
        dst[at + k] = src[from + k];
        k = k + 1;
    }
}

/// An Ed25519 signature: the 32 bytes of `R` then the 32 bytes of `s`
/// (`ed25519_signature#5 R:bits256 s:bits256 = CryptoSignature`).
#[derive(Clone, Copy, Debug, PartialEq, Eq)]
pub struct CryptoSignature([u8; 64]);

impl View for CryptoSignature {
    type V = Seq<u8>;

    /// The 64 bytes.
    closed spec fn view(&self) -> Seq<u8> {
        self.0@
    }
}

impl Default for CryptoSignature {
    fn default() -> (r: Self)
        ensures
            r@ == Seq::new(64, |i: int| 0u8),
    {
        let r = CryptoSignature([0u8; 64]);
        assert(r@ =~= Seq::new(64, |i: int| 0u8));
        r
    }
}

impl CryptoSignature {
    /// The signature of the given bytes.
    pub fn with_bytes(bytes: [u8; 64]) -> (r: Self)
        ensures
            r@ == bytes@,
    {
        CryptoSignature(bytes)
    }

    /// The signature of the given bytes; refused unless there are 64.
    pub fn from_bytes(bytes: &[u8]) -> (r: Result<Self, BlockError>)
        ensures
            r is Ok <==> bytes@.len() == 64,
            r is Ok ==> r->Ok_0@ == bytes@,
    {
        if bytes.len() != 64 {
            return Err(BlockError::InvalidArg(message("a signature has 64 bytes")));
        }
        let mut a = [0u8; 64];
        copy_into(&mut a, 0, bytes, 0, 64);
        assert(a@ =~= bytes@);
        Ok(CryptoSignature(a))
    }

    /// The signature of `r` followed by `s`; refused unless each has 32 bytes.
    pub fn from_r_s(r: &[u8], s: &[u8]) -> (res: Result<Self, BlockError>)
        ensures
            res is Ok <==> (r@.len() == 32 && s@.len() == 32),
            res is Ok ==> res->Ok_0@ == r@ + s@,
            res is Err ==> res->Err_0 is InvalidArg,
    {
        if r.len() != 32 {
            return Err(BlockError::InvalidArg(message("`r` has invalid size")));
        }
        if s.len() != 32 {
            return Err(BlockError::InvalidArg(message("`s` has invalid size")));
        }
        let mut a = [0u8; 64];
        copy_into(&mut a, 0, r, 0, 32);
        copy_into(&mut a, 32, s, 0, 32);
        assert(a@ =~= r@ + s@);
        Ok(CryptoSignature(a))
    }

    /// The signature of `R` and `s` given as 64 hexadecimal digits each; fails with
    /// `InvalidData` when one is not.
    pub fn from_r_s_str(r: &str, s: &str) -> (res: Result<Self, BlockError>)
        ensures
            res is Ok <==> ((exists|b: Seq<u8>| hex_encodes(r@, b) && b.len() == 32)
                && (exists|b: Seq<u8>| hex_encodes(s@, b) && b.len() == 32)),
            res is Ok ==> hex_encodes(r@, res->Ok_0@.subrange(0, 32)) && hex_encodes(s@, res->Ok_0@.subrange(32, 64)),
            res is Err ==> res->Err_0 is InvalidData,
            !(exists|b: Seq<u8>| hex_encodes(r@, b) && b.len() == 32) ==> (res matches Err(BlockError::InvalidData(m))
                && exists|d: Seq<char>| m@ == seq!['e', 'r', 'r', 'o', 'r', ' ', 'p', 'a', 'r', 's', 'i', 'n', 'g', ' ', '`'] + seq!['r'] + seq!['`', ' ', 'h', 'e', 'x', ' ', 's', 't', 'r', 'i', 'n', 'g', ':', ' '] + d),
            (exists|b: Seq<u8>| hex_encodes(r@, b) && b.len() == 32) && !(exists|b: Seq<u8>| hex_encodes(s@, b) && b.len()
                == 32) ==> (res matches Err(BlockError::InvalidData(m)) && exists|d: Seq<char>| m@ == seq!['e', 'r', 'r', 'o', 'r', ' ', 'p', 'a', 'r', 's', 'i', 'n', 'g', ' ', '`'] + seq!['s']
                + seq!['`', ' ', 'h', 'e', 'x', ' ', 's', 't', 'r', 'i', 'n', 'g', ':', ' '] + d),
    {
        let rb = match decode_hex_bytes(r, 32) {
            Ok(b) => b,
            Err(e) => {
                proof {
                    if exists|b: Seq<u8>| hex_encodes(r@, b) && b.len() == 32 {
                        let b = choose|b: Seq<u8>| hex_encodes(r@, b) && b.len() == 32;
                        assert(r@.len() == 64);
                    }
                }
                let what = "r";
                let m = hex_part_error(what, e);
                proof {
                    reveal_strlit("r");
                    assert(what@ =~= seq!['r']);
                    let d = choose|d: Seq<char>| m@ == seq!['e', 'r', 'r', 'o', 'r', ' ', 'p', 'a', 'r', 's', 'i', 'n', 'g', ' ', '`'] + what@ + seq!['`', ' ', 'h', 'e', 'x', ' ', 's', 't', 'r', 'i', 'n', 'g', ':', ' '] + d;
                    assert(m@ == seq!['e', 'r', 'r', 'o', 'r', ' ', 'p', 'a', 'r', 's', 'i', 'n', 'g', ' ', '`'] + seq!['r'] + seq!['`', ' ', 'h', 'e', 'x', ' ', 's', 't', 'r', 'i', 'n', 'g', ':', ' '] + d);
                }
                return Err(BlockError::InvalidData(m));
            },
        };
        let sb = match decode_hex_bytes(s, 32) {
            Ok(b) => b,
            Err(e) => {
                proof {
                    if exists|b: Seq<u8>| hex_encodes(s@, b) && b.len() == 32 {
                        let b = choose|b: Seq<u8>| hex_encodes(s@, b) && b.len() == 32;
                        assert(s@.len() == 64);
                    }
                }
                let what = "s";
                let m = hex_part_error(what, e);
                proof {
                    reveal_strlit("s");
                    assert(what@ =~= seq!['s']);
                    let d = choose|d: Seq<char>| m@ == seq!['e', 'r', 'r', 'o', 'r', ' ', 'p', 'a', 'r', 's', 'i', 'n', 'g', ' ', '`'] + what@ + seq!['`', ' ', 'h', 'e', 'x', ' ', 's', 't', 'r', 'i', 'n', 'g', ':', ' '] + d;
                    assert(m@ == seq!['e', 'r', 'r', 'o', 'r', ' ', 'p', 'a', 'r', 's', 'i', 'n', 'g', ' ', '`'] + seq!['s'] + seq!['`', ' ', 'h', 'e', 'x', ' ', 's', 't', 'r', 'i', 'n', 'g', ':', ' '] + d);
                }
                return Err(BlockError::InvalidData(m));
            },
        };
        let mut a = [0u8; 64];
        copy_into(&mut a, 0, rb.as_slice(), 0, 32);
        copy_into(&mut a, 32, sb.as_slice(), 0, 32);
        assert(a@.subrange(0, 32) =~= rb@);
        assert(a@.subrange(32, 64) =~= sb@);
        Ok(CryptoSignature(a))
    }

    /// The signature of `r` followed by `s`.
    pub fn with_r_s(r: &[u8; 32], s: &[u8; 32]) -> (res: Self)
        ensures
            res@ == r@ + s@,
    {
        let mut a = [0u8; 64];
        copy_into(&mut a, 0, r.as_slice(), 0, 32);
        copy_into(&mut a, 32, s.as_slice(), 0, 32);
        assert(a@ =~= r@ + s@);
        CryptoSignature(a)
    }

    /// The bytes of `R` and of `s`.
    pub fn as_r_s_bytes(&self) -> (res: (&[u8], &[u8]))
        ensures
            res.0@ == self@.subrange(0, 32),
            res.1@ == self@.subrange(32, 64),
    {
        self.0.as_slice().split_at(32)
    }

    /// The bytes of `R` and of `s`.
    pub fn to_r_s_bytes(&self) -> (res: (&[u8], &[u8]))
        ensures
            res.0@ == self@.subrange(0, 32),
            res.1@ == self@.subrange(32, 64),
    {
        self.as_r_s_bytes()
    }

    /// The 64 bytes.
    pub fn as_bytes(&self) -> (res: &[u8; 64])
        ensures
            res@ == self@,
    {
        &self.0
    }

    /// The 64 bytes.
    pub fn to_bytes(&self) -> (res: [u8; 64])
        ensures
            res@ == self@,
    {
        self.0
    }

    /// The signature given as 128 hexadecimal digits.
    pub fn from_hex(s: &str) -> (res: Result<Self, BlockError>)
        ensures
            res is Ok <==> exists|b: Seq<u8>| hex_encodes(s@, b) && b.len() == 64,
            res is Ok ==> hex_encodes(s@, res->Ok_0@),
            res is Err ==> res->Err_0 is Other,
    {
        match decode_hex_bytes(s, 64) {
            Ok(b) => {
                let mut a = [0u8; 64];
                copy_into(&mut a, 0, b.as_slice(), 0, 64);
                assert(a@ =~= b@);
                Ok(CryptoSignature(a))
            },
            Err(e) => {
                proof {
                    if exists|b: Seq<u8>| hex_encodes(s@, b) && b.len() == 64 {
                        let b = choose|b: Seq<u8>| hex_encodes(s@, b) && b.len() == 64;
                        assert(s@.len() == 128);
                    }
                }
                Err(BlockError::Other(hex_error_text(e)))
            },
        }
    }
}

impl core::str::FromStr for CryptoSignature {
    type Err = BlockError;

    fn from_str(s: &str) -> (res: Result<Self, BlockError>)
        ensures
            res is Ok <==> exists|b: Seq<u8>| hex_encodes(s@, b) && b.len() == 64,
            res is Ok ==> hex_encodes(s@, res->Ok_0@),
            res is Err ==> res->Err_0 is Other,
    {
        CryptoSignature::from_hex(s)
    }
}

/// A validator's short node id and its signature
/// (`sig_pair$_ node_id_short:bits256 sign:CryptoSignature = CryptoSignaturePair`).
#[derive(Clone, Copy, Debug, PartialEq, Eq)]
pub struct CryptoSignaturePair {
    pub node_id_short: UInt256,
    pub sign: CryptoSignature,
}

impl CryptoSignaturePair {
    /// Zero node id and signature.
    pub fn new() -> (r: Self)
        ensures
            r.node_id_short@ == Seq::new(32, |i: int| 0u8),
            r.sign@ == Seq::new(64, |i: int| 0u8),
    {
        CryptoSignaturePair { node_id_short: UInt256::new(), sign: CryptoSignature::default() }
    }

    /// The given node id and signature.
    pub fn with_params(node_id_short: UInt256, sign: CryptoSignature) -> (r: Self)
        ensures
            r == (CryptoSignaturePair { node_id_short, sign }),
    {
        CryptoSignaturePair { node_id_short, sign }
    }
}

/// An Ed25519 public key (`ed25519_pubkey#8e81278a pubkey:bits256 = SigPubKey`).
#[derive(Clone, Copy, Debug, PartialEq, Eq)]
pub struct SigPubKey([u8; 32]);

impl View for SigPubKey {
    type V = Seq<u8>;

    /// The 32 bytes.
    closed spec fn view(&self) -> Seq<u8> {
        self.0@
    }
}

impl Default for SigPubKey {
    fn default() -> (r: Self)
        ensures
            r@ == Seq::new(32, |i: int| 0u8),
    {
        let r = SigPubKey([0u8; 32]);
        assert(r@ =~= Seq::new(32, |i: int| 0u8));
        r
    }
}

impl SigPubKey {
    /// The key of the given bytes.
    pub fn with_bytes(bytes: [u8; 32]) -> (r: Self)
        ensures
            r@ == bytes@,
    {
        SigPubKey(bytes)
    }

    /// The key of the given bytes; refused unless there are 32.
    pub fn from_bytes(bytes: &[u8]) -> (r: Result<Self, BlockError>)
        ensures
            r is Ok <==> bytes@.len() == 32,
            r is Ok ==> r->Ok_0@ == bytes@,
    {
        if bytes.len() != 32 {
            return Err(BlockError::InvalidArg(message("a public key has 32 bytes")));
        }
        let mut a = [0u8; 32];
        let mut k: usize = 0;
        while k < 32
            invariant
                k <= 32,
                bytes@.len() == 32,
                forall|j: int| 0 <= j < k ==> a@[j] == bytes@[j],
            decreases 32 - k,
        {
            a[k] = bytes[k];
            k = k + 1;
        }
        assert(a@ =~= bytes@);
        Ok(SigPubKey(a))
    }

    /// The 32 bytes of the key.
    pub fn key_bytes(&self) -> (r: &[u8; 32])
        ensures
            r@ == self@,
    {
        &self.0
    }

    /// The 32 bytes of the key.
    pub fn as_bytes(&self) -> (r: &[u8; 32])
        ensures
            r@ == self@,
    {
        &self.0
    }

    /// The 32 bytes of the key.
    pub fn as_slice(&self) -> (r: &[u8; 32])
        ensures
            r@ == self@,
    {
        &self.0
    }

    /// Whether the key has the bytes of `other`.
    pub fn equals_uint256(&self, other: &UInt256) -> (r: bool)
        ensures
            r == (self@ == other@),
    {
        UInt256::with_array(self.0).equals(other)
    }

    /// The key given as 64 hexadecimal digits.
    pub fn from_hex(s: &str) -> (res: Result<Self, BlockError>)
        ensures
            res is Ok <==> exists|b: Seq<u8>| hex_encodes(s@, b) && b.len() == 32,
            res is Ok ==> hex_encodes(s@, res->Ok_0@),
            res is Err ==> res->Err_0 is Other,
    {
        match decode_hex_bytes(s, 32) {
            Ok(b) => {
                let mut a = [0u8; 32];
                let mut k: usize = 0;
                while k < 32
                    invariant
                        k <= 32,
                        b@.len() == 32,
                        forall|j: int| 0 <= j < k ==> a@[j] == b@[j],
                    decreases 32 - k,
                {
                    a[k] = b[k];
                    k = k + 1;
                }
                assert(a@ =~= b@);
                Ok(SigPubKey(a))
            },
            Err(e) => {
                proof {
                    if exists|b: Seq<u8>| hex_encodes(s@, b) && b.len() == 32 {
                        let b = choose|b: Seq<u8>| hex_encodes(s@, b) && b.len() == 32;
                        assert(s@.len() == 64);
                    }
                }
                Err(BlockError::Other(hex_error_text(e)))
            },
        }
    }
}

impl core::str::FromStr for SigPubKey {
    type Err = BlockError;

    fn from_str(s: &str) -> (res: Result<Self, BlockError>)
        ensures
            res is Ok <==> exists|b: Seq<u8>| hex_encodes(s@, b) && b.len() == 32,
            res is Ok ==> hex_encodes(s@, res->Ok_0@),
            res is Err ==> res->Err_0 is Other,
    {
        SigPubKey::from_hex(s)
    }
}

/// Signatures of a block: their count, their total weight, and the signatures by index
/// (`block_signatures_pure#_ sig_count:uint32 sig_weight:uint64
/// signatures:(HashmapE 16 CryptoSignaturePair)`).
#[derive(Clone, Debug, Default)]
pub struct BlockSignaturesPure {
    sig_count: u32,
    sig_weight: u64,
    signatures: Vec<(u16, CryptoSignaturePair)>,
}

impl BlockSignaturesPure {
    /// The count.
    pub closed spec fn spec_count(&self) -> u32 {
        self.sig_count
    }

    /// The weight.
    pub closed spec fn spec_weight(&self) -> u64 {
        self.sig_weight
    }

    /// The signatures by index.
    pub closed spec fn spec_signatures(&self) -> Seq<(u16, CryptoSignaturePair)> {
        self.signatures@
    }

    /// No signature, weight zero.
    pub fn new() -> (r: Self)
        ensures
            r.spec_count() == 0,
            r.spec_weight() == 0,
            r.spec_signatures() == Seq::<(u16, CryptoSignaturePair)>::empty(),
    {
        BlockSignaturesPure { sig_count: 0, sig_weight: 0, signatures: Vec::new() }
    }

    /// No signature, the given weight.
    pub fn with_weight(sig_weight: u64) -> (r: Self)
        ensures
            r.spec_count() == 0,
            r.spec_weight() == sig_weight,
            r.spec_signatures() == Seq::<(u16, CryptoSignaturePair)>::empty(),
    {
        BlockSignaturesPure { sig_count: 0, sig_weight, signatures: Vec::new() }
    }

    /// Number of signatures added.
    pub fn count(&self) -> (r: u32)
        ensures
            r == self.spec_count(),
    {
        self.sig_count
    }

    /// Total weight.
    pub fn weight(&self) -> (r: u64)
        ensures
            r == self.spec_weight(),
    {
        self.sig_weight
    }

    /// Sets the total weight.
    pub fn set_weight(&mut self, weight: u64)
        ensures
            final(self).spec_weight() == weight,
            final(self).spec_count() == old(self).spec_count(),
            final(self).spec_signatures() == old(self).spec_signatures(),
    {
        self.sig_weight = weight;
    }

    /// Adds a signature under the index of the current count (its low 16 bits), and counts it.
    pub fn add_sigpair(&mut self, signature: CryptoSignaturePair)
        requires
            old(self).spec_count() < u32::MAX,
        ensures
            final(self).spec_count() == old(self).spec_count() + 1,
            final(self).spec_weight() == old(self).spec_weight(),
            final(self).spec_signatures() == assign(old(self).spec_signatures(), old(self).spec_count() as u16, signature),
    {
        let key = self.sig_count as u16;
        proof {
            lemma_first_index(self.signatures@, key);
        }
        let i = self.position(key);
        if i < self.signatures.len() {
            self.signatures.set(i, (key, signature));
        } else {
            self.signatures.push((key, signature));
        }
        self.sig_count = self.sig_count + 1;
    }

    /// Position of the first signature under `key`, or the number of signatures.
    fn position(&self, key: u16) -> (r: usize)
        ensures
            r == first_index(self.signatures@, key),
    {
        proof {
            lemma_first_index(self.signatures@, key);
        }
        let mut i: usize = 0;
        while i < self.signatures.len()
            invariant
                i <= self.signatures@.len(),
                i <= first_index(self.signatures@, key),
                0 <= first_index(self.signatures@, key) <= self.signatures@.len(),
                forall|j: int| 0 <= j < first_index(self.signatures@, key) ==> self.signatures@[j].0 != key,
                first_index(self.signatures@, key) < self.signatures@.len() ==> self.signatures@[first_index(self.signatures@, key)].0 == key,
            decreases self.signatures@.len() - i,
        {
            if self.signatures[i].0 == key {
                return i;
            }
            i = i + 1;
        }
        i
    }

    /// The signatures by index.
    pub fn signatures(&self) -> (r: &Vec<(u16, CryptoSignaturePair)>)
        ensures
            r@ == self.spec_signatures(),
    {
        &self.signatures
    }
}

/// Validator set that signed: short hash of its list and catchain sequence number.
#[derive(Clone, Copy, Debug, Default, PartialEq, Eq)]
pub struct ValidatorBaseInfo {
    pub validator_list_hash_short: u32,
    pub catchain_seqno: u32,
}

/// Signatures of a block with the validator set that made them
/// (`block_signatures#11 validator_info:ValidatorBaseInfo pure_signatures:BlockSignaturesPure`).
#[derive(Clone, Debug, Default)]
pub struct BlockSignatures {
    pub validator_info: ValidatorBaseInfo,
    pub pure_signatures: BlockSignaturesPure,
}

impl BlockSignatures {
    /// No signature, zero validator set.
    pub fn new() -> (r: Self)
        ensures
            r.validator_info == (ValidatorBaseInfo { validator_list_hash_short: 0, catchain_seqno: 0 }),
            r.pure_signatures.spec_count() == 0,
            r.pure_signatures.spec_weight() == 0,
            r.pure_signatures.spec_signatures() == Seq::<(u16, CryptoSignaturePair)>::empty(),
    {
        BlockSignatures {
            validator_info: ValidatorBaseInfo { validator_list_hash_short: 0, catchain_seqno: 0 },
            pure_signatures: BlockSignaturesPure::new(),
        }
    }

    /// The given validator set and signatures.
    pub fn with_params(validator_info: ValidatorBaseInfo, pure_signatures: BlockSignaturesPure) -> (r: Self)
        ensures
            r.validator_info == validator_info,
            r.pure_signatures == pure_signatures,
    {
        BlockSignatures { validator_info, pure_signatures }
    }
}

} // verus!
