use vstd::prelude::*;

verus! {

/// Errors reported by the block structures of this crate.
#[derive(Debug, Clone, PartialEq, Eq)]
pub enum BlockError {
    /// Fatal error.
    FatalError(String),
    /// Invalid argument.
    InvalidArg(String),
    /// Invalid TL-B constructor tag.
    InvalidConstructorTag { t: u32, s: String },
    /// Invalid data.
    InvalidData(String),
    /// Invalid index.
    InvalidIndex(usize),
    /// Invalid operation.
    InvalidOperation(String),
    /// Item is not found.
    NotFound(String),
    /// Other error.
    Other(String),
    /// Attempting to read data from pruned branch cell.
    PrunedCellAccess(String),
    /// Wrong hash.
    WrongHash,
    /// Wrong merkle proof.
    WrongMerkleProof(String),
    /// Wrong merkle update.
    WrongMerkleUpdate(String),
    /// Bad signature.
    BadSignature,
    /// Unexpected struct variant.
    UnexpectedStructVariant(String, String),
    /// Unsupported serde options.
    UnsupportedSerdeOptions(String, usize),
    /// Mismatched serde options.
    MismatchedSerdeOptions(String, usize, usize),
}

/// Builds an owned message text from a string literal.
pub fn message(text: &str) -> (r: String)
    ensures
        r@ == text@,
{
    String::from_str(text)
}

} // verus!
