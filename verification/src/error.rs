//! The errors that a query can end in.

use vstd::prelude::*;

verus! {

/// Why a query was rejected. No partial result ever accompanies an error.
#[derive(Debug, Clone, PartialEq, Eq)]
pub enum ErrorKind {
    /// The page size is zero, or above the limit of the endpoint.
    PageSizeErr,
    /// The page index is at or beyond the number of pages while items exist.
    PageIndexErr,
    /// The requested depth is outside `1..=10`.
    QuotationsPieceErr,
    /// No trading pair is stored under the given index.
    TradingPairIndexErr,
    /// A stored value is present but its bytes do not have the expected shape.
    DecodeErr,
    /// Call parameters do not start with `0x`.
    BinanryStartErr,
    /// Call parameters are not hexadecimal.
    HexDecodeErr,
    /// The chain that was asked about has no addresses bound to accounts.
    UnsupportedChainErr,
    /// A legacy view can no longer be served; the payload names the endpoint.
    DeprecatedV0Err(String),
    /// A failure reported by the runtime, with its diagnostic bytes.
    RuntimeErr(Vec<u8>),
}

} // verus!
