use vstd::prelude::*;

verus! {

/// Everything that can go wrong while a report is put together.
///
/// Only a failed account-state lookup is fatal to a whole aggregation;
/// every other failure degrades the report (no metadata section, or an
/// empty enrichment map).
#[derive(Debug, Clone, PartialEq, Eq)]
pub enum Error {
    /// The raw supply string is not the decimal rendering of a `u64`.
    InvalidAmount,
    /// A decimal scaling would exceed the 64-bit range.
    Overflow,
    /// The lookup service reported a failure for an address.
    LookupFailed(String),
    /// The bytes of a metadata account do not match the expected layout.
    DecodeFailed,
    /// The off-chain fetch of supplementary data failed.
    EnrichmentFailed,
}

} // verus!
