//! Verified core of a token information reporter.
//!
//! Given a token address, the surrounding program looks up the token's
//! account state and metadata account over JSON-RPC, optionally follows the
//! URI stored in the metadata to off-chain JSON, and renders one text report.
//! This crate holds everything that decides and computes: supply formatting,
//! the failure policy that merges the lookups into a report, the off-chain
//! enrichment steps, and the text rendering. The network calls themselves
//! live outside; they hand plain values in and take plain values back.

mod address;
mod digits;
mod enrich;
mod error;
mod metadata;
mod supply;
mod token;

pub use address::{metadata_address, Address};
pub use digits::u64_to_string;
pub use enrich::{attach_dns_count, entries_from_body, uri_requests_fetch, website_host, website_query};
pub use error::Error;
pub use metadata::TokenMetadata;
pub use supply::{format_amount, lemma_format_amount_round_trip, lemma_format_round_trip, SupplyReading};
pub use token::{TokenAccountInfo, TokenInfo};
