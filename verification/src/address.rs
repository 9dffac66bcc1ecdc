//! Account addresses: an opaque 32-byte identifier, the derived metadata
//! address, and the base58 rendering.

use vstd::prelude::*;

verus! {

/// A 32-byte on-chain account address.
#[derive(Clone, Copy, PartialEq, Eq, Debug)]
pub struct Address {
    pub bytes: [u8; 32],
}

/// The metadata account address derived from a mint address: a
/// deterministic function of the mint's 32 bytes alone.
pub uninterp spec fn pda_of(mint: Seq<u8>) -> Seq<u8>;

/// Relies on mpl_token_metadata::accounts::Metadata::find_pda: the program
/// derived address is computed from fixed seeds ("metadata", the token
/// metadata program id) and the mint address, so it depends on the mint's
/// bytes alone.
#[verifier::external_body]
fn derive_metadata_address(mint: &Address) -> (r: Address)
    ensures
        r.bytes@ == pda_of(mint.bytes@),
{
    let key = solana_program::pubkey::Pubkey::new_from_array(mint.bytes);
    let (derived, _) = mpl_token_metadata::accounts::Metadata::find_pda(&key);
    Address { bytes: derived.to_bytes() }
}

/// Where the metadata account of a token lives: the address derived from
/// the token's mint address.
pub fn metadata_address(mint: &Address) -> (r: Address)
    ensures
        r.bytes@ == pda_of(mint.bytes@),
{
    derive_metadata_address(mint)
}

/// The base58 text of 32 address bytes.
pub uninterp spec fn base58_of(bytes: Seq<u8>) -> Seq<char>;

/// Relies on the Display impl of solana_program::pubkey::Pubkey: it renders
/// the 32 bytes in base58, a function of the bytes alone.
#[verifier::external_body]
pub(crate) fn address_text(a: &Address) -> (r: String)
    ensures
        r@ == base58_of(a.bytes@),
{
    solana_program::pubkey::Pubkey::new_from_array(a.bytes).to_string()
}

} // verus!
