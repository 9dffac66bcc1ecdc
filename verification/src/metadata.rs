//! The metadata record of a token: a decoded copy of the on-chain
//! metadata account, with every field the report renders held as a plain
//! value, and the decode behind trusted calls into the metadata crate.

use vstd::prelude::*;
use vstd::string::StringExecFns;

use crate::digits::{dec_str, u64_to_string};
use crate::error::Error;

verus! {

/// Whether a byte string is a well-formed serialized metadata account.
pub uninterp spec fn metadata_decodes(bytes: Seq<u8>) -> bool;

/// The name field a well-formed metadata account decodes to.
pub uninterp spec fn meta_name_of(bytes: Seq<u8>) -> Seq<char>;

/// The symbol field of the decoded account.
pub uninterp spec fn meta_symbol_of(bytes: Seq<u8>) -> Seq<char>;

/// The uri field of the decoded account.
pub uninterp spec fn meta_uri_of(bytes: Seq<u8>) -> Seq<char>;

/// The rendered account-kind tag of the decoded account.
pub uninterp spec fn meta_key_text_of(bytes: Seq<u8>) -> Seq<char>;

/// The base58 text of the decoded account's update authority.
pub uninterp spec fn meta_authority_text_of(bytes: Seq<u8>) -> Seq<char>;

/// The base58 text of the decoded account's mint.
pub uninterp spec fn meta_mint_text_of(bytes: Seq<u8>) -> Seq<char>;

/// The seller-fee basis points of the decoded account.
pub uninterp spec fn meta_fee_of(bytes: Seq<u8>) -> u16;

/// The primary-sale flag of the decoded account.
pub uninterp spec fn meta_primary_sale_of(bytes: Seq<u8>) -> bool;

/// The mutability flag of the decoded account.
pub uninterp spec fn meta_mutable_of(bytes: Seq<u8>) -> bool;

/// The edition nonce of the decoded account.
pub uninterp spec fn meta_nonce_of(bytes: Seq<u8>) -> Option<u8>;

/// The rendered creators list of the decoded account, when present.
pub uninterp spec fn meta_creators_text_of(bytes: Seq<u8>) -> Option<Seq<char>>;

/// The rendered token-standard tag of the decoded account, when present.
pub uninterp spec fn meta_standard_text_of(bytes: Seq<u8>) -> Option<Seq<char>>;

/// The rendered collection reference of the decoded account, when present.
pub uninterp spec fn meta_collection_text_of(bytes: Seq<u8>) -> Option<Seq<char>>;

/// The rendered uses counter of the decoded account, when present.
pub uninterp spec fn meta_uses_text_of(bytes: Seq<u8>) -> Option<Seq<char>>;

/// The rendered collection details of the decoded account, when present.
pub uninterp spec fn meta_details_text_of(bytes: Seq<u8>) -> Option<Seq<char>>;

/// The rendered programmable config of the decoded account, when present.
pub uninterp spec fn meta_config_text_of(bytes: Seq<u8>) -> Option<Seq<char>>;

/// The characters of an optional text field.
pub open spec fn opt_text(v: Option<String>) -> Option<Seq<char>> {
    match v {
        Some(s) => Some(s@),
        None => None,
    }
}

/// A token's metadata record. The account kind, the authority and mint
/// addresses, and the optional sub-structures are carried as rendered
/// text: the report passes them through without interpreting them.
pub struct TokenMetadata {
    pub key: String,
    pub update_authority: String,
    pub mint: String,
    pub name: String,
    pub symbol: String,
    pub uri: String,
    pub seller_fee_basis_points: u16,
    pub creators: Option<String>,
    pub primary_sale_happened: bool,
    pub is_mutable: bool,
    pub edition_nonce: Option<u8>,
    pub token_standard: Option<String>,
    pub collection: Option<String>,
    pub uses: Option<String>,
    pub collection_details: Option<String>,
    pub programmable_config: Option<String>,
}

/// Relies on mpl_token_metadata::accounts::Metadata::from_bytes: a borsh
/// decode of the account bytes that succeeds or fails as a function of the
/// bytes alone. Hands back the name, symbol and uri fields.
#[verifier::external_body]
fn decoded_names(bytes: &Vec<u8>) -> (r: Option<(String, String, String)>)
    ensures
        r is Some <==> metadata_decodes(bytes@),
        r matches Some(t) ==> t.0@ == meta_name_of(bytes@) && t.1@ == meta_symbol_of(bytes@)
            && t.2@ == meta_uri_of(bytes@),
{
    match mpl_token_metadata::accounts::Metadata::from_bytes(bytes) {
        Ok(m) => Some((m.name, m.symbol, m.uri)),
        Err(_) => None,
    }
}

/// Relies on mpl_token_metadata::accounts::Metadata::from_bytes, on the
/// Debug impl of the account-kind tag, and on the base58 Display of
/// solana_program::pubkey::Pubkey. Hands back the kind tag and the update
/// authority and mint addresses as text.
#[verifier::external_body]
fn decoded_keys(bytes: &Vec<u8>) -> (r: Option<(String, String, String)>)
    ensures
        r is Some <==> metadata_decodes(bytes@),
        r matches Some(t) ==> t.0@ == meta_key_text_of(bytes@) && t.1@ == meta_authority_text_of(
            bytes@,
        ) && t.2@ == meta_mint_text_of(bytes@),
{
    match mpl_token_metadata::accounts::Metadata::from_bytes(bytes) {
        Ok(m) => Some((
            format!("{:?}", m.key),
            m.update_authority.to_string(),
            m.mint.to_string(),
        )),
        Err(_) => None,
    }
}

/// Relies on mpl_token_metadata::accounts::Metadata::from_bytes. Hands back
/// the seller fee, the two flags, and the edition nonce.
#[verifier::external_body]
fn decoded_flags(bytes: &Vec<u8>) -> (r: Option<(u16, bool, bool, Option<u8>)>)
    ensures
        r is Some <==> metadata_decodes(bytes@),
        r matches Some(t) ==> t.0 == meta_fee_of(bytes@) && t.1 == meta_primary_sale_of(bytes@)
            && t.2 == meta_mutable_of(bytes@) && t.3 == meta_nonce_of(bytes@),
{
    match mpl_token_metadata::accounts::Metadata::from_bytes(bytes) {
        Ok(m) => Some((
            m.seller_fee_basis_points,
            m.primary_sale_happened,
            m.is_mutable,
            m.edition_nonce,
        )),
        Err(_) => None,
    }
}

/// Relies on mpl_token_metadata::accounts::Metadata::from_bytes and the
/// Debug impls of the optional sub-structures, whose text the report
/// passes through. Hands back creators, token standard, collection, uses,
/// collection details and programmable config.
#[verifier::external_body]
fn decoded_extras(bytes: &Vec<u8>) -> (r: Option<
    (Option<String>, Option<String>, Option<String>, Option<String>, Option<String>, Option<String>),
>)
    ensures
        r is Some <==> metadata_decodes(bytes@),
        r matches Some(t) ==> opt_text(t.0) == meta_creators_text_of(bytes@) && opt_text(t.1)
            == meta_standard_text_of(bytes@) && opt_text(t.2) == meta_collection_text_of(bytes@)
            && opt_text(t.3) == meta_uses_text_of(bytes@) && opt_text(t.4) == meta_details_text_of(
            bytes@,
        ) && opt_text(t.5) == meta_config_text_of(bytes@),
{
    match mpl_token_metadata::accounts::Metadata::from_bytes(bytes) {
        Ok(m) => Some((
            m.creators.map(|v| format!("{:?}", v)),
            m.token_standard.map(|v| format!("{:?}", v)),
            m.collection.map(|v| format!("{:?}", v)),
            m.uses.map(|v| format!("{:?}", v)),
            m.collection_details.map(|v| format!("{:?}", v)),
            m.programmable_config.map(|v| format!("{:?}", v)),
        )),
        Err(_) => None,
    }
}

/// A labelled line for a sub-field that is rendered only when present.
pub open spec fn opt_line(label: Seq<char>, v: Option<String>) -> Seq<char> {
    match v {
        Some(s) => label + s@ + "\n"@,
        None => Seq::<char>::empty(),
    }
}

/// The text of a flag.
pub open spec fn bool_str(b: bool) -> Seq<char> {
    if b {
        "true"@
    } else {
        "false"@
    }
}

/// The edition-nonce line, present only when the nonce is.
pub open spec fn nonce_line(v: Option<u8>) -> Seq<char> {
    match v {
        Some(n) => "edition nonce: "@ + dec_str(n as nat) + "\n"@,
        None => Seq::<char>::empty(),
    }
}

impl TokenMetadata {
    /// Decodes a metadata record out of a fetched account's bytes. A failed
    /// fetch propagates its error; bytes that do not decode are
    /// `DecodeFailed`.
    pub fn new(account_data: Result<Vec<u8>, Error>) -> (r: Result<TokenMetadata, Error>)
        ensures
            account_data matches Err(e) ==> r == Err::<TokenMetadata, Error>(e),
            account_data matches Ok(b) ==> (metadata_decodes(b@) ==> (r matches Ok(m) && m.key@
                == meta_key_text_of(b@) && m.update_authority@ == meta_authority_text_of(b@)
                && m.mint@ == meta_mint_text_of(b@) && m.name@ == meta_name_of(b@) && m.symbol@
                == meta_symbol_of(b@) && m.uri@ == meta_uri_of(b@) && m.seller_fee_basis_points
                == meta_fee_of(b@) && m.primary_sale_happened == meta_primary_sale_of(b@)
                && m.is_mutable == meta_mutable_of(b@) && m.edition_nonce == meta_nonce_of(b@)
                && opt_text(m.creators) == meta_creators_text_of(b@) && opt_text(m.token_standard)
                == meta_standard_text_of(b@) && opt_text(m.collection) == meta_collection_text_of(
                b@,
            ) && opt_text(m.uses) == meta_uses_text_of(b@) && opt_text(m.collection_details)
                == meta_details_text_of(b@) && opt_text(m.programmable_config)
                == meta_config_text_of(b@))),
            account_data matches Ok(b) && !metadata_decodes(b@) ==> r == Err::<
                TokenMetadata,
                Error,
            >(Error::DecodeFailed),
    {
        let bytes = match account_data {
            Ok(b) => b,
            Err(e) => {
                return Err(e);
            },
        };
        let names = decoded_names(&bytes);
        let keys = decoded_keys(&bytes);
        let flags = decoded_flags(&bytes);
        let extras = decoded_extras(&bytes);
        match (names, keys, flags, extras) {
            (Some(n), Some(k), Some(f), Some(x)) => Ok(TokenMetadata {
                key: k.0,
                update_authority: k.1,
                mint: k.2,
                name: n.0,
                symbol: n.1,
                uri: n.2,
                seller_fee_basis_points: f.0,
                primary_sale_happened: f.1,
                is_mutable: f.2,
                edition_nonce: f.3,
                creators: x.0,
                token_standard: x.1,
                collection: x.2,
                uses: x.3,
                collection_details: x.4,
                programmable_config: x.5,
            }),
            _ => Err(Error::DecodeFailed),
        }
    }

    /// The metadata section of a report: one labelled line per field, the
    /// optional sub-structures only when present.
    pub open spec fn render_spec(self) -> Seq<char> {
        "information collected from metadata:\n"@ + "key: "@ + self.key@ + "\n"@
            + "update authority: "@ + self.update_authority@ + "\n"@ + "mint: "@ + self.mint@
            + "\n"@ + "name: "@ + self.name@ + "\n"@ + "symbol: "@ + self.symbol@ + "\n"@
            + "uri: "@ + self.uri@ + "\n"@ + "seller fee basis points: "@ + dec_str(
            self.seller_fee_basis_points as nat,
        ) + "\n"@ + opt_line("creators: "@, self.creators) + "primary sale happened: "@
            + bool_str(self.primary_sale_happened) + "\n"@ + "is mutable: "@ + bool_str(
            self.is_mutable,
        ) + "\n"@ + nonce_line(self.edition_nonce) + opt_line(
            "token standard: "@,
            self.token_standard,
        ) + opt_line("collection: "@, self.collection) + opt_line("uses: "@, self.uses) + opt_line(
            "collection details: "@,
            self.collection_details,
        ) + opt_line("programmable config: "@, self.programmable_config)
    }

    /// Renders the metadata section.
    pub fn render(&self) -> (r: String)
        ensures
            r@ == self.render_spec(),
    {
        let mut out = String::new();
        out.append("information collected from metadata:\n");
        push_field(&mut out, "key: ", self.key.as_str());
        push_field(&mut out, "update authority: ", self.update_authority.as_str());
        push_field(&mut out, "mint: ", self.mint.as_str());
        push_field(&mut out, "name: ", self.name.as_str());
        push_field(&mut out, "symbol: ", self.symbol.as_str());
        push_field(&mut out, "uri: ", self.uri.as_str());
        let fee = u64_to_string(self.seller_fee_basis_points as u64);
        push_field(&mut out, "seller fee basis points: ", fee.as_str());
        push_opt_field(&mut out, "creators: ", &self.creators);
        push_field(&mut out, "primary sale happened: ", bool_text(self.primary_sale_happened));
        push_field(&mut out, "is mutable: ", bool_text(self.is_mutable));
        if let Some(n) = self.edition_nonce {
            let nonce = u64_to_string(n as u64);
            push_field(&mut out, "edition nonce: ", nonce.as_str());
        }
        push_opt_field(&mut out, "token standard: ", &self.token_standard);
        push_opt_field(&mut out, "collection: ", &self.collection);
        push_opt_field(&mut out, "uses: ", &self.uses);
        push_opt_field(&mut out, "collection details: ", &self.collection_details);
        push_opt_field(&mut out, "programmable config: ", &self.programmable_config);
        proof {
            assert(out@ =~= self.render_spec());
        }
        out
    }
}

/// Appends one labelled line.
fn push_field(out: &mut String, label: &str, value: &str)
    ensures
        final(out)@ == old(out)@ + label@ + value@ + "\n"@,
{
    out.append(label);
    out.append(value);
    out.append("\n");
}

/// Appends one labelled line when the value is present.
fn push_opt_field(out: &mut String, label: &str, value: &Option<String>)
    ensures
        final(out)@ == old(out)@ + opt_line(label@, *value),
{
    match value {
        Some(v) => {
            push_field(out, label, v.as_str());
            proof {
                assert(out@ =~= old(out)@ + opt_line(label@, *value));
            }
        },
        None => {
            proof {
                assert(out@ =~= old(out)@ + opt_line(label@, *value));
            }
        },
    }
}

/// The text of a flag.
fn bool_text(b: bool) -> (r: &'static str)
    ensures
        r@ == bool_str(b),
{
    if b {
        "true"
    } else {
        "false"
    }
}

} // verus!
