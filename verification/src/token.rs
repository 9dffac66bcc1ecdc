//! The aggregate report of one token: account state, optional metadata,
//! optional off-chain enrichment, and the text rendering of the whole.
//!
//! The lookups themselves are network round trips done by the caller; the
//! merge policy is decided and proved here: a failed account-state lookup
//! fails the whole report, a failed metadata lookup only drops the
//! metadata section and the enrichment, and a failed enrichment only
//! empties the enrichment section.

use vstd::prelude::*;
use vstd::string::StringExecFns;

use crate::address::{address_text, base58_of, Address};
use crate::digits::{dec_value, is_u64_string};
use crate::error::Error;
use crate::metadata::TokenMetadata;
use crate::supply::{format_amount, format_spec, SupplyReading};

verus! {

/// Account state of a token: the owning program and the formatted total
/// supply.
pub struct TokenAccountInfo {
    pub owner: Address,
    pub total_supply: String,
}

/// The lowered text an outside case fold yields for a sequence of
/// characters.
pub uninterp spec fn lower_of(s: Seq<char>) -> Seq<char>;

/// Relies on str::to_lowercase: the lowered text depends on the characters
/// alone.
#[verifier::external_body]
fn to_lower(s: &str) -> (r: String)
    ensures
        r@ == lower_of(s@),
{
    s.to_lowercase()
}

/// One rendered enrichment line: key and value lowered, separated by a
/// colon.
pub open spec fn line_of(e: (String, String)) -> Seq<char> {
    lower_of(e.0@) + ": "@ + lower_of(e.1@)
}

/// The enrichment lines in entry order, joined by line breaks.
pub open spec fn info_lines(entries: Seq<(String, String)>) -> Seq<char>
    decreases entries.len(),
{
    if entries.len() == 0 {
        Seq::<char>::empty()
    } else if entries.len() == 1 {
        line_of(entries[0])
    } else {
        info_lines(entries.drop_last()) + "\n"@ + line_of(entries.last())
    }
}

/// Renders the enrichment entries, one lowered `key: value` line each.
fn render_lines(entries: &Vec<(String, String)>) -> (r: String)
    ensures
        r@ == info_lines(entries@),
{
    let mut out = String::new();
    let mut i: usize = 0;
    while i < entries.len()
        invariant
            0 <= i <= entries@.len(),
            out@ == info_lines(entries@.take(i as int)),
        decreases entries@.len() - i,
    {
        if i > 0 {
            out.append("\n");
        }
        let key_lower = to_lower(entries[i].0.as_str());
        let value_lower = to_lower(entries[i].1.as_str());
        out.append(key_lower.as_str());
        out.append(": ");
        out.append(value_lower.as_str());
        proof {
            let pre = entries@.take(i as int);
            let post = entries@.take(i + 1);
            assert(post.drop_last() =~= pre);
            assert(post.last() == entries@[i as int]);
            if i == 0 {
                assert(out@ =~= line_of(entries@[i as int]));
            } else {
                assert(info_lines(post) == info_lines(pre) + "\n"@ + line_of(post.last()));
                assert(out@ =~= info_lines(pre) + "\n"@ + line_of(entries@[i as int]));
            }
        }
        i = i + 1;
    }
    proof {
        assert(entries@.take(entries@.len() as int) =~= entries@);
    }
    out
}

impl TokenAccountInfo {
    /// Combines the two halves of an account-state lookup. A failed
    /// account fetch takes precedence, then a failed supply fetch, then
    /// the formatting errors; otherwise the supply is formatted and kept
    /// with the owner.
    pub fn new(account: Result<Address, Error>, supply: Result<SupplyReading, Error>) -> (r:
        Result<TokenAccountInfo, Error>)
        ensures
            account matches Err(e) ==> r == Err::<TokenAccountInfo, Error>(e),
            account is Ok ==> (supply matches Err(e) ==> r == Err::<TokenAccountInfo, Error>(e)),
            account matches Ok(owner) ==> (supply matches Ok(s) ==> ((is_u64_string(s.amount@)
                && s.decimals <= 19) ==> (r matches Ok(a) && a.owner == owner && a.total_supply@
                == format_spec(dec_value(s.amount@), s.decimals as nat)))),
            account is Ok ==> (supply matches Ok(s) ==> (!is_u64_string(s.amount@) ==> r == Err::<
                TokenAccountInfo,
                Error,
            >(Error::InvalidAmount))),
            account is Ok ==> (supply matches Ok(s) ==> ((is_u64_string(s.amount@) && s.decimals
                > 19) ==> r == Err::<TokenAccountInfo, Error>(Error::Overflow))),
    {
        let owner = match account {
            Ok(o) => o,
            Err(e) => {
                return Err(e);
            },
        };
        let reading = match supply {
            Ok(s) => s,
            Err(e) => {
                return Err(e);
            },
        };
        let total_supply = match format_amount(reading.amount.as_str(), reading.decimals) {
            Ok(t) => t,
            Err(e) => {
                return Err(e);
            },
        };
        Ok(TokenAccountInfo { owner, total_supply })
    }

    /// The account section of a report.
    pub open spec fn render_spec(self) -> Seq<char> {
        "information collected from account:\nowner: "@ + base58_of(self.owner.bytes@)
            + "\ntotal supply: "@ + self.total_supply@
    }

    /// Renders the account section.
    pub fn render(&self) -> (r: String)
        ensures
            r@ == self.render_spec(),
    {
        let mut out = String::new();
        out.append("information collected from account:\nowner: ");
        let owner = address_text(&self.owner);
        out.append(owner.as_str());
        out.append("\ntotal supply: ");
        out.append(self.total_supply.as_str());
        proof {
            assert(out@ =~= self.render_spec());
        }
        out
    }
}

/// The report of one token: account state, the metadata record when its
/// lookup and decode succeeded, and the off-chain enrichment entries.
pub struct TokenInfo {
    pub account_info: TokenAccountInfo,
    pub additional_info: Vec<(String, String)>,
    pub metadata: Option<TokenMetadata>,
}

impl TokenInfo {
    /// Merges the lookup outcomes into one report. A failed account-state
    /// lookup fails the report with that error, whatever the others did; a
    /// failed metadata lookup drops the metadata section and leaves the
    /// enrichment empty; a failed enrichment is absorbed into an empty
    /// entry list.
    pub fn new(
        account_info_res: Result<TokenAccountInfo, Error>,
        metadata_res: Result<TokenMetadata, Error>,
        additional_res: Result<Vec<(String, String)>, Error>,
    ) -> (r: Result<TokenInfo, Error>)
        ensures
            account_info_res matches Err(e) ==> r == Err::<TokenInfo, Error>(e),
            account_info_res matches Ok(a) ==> (r matches Ok(t) && t.account_info == a),
            account_info_res is Ok && metadata_res is Err ==> (r matches Ok(t) && t.metadata
                is None && t.additional_info@.len() == 0),
            account_info_res is Ok ==> (metadata_res matches Ok(m) ==> (r matches Ok(t)
                && t.metadata == Some(m))),
            account_info_res is Ok && metadata_res is Ok ==> (additional_res matches Ok(es) ==> (
            r matches Ok(t) && t.additional_info == es)),
            account_info_res is Ok && metadata_res is Ok && additional_res is Err ==> (r matches
                Ok(t) && t.additional_info@.len() == 0),
    {
        let account_info = match account_info_res {
            Ok(a) => a,
            Err(e) => {
                return Err(e);
            },
        };
        let (metadata, additional_info) = match metadata_res {
            Ok(m) => {
                let additional = match additional_res {
                    Ok(es) => es,
                    Err(_) => Vec::new(),
                };
                (Some(m), additional)
            },
            Err(_) => (None, Vec::new()),
        };
        Ok(TokenInfo { account_info, additional_info, metadata })
    }

    /// The whole report: the account section; then, only when metadata was
    /// decoded, the metadata section and the enrichment lines.
    pub open spec fn render_spec(self) -> Seq<char> {
        match self.metadata {
            Some(m) => "\n"@ + self.account_info.render_spec() + "\n\n"@ + m.render_spec()
                + "\ninformation retrieved using uri:\n"@ + info_lines(self.additional_info@),
            None => "\n"@ + self.account_info.render_spec(),
        }
    }

    /// Renders the whole report.
    pub fn render(&self) -> (r: String)
        ensures
            r@ == self.render_spec(),
    {
        let mut out = String::new();
        out.append("\n");
        let account = self.account_info.render();
        out.append(account.as_str());
        match &self.metadata {
            Some(m) => {
                out.append("\n\n");
                let md = m.render();
                out.append(md.as_str());
                out.append("\ninformation retrieved using uri:\n");
                let lines = render_lines(&self.additional_info);
                out.append(lines.as_str());
            },
            None => {},
        }
        proof {
            assert(out@ =~= self.render_spec());
        }
        out
    }
}

} // verus!
