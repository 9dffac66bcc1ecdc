//! The aggregation policy, the metadata decode, the derived metadata
//! address, and the rendering of whole reports.

use solana_token_info::{
    metadata_address, Address, Error, SupplyReading, TokenAccountInfo, TokenInfo, TokenMetadata,
};

fn address(byte: u8) -> Address {
    Address { bytes: [byte; 32] }
}

fn reading(amount: &str, decimals: u8) -> SupplyReading {
    SupplyReading { amount: amount.to_string(), decimals }
}

fn push_str(bytes: &mut Vec<u8>, s: &str) {
    bytes.extend_from_slice(&(s.len() as u32).to_le_bytes());
    bytes.extend_from_slice(s.as_bytes());
}

/// A serialized metadata account: kind tag MetadataV1, zero authority and
/// mint, no optional sub-structures.
fn metadata_bytes(name: &str, symbol: &str, uri: &str) -> Vec<u8> {
    let mut bytes = Vec::new();
    bytes.push(4u8);
    bytes.extend_from_slice(&[0u8; 32]);
    bytes.extend_from_slice(&[0u8; 32]);
    push_str(&mut bytes, name);
    push_str(&mut bytes, symbol);
    push_str(&mut bytes, uri);
    bytes.extend_from_slice(&500u16.to_le_bytes());
    bytes.push(0);
    bytes.push(0);
    bytes.push(1);
    for _ in 0..6 {
        bytes.push(0);
    }
    bytes
}

fn decoded_metadata() -> TokenMetadata {
    let bytes = metadata_bytes("Test Token", "TST", "https://example.com/meta.json");
    TokenMetadata::new(Ok(bytes)).unwrap()
}

#[test]
fn metadata_decode_reads_the_fields() {
    let m = decoded_metadata();
    assert_eq!(m.key, "MetadataV1");
    assert_eq!(m.update_authority, "11111111111111111111111111111111");
    assert_eq!(m.mint, "11111111111111111111111111111111");
    assert_eq!(m.name, "Test Token");
    assert_eq!(m.symbol, "TST");
    assert_eq!(m.uri, "https://example.com/meta.json");
    assert_eq!(m.seller_fee_basis_points, 500);
    assert!(m.creators.is_none());
    assert!(!m.primary_sale_happened);
    assert!(m.is_mutable);
    assert!(m.edition_nonce.is_none());
    assert!(m.token_standard.is_none());
}

#[test]
fn metadata_decode_rejects_bad_bytes() {
    assert!(matches!(
        TokenMetadata::new(Ok(vec![1u8, 2, 3])),
        Err(Error::DecodeFailed)
    ));
}

#[test]
fn metadata_fetch_error_propagates() {
    let r = TokenMetadata::new(Err(Error::LookupFailed("gone".to_string())));
    assert!(matches!(r, Err(Error::LookupFailed(m)) if m == "gone"));
}

#[test]
fn metadata_address_is_derived() {
    let mint = address(7);
    let derived = metadata_address(&mint);
    assert_ne!(derived, mint);
    assert_eq!(derived, metadata_address(&mint));
    assert_ne!(derived, metadata_address(&address(8)));
}

#[test]
fn account_info_formats_the_supply() {
    let a = TokenAccountInfo::new(Ok(address(0)), Ok(reading("1500000", 6))).unwrap();
    assert_eq!(a.total_supply, "1.5");
    assert_eq!(a.owner, address(0));
}

#[test]
fn account_info_account_error_first() {
    let r = TokenAccountInfo::new(
        Err(Error::LookupFailed("account".to_string())),
        Err(Error::LookupFailed("supply".to_string())),
    );
    assert!(matches!(r, Err(Error::LookupFailed(m)) if m == "account"));
}

#[test]
fn account_info_supply_error_second() {
    let r = TokenAccountInfo::new(
        Ok(address(0)),
        Err(Error::LookupFailed("supply".to_string())),
    );
    assert!(matches!(r, Err(Error::LookupFailed(m)) if m == "supply"));
}

#[test]
fn account_info_bad_amount() {
    let r = TokenAccountInfo::new(Ok(address(0)), Ok(reading("notanumber", 2)));
    assert!(matches!(r, Err(Error::InvalidAmount)));
}

fn account_info() -> TokenAccountInfo {
    TokenAccountInfo::new(Ok(address(0)), Ok(reading("1500000", 6))).unwrap()
}

#[test]
fn metadata_failure_keeps_the_account_record() {
    let entries = vec![("k".to_string(), "v".to_string())];
    let t = TokenInfo::new(
        Ok(account_info()),
        Err(Error::LookupFailed("no metadata".to_string())),
        Ok(entries),
    )
    .unwrap();
    assert!(t.metadata.is_none());
    assert!(t.additional_info.is_empty());
    assert_eq!(t.account_info.total_supply, "1.5");
}

#[test]
fn account_failure_fails_the_report() {
    let r = TokenInfo::new(
        Err(Error::LookupFailed("no account".to_string())),
        Ok(decoded_metadata()),
        Ok(Vec::new()),
    );
    assert!(matches!(r, Err(Error::LookupFailed(m)) if m == "no account"));
    let r = TokenInfo::new(
        Err(Error::LookupFailed("no account".to_string())),
        Err(Error::DecodeFailed),
        Err(Error::EnrichmentFailed),
    );
    assert!(matches!(r, Err(Error::LookupFailed(m)) if m == "no account"));
}

#[test]
fn enrichment_failure_is_absorbed() {
    let t = TokenInfo::new(
        Ok(account_info()),
        Ok(decoded_metadata()),
        Err(Error::EnrichmentFailed),
    )
    .unwrap();
    assert!(t.metadata.is_some());
    assert!(t.additional_info.is_empty());
}

#[test]
fn render_without_metadata() {
    let t = TokenInfo::new(Ok(account_info()), Err(Error::DecodeFailed), Ok(Vec::new())).unwrap();
    assert_eq!(
        t.render(),
        "\ninformation collected from account:\n\
         owner: 11111111111111111111111111111111\n\
         total supply: 1.5"
    );
}

#[test]
fn render_full_report() {
    let entries = vec![
        ("Website".to_string(), "\"HTTPS://Example.COM\"".to_string()),
        ("n".to_string(), "5".to_string()),
    ];
    let t = TokenInfo::new(Ok(account_info()), Ok(decoded_metadata()), Ok(entries)).unwrap();
    let expected = "\ninformation collected from account:\n\
         owner: 11111111111111111111111111111111\n\
         total supply: 1.5\n\n\
         information collected from metadata:\n\
         key: MetadataV1\n\
         update authority: 11111111111111111111111111111111\n\
         mint: 11111111111111111111111111111111\n\
         name: Test Token\n\
         symbol: TST\n\
         uri: https://example.com/meta.json\n\
         seller fee basis points: 500\n\
         primary sale happened: false\n\
         is mutable: true\n\
         \ninformation retrieved using uri:\n\
         website: \"https://example.com\"\n\
         n: 5";
    assert_eq!(t.render(), expected);
}

#[test]
fn outcomes_are_independent_across_a_batch() {
    let inputs: Vec<(Result<Address, Error>, SupplyReading)> = vec![
        (Ok(address(1)), reading("10", 1)),
        (Err(Error::LookupFailed("down".to_string())), reading("10", 1)),
        (Ok(address(2)), reading("bad", 1)),
        (Ok(address(3)), reading("2500", 2)),
    ];
    let one_by_one: Vec<Result<TokenInfo, Error>> = inputs
        .iter()
        .map(|(account, supply)| {
            TokenInfo::new(
                TokenAccountInfo::new(account.clone(), Ok(reading(&supply.amount, supply.decimals))),
                Err(Error::DecodeFailed),
                Ok(Vec::new()),
            )
        })
        .collect();
    assert!(matches!(&one_by_one[0], Ok(t) if t.account_info.total_supply == "1"));
    assert!(matches!(&one_by_one[1], Err(Error::LookupFailed(m)) if m == "down"));
    assert!(matches!(&one_by_one[2], Err(Error::InvalidAmount)));
    assert!(matches!(&one_by_one[3], Ok(t) if t.account_info.total_supply == "25"));
}
