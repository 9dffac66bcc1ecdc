//! Supply formatting: exact renderings, rejection of bad input, and the
//! numeric round trip.

use solana_token_info::{format_amount, u64_to_string, Error};

#[test]
fn format_zero() {
    assert_eq!(format_amount("0", 6).unwrap(), "0");
}

#[test]
fn format_whole() {
    assert_eq!(format_amount("1000000", 6).unwrap(), "1");
}

#[test]
fn format_fraction_trimmed() {
    assert_eq!(format_amount("1500000", 6).unwrap(), "1.5");
}

#[test]
fn format_no_decimals() {
    assert_eq!(format_amount("123", 0).unwrap(), "123");
}

#[test]
fn format_no_decimals_keeps_trailing_zeros() {
    assert_eq!(format_amount("123000", 0).unwrap(), "123000");
}

#[test]
fn format_fraction_padded() {
    assert_eq!(format_amount("5", 3).unwrap(), "0.005");
}

#[test]
fn format_nineteen_decimals() {
    assert_eq!(format_amount("1", 19).unwrap(), "0.0000000000000000001");
}

#[test]
fn format_largest_amount() {
    assert_eq!(
        format_amount("18446744073709551615", 0).unwrap(),
        "18446744073709551615"
    );
}

#[test]
fn format_invalid_text() {
    assert!(matches!(format_amount("notanumber", 2), Err(Error::InvalidAmount)));
}

#[test]
fn format_invalid_empty() {
    assert!(matches!(format_amount("", 2), Err(Error::InvalidAmount)));
}

#[test]
fn format_invalid_sign() {
    assert!(matches!(format_amount("+5", 2), Err(Error::InvalidAmount)));
}

#[test]
fn format_invalid_too_large() {
    assert!(matches!(
        format_amount("18446744073709551616", 2),
        Err(Error::InvalidAmount)
    ));
}

#[test]
fn format_overflowing_decimals() {
    assert!(matches!(format_amount("1", 20), Err(Error::Overflow)));
}

#[test]
fn renders_u64() {
    assert_eq!(u64_to_string(0), "0");
    assert_eq!(u64_to_string(7), "7");
    assert_eq!(u64_to_string(1234567890), "1234567890");
    assert_eq!(u64_to_string(u64::MAX), "18446744073709551615");
}

/// Reads a formatted string back as whole * 10^decimals + fraction, the
/// fraction scaled back up by the trimmed places.
fn read_back(formatted: &str, decimals: u32) -> u128 {
    match formatted.split_once('.') {
        None => formatted.parse::<u128>().unwrap() * 10u128.pow(decimals),
        Some((whole, frac)) => {
            let scale = 10u128.pow(decimals - frac.len() as u32);
            whole.parse::<u128>().unwrap() * 10u128.pow(decimals)
                + frac.parse::<u128>().unwrap() * scale
        }
    }
}

#[test]
fn format_round_trips() {
    let amounts = [
        "0",
        "1",
        "9",
        "10",
        "1500000",
        "1000000",
        "123456789",
        "990",
        "18446744073709551615",
    ];
    for amount in amounts {
        for decimals in 0u8..=19 {
            let formatted = format_amount(amount, decimals).unwrap();
            assert_eq!(
                read_back(&formatted, decimals as u32),
                amount.parse::<u128>().unwrap(),
                "amount {amount} decimals {decimals} formatted {formatted}"
            );
        }
    }
}
