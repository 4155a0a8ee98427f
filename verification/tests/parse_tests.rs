use payments_engine::amount::to_subunit;
use payments_engine::record::{input_record_to_transaction, ParseError, TxInputRecord};
use payments_engine::state::TransactionType;

#[test]
fn whole_units_scale_by_ten_thousand() {
    assert_eq!(to_subunit("5"), Some(50000));
    assert_eq!(to_subunit("10"), Some(100000));
    assert_eq!(to_subunit("0"), Some(0));
}

#[test]
fn four_fraction_digits_are_exact() {
    assert_eq!(to_subunit("10.0000"), Some(100000));
    assert_eq!(to_subunit("1.2345"), Some(12345));
    assert_eq!(to_subunit("0.0001"), Some(1));
}

#[test]
fn short_fractions_are_padded() {
    assert_eq!(to_subunit("1.5"), Some(15000));
    assert_eq!(to_subunit("2.25"), Some(22500));
    assert_eq!(to_subunit("3.125"), Some(31250));
}

#[test]
fn long_fractions_truncate_toward_zero() {
    assert_eq!(to_subunit("1.23456"), Some(12345));
    assert_eq!(to_subunit("0.99999"), Some(9999));
}

#[test]
fn bare_or_trailing_dot_forms() {
    assert_eq!(to_subunit(".5"), Some(5000));
    assert_eq!(to_subunit("5."), Some(50000));
    assert_eq!(to_subunit("."), None);
}

#[test]
fn malformed_amounts_are_refused() {
    assert_eq!(to_subunit(""), None);
    assert_eq!(to_subunit("abc"), None);
    assert_eq!(to_subunit("1.2.3"), None);
    assert_eq!(to_subunit("-1"), None);
    assert_eq!(to_subunit("1e3"), None);
    assert_eq!(to_subunit(" 1"), None);
}

#[test]
fn amounts_past_the_64_bit_range_are_refused() {
    // 2^64 subunits do not fit
    assert_eq!(to_subunit("1844674407370955.1616"), None);
    assert_eq!(to_subunit("18446744073709551616"), None);
    // the largest representable amount does
    assert_eq!(to_subunit("1844674407370955.1615"), Some(u64::MAX));
}

#[test]
fn the_five_transaction_kinds_parse() {
    assert_eq!(TransactionType::from_str("withdraw"), Ok(TransactionType::WITHDRAWAL));
    assert_eq!(TransactionType::from_str("deposit"), Ok(TransactionType::DEPOSIT));
    assert_eq!(TransactionType::from_str("dispute"), Ok(TransactionType::DISPUTE));
    assert_eq!(TransactionType::from_str("resolve"), Ok(TransactionType::RESOLVE));
    assert_eq!(TransactionType::from_str("chargeback"), Ok(TransactionType::CHARGEBACK));
}

#[test]
fn unknown_transaction_kinds_are_refused() {
    assert_eq!(TransactionType::from_str(""), Err(ParseError::UnknownTransactionType));
    assert_eq!(TransactionType::from_str("Deposit"), Err(ParseError::UnknownTransactionType));
    assert_eq!(TransactionType::from_str("withdrawal"), Err(ParseError::UnknownTransactionType));
    assert_eq!(TransactionType::from_str("deposit "), Err(ParseError::UnknownTransactionType));
}

fn record(tx_type: &str, client: u16, tx: u32, amount: &str) -> TxInputRecord {
    TxInputRecord { tx_type: tx_type.to_string(), client, tx, amount: amount.to_string() }
}

#[test]
fn a_deposit_record_normalizes() {
    let message = input_record_to_transaction(&record("deposit", 1, 7, "2.5"), 3).unwrap();
    assert_eq!(message.tx_time, 3);
    assert_eq!(message.tx, 7);
    assert_eq!(message.tx_type, TransactionType::DEPOSIT);
    assert_eq!(message.client, 1);
    assert_eq!(message.amount, 25000);
}

#[test]
fn an_empty_amount_column_counts_as_zero() {
    let message = input_record_to_transaction(&record("dispute", 4, 9, ""), 1).unwrap();
    assert_eq!(message.amount, 0);
    assert_eq!(message.tx_type, TransactionType::DISPUTE);
}

#[test]
fn a_bad_amount_is_a_fatal_parse_error() {
    let result = input_record_to_transaction(&record("deposit", 1, 1, "ten"), 1);
    assert_eq!(result, Err(ParseError::InvalidAmount));
}

#[test]
fn an_unknown_kind_is_a_fatal_parse_error() {
    let result = input_record_to_transaction(&record("transfer", 1, 1, "1.0"), 1);
    assert_eq!(result, Err(ParseError::UnknownTransactionType));
}

#[test]
fn the_amount_is_checked_before_the_kind() {
    let result = input_record_to_transaction(&record("transfer", 1, 1, "ten"), 1);
    assert_eq!(result, Err(ParseError::InvalidAmount));
}
