use account_ledger::model::ReadTransaction;
use account_ledger::model::TransactionType;
use account_ledger::record::deserialize_transaction;
use account_ledger::record::RecordError;
use account_ledger::text::parse_u16;
use account_ledger::text::parse_u32;
use account_ledger::text::same_text;

fn row(fields: &[&str]) -> Vec<String> {
    fields.iter().map(|field| field.to_string()).collect()
}

fn read(fields: &[&str]) -> Result<ReadTransaction, RecordError> {
    deserialize_transaction(&row(fields))
}

fn amount_parts(transaction: &ReadTransaction) -> Option<(i128, u32)> {
    transaction.amount.map(|amount| (amount.mantissa(), amount.scale()))
}

#[test]
fn kinds_are_read_whatever_their_case() {
    assert_eq!(TransactionType::from_str("chargeback"), Ok(TransactionType::Chargeback));
    assert_eq!(TransactionType::from_str("deposit"), Ok(TransactionType::Deposit));
    assert_eq!(TransactionType::from_str("dispute"), Ok(TransactionType::Dispute));
    assert_eq!(TransactionType::from_str("resolve"), Ok(TransactionType::Resolve));
    assert_eq!(TransactionType::from_str("withdrawal"), Ok(TransactionType::Withdrawal));
    assert_eq!(TransactionType::from_str("DEPOSIT"), Ok(TransactionType::Deposit));
    assert_eq!(TransactionType::from_str("ChargeBack"), Ok(TransactionType::Chargeback));
    assert_eq!(TransactionType::from_str("wITHDRAWAL"), Ok(TransactionType::Withdrawal));
}

#[test]
fn other_words_are_no_kind() {
    assert_eq!(TransactionType::from_str(""), Err(()));
    assert_eq!(TransactionType::from_str("deposits"), Err(()));
    assert_eq!(TransactionType::from_str("deposi"), Err(()));
    assert_eq!(TransactionType::from_str(" deposit"), Err(()));
    assert_eq!(TransactionType::from_str("refund"), Err(()));
    assert_eq!(TransactionType::from_str("dépôt"), Err(()));
}

#[test]
fn lower_case_follows_unicode() {
    // The Kelvin sign is an upper-case letter whose lower case is `k`.
    assert_eq!(
        TransactionType::from_str("CHARGEBAC\u{212A}"),
        Ok(TransactionType::Chargeback)
    );
}

#[test]
fn from_lowercase_does_not_fold_case() {
    assert_eq!(TransactionType::from_lowercase("resolve"), Ok(TransactionType::Resolve));
    assert_eq!(TransactionType::from_lowercase("Resolve"), Err(()));
    assert_eq!(TransactionType::from_lowercase("DEPOSIT"), Err(()));
    assert_eq!(TransactionType::from_lowercase(""), Err(()));
}

#[test]
fn same_text_compares_characters() {
    assert!(same_text("", ""));
    assert!(same_text("deposit", "deposit"));
    assert!(!same_text("deposit", "deposiT"));
    assert!(!same_text("deposit", "deposi"));
    assert!(!same_text("deposi", "deposit"));
    assert!(same_text("dépôt", "dépôt"));
    assert!(!same_text("dépôt", "depot"));
}

#[test]
fn unsigned_integers_are_read_as_the_standard_library_reads_them() {
    let texts = [
        "0",
        "1",
        "42",
        "65535",
        "65536",
        "4294967295",
        "4294967296",
        "+1",
        "+0",
        "+65535",
        "+65536",
        "-1",
        "-0",
        "",
        "+",
        "-",
        "++1",
        "+-1",
        "00001",
        "0000000000000000000000065535",
        "0000000000000000000004294967296",
        "99999999999999999999999999999999999999",
        "1_000",
        " 1",
        "1 ",
        "1.0",
        "1e3",
        "0x10",
        "１",
        "٣",
        "12a",
        "a12",
        "1+",
    ];
    for text in texts {
        assert_eq!(parse_u16(text), text.parse::<u16>().ok(), "{:?}", text);
        assert_eq!(parse_u32(text), text.parse::<u32>().ok(), "{:?}", text);
    }
}

#[test]
fn unsigned_integers_at_the_limits() {
    assert_eq!(parse_u16("65535"), Some(u16::MAX));
    assert_eq!(parse_u16("65536"), None);
    assert_eq!(parse_u32("4294967295"), Some(u32::MAX));
    assert_eq!(parse_u32("4294967296"), None);
    assert_eq!(parse_u16("+007"), Some(7));
}

#[test]
fn a_transaction_that_moves_funds_needs_an_amount() {
    let amount = account_ledger::amount::Amount::new(25, 1);
    for kind in [TransactionType::Deposit, TransactionType::Withdrawal] {
        assert!(ReadTransaction::new(kind, 1, 2, None).is_none());
        let transaction = ReadTransaction::new(kind, 1, 2, Some(amount)).unwrap();
        assert_eq!(transaction.kind, kind);
        assert_eq!(transaction.client, 1);
        assert_eq!(transaction.tx, 2);
        assert_eq!(amount_parts(&transaction), Some((25, 1)));
    }
    for kind in [
        TransactionType::Dispute,
        TransactionType::Resolve,
        TransactionType::Chargeback,
    ] {
        let transaction = ReadTransaction::new(kind, 3, 4, None).unwrap();
        assert_eq!(transaction.kind, kind);
        assert_eq!(amount_parts(&transaction), None);
        let transaction = ReadTransaction::new(kind, 3, 4, Some(amount)).unwrap();
        assert_eq!(amount_parts(&transaction), Some((25, 1)));
    }
}

#[test]
fn a_deposit_row_is_read() {
    let transaction = read(&["deposit", "1", "2", "1.2345"]).unwrap();
    assert_eq!(transaction.kind, TransactionType::Deposit);
    assert_eq!(transaction.client, 1);
    assert_eq!(transaction.tx, 2);
    assert_eq!(amount_parts(&transaction), Some((12345, 4)));
}

#[test]
fn read_transactions_compare_by_their_parts() {
    let read = read(&["deposit", "1", "2", "1.50"]).unwrap();
    let same = ReadTransaction::new(
        TransactionType::Deposit,
        1,
        2,
        Some(account_ledger::amount::Amount::new(15, 1)),
    )
    .unwrap();
    assert_eq!(read, same);
    let other = ReadTransaction { tx: 3, ..same };
    assert_ne!(read, other);
}

#[test]
fn a_withdrawal_row_is_read() {
    let transaction = read(&["Withdrawal", "65535", "4294967295", "-0.50"]).unwrap();
    assert_eq!(transaction.kind, TransactionType::Withdrawal);
    assert_eq!(transaction.client, 65535);
    assert_eq!(transaction.tx, 4294967295);
    assert_eq!(amount_parts(&transaction), Some((-50, 2)));
}

#[test]
fn amounts_keep_the_scale_they_are_written_at() {
    assert_eq!(amount_parts(&read(&["deposit", "1", "1", "1.500"]).unwrap()), Some((1500, 3)));
    assert_eq!(amount_parts(&read(&["deposit", "1", "1", "7"]).unwrap()), Some((7, 0)));
    assert_eq!(amount_parts(&read(&["deposit", "1", "1", "0.0000"]).unwrap()), Some((0, 4)));
    assert_eq!(amount_parts(&read(&["deposit", "1", "1", "1e2"]).unwrap()), Some((100, 0)));
}

#[test]
fn rows_of_the_other_kinds_need_no_amount() {
    for kind in ["dispute", "resolve", "chargeback"] {
        let transaction = read(&[kind, "3", "4"]).unwrap();
        assert_eq!(transaction.client, 3);
        assert_eq!(transaction.tx, 4);
        assert_eq!(amount_parts(&transaction), None);
        let transaction = read(&[kind, "3", "4", ""]).unwrap();
        assert_eq!(amount_parts(&transaction), None);
        let transaction = read(&[kind, "3", "4", "nothing"]).unwrap();
        assert_eq!(amount_parts(&transaction), None);
        let transaction = read(&[kind, "3", "4", "2.5"]).unwrap();
        assert_eq!(amount_parts(&transaction), Some((25, 1)));
    }
    assert_eq!(read(&["dispute", "3", "4"]).unwrap().kind, TransactionType::Dispute);
    assert_eq!(read(&["resolve", "3", "4"]).unwrap().kind, TransactionType::Resolve);
    assert_eq!(read(&["chargeback", "3", "4"]).unwrap().kind, TransactionType::Chargeback);
}

#[test]
fn further_fields_are_ignored() {
    let transaction = read(&["deposit", "1", "2", "3.0", "more", "fields"]).unwrap();
    assert_eq!(amount_parts(&transaction), Some((30, 1)));
}

#[test]
fn a_row_without_fields_has_no_type() {
    assert_eq!(read(&[]).unwrap_err(), RecordError::MissingType);
}

#[test]
fn an_unknown_type_is_reported() {
    assert_eq!(read(&["refund", "1", "1", "1.0"]).unwrap_err(), RecordError::UnknownType);
    assert_eq!(read(&[""]).unwrap_err(), RecordError::UnknownType);
    assert_eq!(read(&["", "", "", ""]).unwrap_err(), RecordError::UnknownType);
}

#[test]
fn a_missing_client_is_reported() {
    assert_eq!(read(&["deposit"]).unwrap_err(), RecordError::MissingClient);
}

#[test]
fn an_invalid_client_is_reported() {
    assert_eq!(read(&["deposit", "one", "1", "1.0"]).unwrap_err(), RecordError::InvalidClient);
    assert_eq!(read(&["deposit", "65536", "1", "1.0"]).unwrap_err(), RecordError::InvalidClient);
    assert_eq!(read(&["deposit", "-1", "1", "1.0"]).unwrap_err(), RecordError::InvalidClient);
    assert_eq!(read(&["deposit", ""]).unwrap_err(), RecordError::InvalidClient);
    assert_eq!(read(&["deposit", " 1", "1", "1.0"]).unwrap_err(), RecordError::InvalidClient);
}

#[test]
fn a_missing_tx_is_reported() {
    assert_eq!(read(&["deposit", "1"]).unwrap_err(), RecordError::MissingTx);
}

#[test]
fn an_invalid_tx_is_reported() {
    assert_eq!(read(&["deposit", "1", "x", "1.0"]).unwrap_err(), RecordError::InvalidTx);
    assert_eq!(
        read(&["dispute", "1", "4294967296"]).unwrap_err(),
        RecordError::InvalidTx
    );
    assert_eq!(read(&["deposit", "1", "1.5", "1.0"]).unwrap_err(), RecordError::InvalidTx);
}

#[test]
fn a_missing_amount_is_reported() {
    assert_eq!(read(&["deposit", "1", "1"]).unwrap_err(), RecordError::MissingAmount);
    assert_eq!(read(&["withdrawal", "1", "1"]).unwrap_err(), RecordError::MissingAmount);
}

#[test]
fn an_invalid_amount_is_reported() {
    assert_eq!(read(&["deposit", "1", "1", ""]).unwrap_err(), RecordError::InvalidAmount);
    assert_eq!(read(&["deposit", "1", "1", "lots"]).unwrap_err(), RecordError::InvalidAmount);
    assert_eq!(read(&["withdrawal", "1", "1", "1.2.3"]).unwrap_err(), RecordError::InvalidAmount);
    assert_eq!(
        read(&["deposit", "1", "1", "79228162514264337593543950336"]).unwrap_err(),
        RecordError::InvalidAmount
    );
}

#[test]
fn the_first_fault_of_a_row_is_reported() {
    assert_eq!(read(&["refund", "x", "y", "z"]).unwrap_err(), RecordError::UnknownType);
    assert_eq!(read(&["deposit", "x", "y", "z"]).unwrap_err(), RecordError::InvalidClient);
    assert_eq!(read(&["deposit", "1", "y", "z"]).unwrap_err(), RecordError::InvalidTx);
    assert_eq!(read(&["deposit", "x"]).unwrap_err(), RecordError::InvalidClient);
}
