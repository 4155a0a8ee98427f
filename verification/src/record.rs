//! Normalizing raw input records: the record-kind column becomes a closed
//! enum, the amount column a fixed-point subunit count.

use vstd::prelude::*;
use vstd::string::StrSliceExecFns;

use crate::amount::{spec_to_subunit, to_subunit};
use crate::state::{TransactionMessage, TransactionType};

verus! {

/// Why a raw record could not be normalized. Either failure is fatal to the
/// whole run in the surrounding program, never a per-record rejection.
#[derive(Clone, Copy, Debug, PartialEq, Eq, Structural)]
pub enum ParseError {
    UnknownTransactionType,
    InvalidAmount,
}

/// A raw input record, one row of the delimited input: the kind as text,
/// the client and transaction ids, and the amount as a decimal string
/// (empty for dispute/resolve/chargeback rows).
#[derive(Clone, Debug)]
pub struct TxInputRecord {
    pub tx_type: String,
    pub client: u16,
    pub tx: u32,
    pub amount: String,
}

/// The record kind named by the kind column: an exact, case-sensitive match
/// against the five known words.
pub open spec fn spec_transaction_type_of(s: Seq<char>) -> Option<TransactionType> {
    if s == "withdraw"@ {
        Some(TransactionType::WITHDRAWAL)
    } else if s == "deposit"@ {
        Some(TransactionType::DEPOSIT)
    } else if s == "dispute"@ {
        Some(TransactionType::DISPUTE)
    } else if s == "resolve"@ {
        Some(TransactionType::RESOLVE)
    } else if s == "chargeback"@ {
        Some(TransactionType::CHARGEBACK)
    } else {
        None
    }
}

/// The canonical message a raw record normalizes to: an empty amount column
/// counts as zero, a non-empty one must parse as a fixed-point amount, and
/// the kind column must name one of the five record kinds.
pub open spec fn spec_record_to_message(
    tx_type: Seq<char>,
    client: u16,
    tx: u32,
    amount: Seq<char>,
    time: u32,
) -> Result<TransactionMessage, ParseError> {
    let converted = if amount.len() == 0 {
        Some(0u64)
    } else {
        spec_to_subunit(amount)
    };
    match converted {
        None => Err(ParseError::InvalidAmount),
        Some(a) => match spec_transaction_type_of(tx_type) {
            None => Err(ParseError::UnknownTransactionType),
            Some(t) => Ok(
                TransactionMessage { tx_time: time, tx, tx_type: t, client, amount: a },
            ),
        },
    }
}

/// String equality by contents.
fn str_eq(a: &str, b: &str) -> (r: bool)
    ensures
        r == (a@ == b@),
{
    let a_owned = a.to_owned();
    let b_owned = b.to_owned();
    a_owned == b_owned
}

impl TransactionType {
    /// Parse the kind column of a record; any word but the five known ones
    /// is reported as an unknown transaction type.
    pub fn from_str(s: &str) -> (r: Result<TransactionType, ParseError>)
        ensures
            r == match spec_transaction_type_of(s@) {
                Some(t) => Result::<TransactionType, ParseError>::Ok(t),
                None => Result::<TransactionType, ParseError>::Err(
                    ParseError::UnknownTransactionType,
                ),
            },
    {
        if str_eq(s, "withdraw") {
            Ok(TransactionType::WITHDRAWAL)
        } else if str_eq(s, "deposit") {
            Ok(TransactionType::DEPOSIT)
        } else if str_eq(s, "dispute") {
            Ok(TransactionType::DISPUTE)
        } else if str_eq(s, "resolve") {
            Ok(TransactionType::RESOLVE)
        } else if str_eq(s, "chargeback") {
            Ok(TransactionType::CHARGEBACK)
        } else {
            Err(ParseError::UnknownTransactionType)
        }
    }
}

/// Normalize one raw record, arrived at position `time` in the stream, into
/// the canonical transaction message the engine consumes.
pub fn input_record_to_transaction(record: &TxInputRecord, time: u32) -> (r: Result<
    TransactionMessage,
    ParseError,
>)
    ensures
        r == spec_record_to_message(record.tx_type@, record.client, record.tx, record.amount@, time),
{
    let converted_amount: u64;
    if record.amount.as_str().unicode_len() > 0 {
        match to_subunit(record.amount.as_str()) {
            Some(a) => {
                converted_amount = a;
            },
            None => {
                return Err(ParseError::InvalidAmount);
            },
        }
    } else {
        converted_amount = 0;
    }
    match TransactionType::from_str(record.tx_type.as_str()) {
        Ok(t) => Ok(
            TransactionMessage {
                tx_time: time,
                tx: record.tx,
                tx_type: t,
                client: record.client,
                amount: converted_amount,
            },
        ),
        Err(e) => Err(e),
    }
}

} // verus!
