//! Reading a transaction out of the fields of one row: the kind, the client,
//! the transaction number and, where there is one, the amount.

use crate::amount::decimal_from_str;
use crate::amount::decimal_of_text;
use crate::amount::Quantity;
use crate::model::kind_of_lowercase;
use crate::model::ReadTransaction;
use crate::model::Request;
use crate::model::TransactionType;
use crate::text::lowercase_of;
use crate::text::parse_u16;
use crate::text::parse_u32;
use crate::text::unsigned_of_text;
use vstd::prelude::*;

verus! {

/// Why a row holds no transaction.
#[derive(Clone, Copy, Debug, Hash, PartialEq, Eq, Structural)]
pub enum RecordError {
    /// The row has no field at all.
    MissingType,
    /// The first field names none of the five kinds.
    UnknownType,
    /// The row ends before the client.
    MissingClient,
    /// The second field is no 16-bit unsigned integer.
    InvalidClient,
    /// The row ends before the transaction number.
    MissingTx,
    /// The third field is no 32-bit unsigned integer.
    InvalidTx,
    /// A deposit or withdrawal whose row ends before the amount.
    MissingAmount,
    /// A deposit or withdrawal whose fourth field is no decimal number.
    InvalidAmount,
}

/// The texts of the fields of a row.
pub open spec fn fields_of(record: Seq<String>) -> Seq<Seq<char>> {
    record.map_values(|field: String| field@)
}

/// The amount that the fourth field of a row gives, if the row has one and
/// it reads as a decimal number.
pub open spec fn amount_of_fields(fields: Seq<Seq<char>>) -> Option<Quantity> {
    if fields.len() > 3 {
        match decimal_of_text(fields[3]) {
            Some((mantissa, scale)) => Some(Quantity { mantissa, scale }),
            None => None,
        }
    } else {
        None
    }
}

/// The transaction that the fields of a row denote, or the first reason why
/// they denote none. The fields are read in order: kind, client, transaction
/// number, amount. A deposit or withdrawal needs an amount; for the other
/// kinds a fourth field that is no number counts as absent.
pub open spec fn request_of_fields(fields: Seq<Seq<char>>) -> Result<Request, RecordError> {
    if fields.len() == 0 {
        Err(RecordError::MissingType)
    } else if kind_of_lowercase(lowercase_of(fields[0])) is Err {
        Err(RecordError::UnknownType)
    } else if fields.len() == 1 {
        Err(RecordError::MissingClient)
    } else if unsigned_of_text(fields[1], u16::MAX as nat) is None {
        Err(RecordError::InvalidClient)
    } else if fields.len() == 2 {
        Err(RecordError::MissingTx)
    } else if unsigned_of_text(fields[2], u32::MAX as nat) is None {
        Err(RecordError::InvalidTx)
    } else {
        let kind = kind_of_lowercase(lowercase_of(fields[0]))->Ok_0;
        let amount = amount_of_fields(fields);
        if kind.moves_funds() && amount is None {
            if fields.len() == 3 {
                Err(RecordError::MissingAmount)
            } else {
                Err(RecordError::InvalidAmount)
            }
        } else {
            Ok(
                Request {
                    kind,
                    client: unsigned_of_text(fields[1], u16::MAX as nat)->0 as u16,
                    tx: unsigned_of_text(fields[2], u32::MAX as nat)->0 as u32,
                    amount,
                },
            )
        }
    }
}

/// Reads the transaction that a row denotes.
pub fn deserialize_transaction(record: &Vec<String>) -> (transaction: Result<
    ReadTransaction,
    RecordError,
>)
    ensures
        match transaction {
            Ok(read) => request_of_fields(fields_of(record@)) == Ok::<Request, RecordError>(read@),
            Err(reason) => request_of_fields(fields_of(record@)) == Err::<Request, RecordError>(
                reason,
            ),
        },
{
    let ghost fields = fields_of(record@);
    if record.len() == 0 {
        return Err(RecordError::MissingType);
    }
    assert(fields[0] == record@[0]@);
    let kind = match TransactionType::from_str(record[0].as_str()) {
        Ok(kind) => kind,
        Err(_) => {
            return Err(RecordError::UnknownType);
        },
    };
    if record.len() == 1 {
        return Err(RecordError::MissingClient);
    }
    assert(fields[1] == record@[1]@);
    let client = match parse_u16(record[1].as_str()) {
        Some(client) => client,
        None => {
            return Err(RecordError::InvalidClient);
        },
    };
    if record.len() == 2 {
        return Err(RecordError::MissingTx);
    }
    assert(fields[2] == record@[2]@);
    let tx = match parse_u32(record[2].as_str()) {
        Some(tx) => tx,
        None => {
            return Err(RecordError::InvalidTx);
        },
    };
    let amount = if record.len() == 3 {
        None
    } else {
        assert(fields[3] == record@[3]@);
        decimal_from_str(record[3].as_str())
    };
    match ReadTransaction::new(kind, client, tx, amount) {
        Some(transaction) => Ok(transaction),
        None => if record.len() == 3 {
            Err(RecordError::MissingAmount)
        } else {
            Err(RecordError::InvalidAmount)
        },
    }
}

} // verus!
