//! The data of the ledger: transaction kinds, transactions as they are read
//! and as they are kept, and the account of one client. Each type has a view,
//! the mathematical value that the rules of the ledger speak of.

use crate::amount::Amount;
use crate::amount::Quantity;
use crate::amount::MAX_SCALE;
use crate::text::lowercase_of;
use crate::text::same_text;
use crate::text::to_lowercase;
use std::collections::HashMap;
use std::collections::HashSet;
use vstd::prelude::*;

verus! {

/// The five kinds of transaction.
#[derive(Clone, Copy, Debug, Hash, PartialEq, Eq, Structural)]
pub enum TransactionType {
    Chargeback,
    Deposit,
    Dispute,
    Resolve,
    Withdrawal,
}

/// The kind that a word in lower case names.
pub open spec fn kind_of_lowercase(lowered: Seq<char>) -> Result<TransactionType, ()> {
    if lowered == "chargeback"@ {
        Ok(TransactionType::Chargeback)
    } else if lowered == "deposit"@ {
        Ok(TransactionType::Deposit)
    } else if lowered == "dispute"@ {
        Ok(TransactionType::Dispute)
    } else if lowered == "resolve"@ {
        Ok(TransactionType::Resolve)
    } else if lowered == "withdrawal"@ {
        Ok(TransactionType::Withdrawal)
    } else {
        Err(())
    }
}

impl TransactionType {
    /// Whether a transaction of this kind carries an amount of its own and is
    /// kept in the history of the account: deposits and withdrawals.
    pub open spec fn moves_funds(self) -> bool {
        self is Deposit || self is Withdrawal
    }

    /// The kind named by a word that is already in lower case.
    pub fn from_lowercase(lowered: &str) -> (kind: Result<TransactionType, ()>)
        ensures
            kind == kind_of_lowercase(lowered@),
    {
        if same_text(lowered, "chargeback") {
            Ok(TransactionType::Chargeback)
        } else if same_text(lowered, "deposit") {
            Ok(TransactionType::Deposit)
        } else if same_text(lowered, "dispute") {
            Ok(TransactionType::Dispute)
        } else if same_text(lowered, "resolve") {
            Ok(TransactionType::Resolve)
        } else if same_text(lowered, "withdrawal") {
            Ok(TransactionType::Withdrawal)
        } else {
            Err(())
        }
    }

    /// The kind named by a word, whatever its case.
    pub fn from_str(input: &str) -> (kind: Result<TransactionType, ()>)
        ensures
            kind == kind_of_lowercase(lowercase_of(input@)),
    {
        let lowered = to_lowercase(input);
        TransactionType::from_lowercase(lowered.as_str())
    }
}

/// What the history of an account keeps of an accepted deposit or withdrawal.
pub struct Posting {
    pub kind: TransactionType,
    pub amount: Quantity,
}

/// An accepted deposit or withdrawal, as the account keeps it.
#[derive(Clone, Copy, Debug, PartialEq)]
pub struct InternalTransaction {
    pub kind: TransactionType,
    pub amount: Amount,
}

impl View for InternalTransaction {
    type V = Posting;

    open spec fn view(&self) -> Posting {
        Posting { kind: self.kind, amount: self.amount@ }
    }
}

/// The mathematical content of a [`ReadTransaction`].
pub struct Request {
    pub kind: TransactionType,
    pub client: u16,
    pub tx: u32,
    pub amount: Option<Quantity>,
}

impl Request {
    /// A deposit or a withdrawal names its amount.
    pub open spec fn complete(self) -> bool {
        self.kind.moves_funds() ==> self.amount is Some
    }

    /// The amount, if any, has a scale within range.
    pub open spec fn valid(self) -> bool {
        self.amount matches Some(amount) ==> amount.scale <= MAX_SCALE
    }
}

/// A transaction as it was read: its kind, the client and the transaction
/// it names and, for a deposit or a withdrawal, the amount.
#[derive(Clone, Copy, Debug, PartialEq)]
pub struct ReadTransaction {
    pub kind: TransactionType,
    pub client: u16,
    pub tx: u32,
    pub amount: Option<Amount>,
}

impl View for ReadTransaction {
    type V = Request;

    open spec fn view(&self) -> Request {
        Request {
            kind: self.kind,
            client: self.client,
            tx: self.tx,
            amount: match self.amount {
                Some(amount) => Some(amount@),
                None => None,
            },
        }
    }
}

impl ReadTransaction {
    /// The transaction with these parts, if it is complete: a deposit or a
    /// withdrawal needs an amount, the other kinds may go without.
    pub fn new(kind: TransactionType, client: u16, tx: u32, amount: Option<Amount>) -> (transaction:
        Option<ReadTransaction>)
        ensures
            match transaction {
                Some(read) => read == (ReadTransaction { kind, client, tx, amount })
                    && read@.complete(),
                None => kind.moves_funds() && amount is None,
            },
    {
        let funds = kind == TransactionType::Deposit || kind == TransactionType::Withdrawal;
        if funds && amount.is_none() {
            None
        } else {
            Some(ReadTransaction { kind, client, tx, amount })
        }
    }
}

/// The mathematical content of a [`ClientAccount`].
pub struct AccountState {
    pub client: u16,
    pub available: Quantity,
    pub held: Quantity,
    pub locked: bool,
    pub transactions: Map<u32, Posting>,
    pub disputes: Set<u32>,
    pub completed_disputes: Set<u32>,
}

/// The account of one client: the funds that are available and those held
/// under dispute, whether the account is locked, the accepted deposits and
/// withdrawals, the transactions under dispute and those whose dispute is
/// over.
#[derive(Debug)]
pub struct ClientAccount {
    pub client: u16,
    pub available: Amount,
    pub held: Amount,
    pub locked: bool,
    pub disputes: HashSet<u32>,
    pub completed_disputes: HashSet<u32>,
    pub transactions: HashMap<u32, InternalTransaction>,
}

impl View for ClientAccount {
    type V = AccountState;

    open spec fn view(&self) -> AccountState {
        AccountState {
            client: self.client,
            available: self.available@,
            held: self.held@,
            locked: self.locked,
            transactions: self.transactions@.map_values(|kept: InternalTransaction| kept@),
            disputes: self.disputes@,
            completed_disputes: self.completed_disputes@,
        }
    }
}

impl ClientAccount {
    /// The account of a client that no transaction has touched yet: nothing
    /// available, nothing held, not locked.
    pub fn new(client: u16) -> (account: ClientAccount)
        ensures
            account@ == AccountState::fresh(client),
    {
        let account = ClientAccount {
            client,
            available: Amount::new(0, 4),
            held: Amount::new(0, 4),
            locked: false,
            disputes: HashSet::new(),
            completed_disputes: HashSet::new(),
            transactions: HashMap::new(),
        };
        assert(account@.transactions =~= Map::empty());
        account
    }
}

impl AccountState {
    /// The state of an account that no transaction has touched yet.
    pub open spec fn fresh(client: u16) -> AccountState {
        AccountState {
            client,
            available: Quantity { mantissa: 0, scale: 4 },
            held: Quantity { mantissa: 0, scale: 4 },
            locked: false,
            transactions: Map::empty(),
            disputes: Set::empty(),
            completed_disputes: Set::empty(),
        }
    }
}

} // verus!
