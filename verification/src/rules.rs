//! The rules of the ledger, as functions on the state of one account.
//!
//! A transaction is first admitted or turned away (a locked account takes
//! nothing, a deposit or withdrawal must carry a transaction number that the
//! account has not seen), then handled according to its kind. Every function
//! here is total: a transaction that is turned away leaves the state as it
//! is, and [`AccountState::outcome`] says why.

use crate::amount::Quantity;
use crate::amount::MAX_SCALE;
use crate::model::AccountState;
use crate::model::Posting;
use crate::model::Request;
use crate::model::TransactionType;
use vstd::prelude::*;

verus! {

/// How a transaction fared.
#[derive(Clone, Copy, Debug, Hash, PartialEq, Eq, Structural)]
pub enum Outcome {
    /// The transaction changed the account.
    Applied,
    /// The account is locked and takes no transaction.
    AccountLocked,
    /// A deposit or withdrawal with a transaction number already in the
    /// history of the account.
    DuplicateTransaction,
    /// A withdrawal of more than is available.
    InsufficientFunds,
    /// A dispute of a transaction that the account does not know.
    UnknownTransaction,
    /// A dispute of a transaction that is under dispute already.
    AlreadyDisputed,
    /// A dispute of a transaction whose dispute is over.
    DisputeCompleted,
    /// A resolve or chargeback of a transaction that is not under dispute.
    NotDisputed,
    /// A resolve or chargeback of a transaction that is under dispute but
    /// missing from the history: the account is inconsistent.
    MissingTransaction,
}

/// How serious it is that a transaction was turned away.
#[derive(Clone, Copy, Debug, Hash, PartialEq, Eq, Structural)]
pub enum Severity {
    /// A rule of the ledger that ordinary input runs into.
    Informational,
    /// A rule whose violation suggests bad input.
    Warning,
    /// A state that a consistent account never reaches.
    Error,
}

impl Outcome {
    /// The severity of a rejection; `None` for a transaction that was applied.
    pub open spec fn spec_severity(self) -> Option<Severity> {
        match self {
            Outcome::Applied => None,
            Outcome::AccountLocked => Some(Severity::Informational),
            Outcome::DuplicateTransaction => Some(Severity::Informational),
            Outcome::InsufficientFunds => Some(Severity::Informational),
            Outcome::UnknownTransaction => Some(Severity::Informational),
            Outcome::NotDisputed => Some(Severity::Informational),
            Outcome::AlreadyDisputed => Some(Severity::Warning),
            Outcome::DisputeCompleted => Some(Severity::Warning),
            Outcome::MissingTransaction => Some(Severity::Error),
        }
    }

    /// The severity of a rejection; `None` for a transaction that was applied.
    #[verifier::when_used_as_spec(spec_severity)]
    pub fn severity(self) -> (severity: Option<Severity>)
        ensures
            severity == self.spec_severity(),
    {
        match self {
            Outcome::Applied => None,
            Outcome::AccountLocked
            | Outcome::DuplicateTransaction
            | Outcome::InsufficientFunds
            | Outcome::UnknownTransaction
            | Outcome::NotDisputed => Some(Severity::Informational),
            Outcome::AlreadyDisputed | Outcome::DisputeCompleted => Some(Severity::Warning),
            Outcome::MissingTransaction => Some(Severity::Error),
        }
    }
}

impl AccountState {
    /// Every amount in the state has a scale within range.
    pub open spec fn valid(self) -> bool {
        &&& self.available.scale <= MAX_SCALE
        &&& self.held.scale <= MAX_SCALE
        &&& forall|tx: u32| #[trigger]
            self.transactions.contains_key(tx) ==> self.transactions[tx].amount.scale <= MAX_SCALE
    }

    /// The dispute sets speak of known transactions only, and no transaction
    /// is both under dispute and past it.
    pub open spec fn consistent(self) -> bool {
        &&& forall|tx: u32| #[trigger] self.disputes.contains(tx) ==> self.transactions.contains_key(tx)
        &&& forall|tx: u32| #[trigger]
            self.completed_disputes.contains(tx) ==> self.transactions.contains_key(tx)
        &&& forall|tx: u32| #[trigger]
            self.completed_disputes.contains(tx) ==> !self.disputes.contains(tx)
    }

    /// The funds of the account, available and held together, counted in
    /// units of `10^-28`.
    pub open spec fn total_value(self) -> int {
        self.available.value() + self.held.value()
    }

    /// The amount of a transaction in the history.
    pub open spec fn amount_of(self, tx: u32) -> Quantity {
        self.transactions[tx].amount
    }

    /// The state with `request` entered in the history.
    pub open spec fn recorded(self, request: Request) -> AccountState {
        AccountState {
            transactions: self.transactions.insert(
                request.tx,
                Posting { kind: request.kind, amount: request.amount->0 },
            ),
            ..self
        }
    }

    /// A deposit adds its amount to the available funds and enters the
    /// history.
    pub open spec fn deposit(self, request: Request) -> AccountState {
        AccountState {
            available: self.available.plus(request.amount->0),
            ..self.recorded(request)
        }
    }

    /// Whether the available funds cover a withdrawal.
    pub open spec fn covers(self, request: Request) -> bool {
        request.amount->0.at_most(self.available)
    }

    /// A withdrawal that the available funds cover takes its amount from
    /// them and enters the history; any other changes nothing.
    pub open spec fn withdraw(self, request: Request) -> AccountState {
        if self.covers(request) {
            AccountState {
                available: self.available.minus(request.amount->0),
                ..self.recorded(request)
            }
        } else {
            self
        }
    }

    /// How a withdrawal fares.
    pub open spec fn withdraw_outcome(self, request: Request) -> Outcome {
        if self.covers(request) {
            Outcome::Applied
        } else {
            Outcome::InsufficientFunds
        }
    }

    /// How a dispute of `tx` fares.
    pub open spec fn dispute_outcome(self, tx: u32) -> Outcome {
        if !self.transactions.contains_key(tx) {
            Outcome::UnknownTransaction
        } else if self.disputes.contains(tx) {
            Outcome::AlreadyDisputed
        } else if self.completed_disputes.contains(tx) {
            Outcome::DisputeCompleted
        } else {
            Outcome::Applied
        }
    }

    /// A dispute of a known transaction that is neither under dispute nor
    /// past it moves the amount of that transaction from the available to
    /// the held funds and puts the transaction under dispute; any other
    /// changes nothing.
    pub open spec fn dispute(self, tx: u32) -> AccountState {
        if self.dispute_outcome(tx) is Applied {
            AccountState {
                held: self.held.plus(self.amount_of(tx)),
                available: self.available.minus(self.amount_of(tx)),
                disputes: self.disputes.insert(tx),
                ..self
            }
        } else {
            self
        }
    }

    /// How a resolve or a chargeback of `tx` fares.
    pub open spec fn settle_outcome(self, tx: u32) -> Outcome {
        if !self.disputes.contains(tx) {
            Outcome::NotDisputed
        } else if !self.transactions.contains_key(tx) {
            Outcome::MissingTransaction
        } else {
            Outcome::Applied
        }
    }

    /// A resolve of a transaction under dispute moves its amount back from
    /// the held to the available funds and ends the dispute; any other
    /// changes nothing.
    pub open spec fn resolve(self, tx: u32) -> AccountState {
        if self.settle_outcome(tx) is Applied {
            AccountState {
                held: self.held.minus(self.amount_of(tx)),
                available: self.available.plus(self.amount_of(tx)),
                disputes: self.disputes.remove(tx),
                completed_disputes: self.completed_disputes.insert(tx),
                ..self
            }
        } else {
            self
        }
    }

    /// A chargeback of a transaction under dispute takes its amount out of
    /// the held funds, locks the account and ends the dispute; any other
    /// changes nothing.
    pub open spec fn chargeback(self, tx: u32) -> AccountState {
        if self.settle_outcome(tx) is Applied {
            AccountState {
                held: self.held.minus(self.amount_of(tx)),
                locked: true,
                disputes: self.disputes.remove(tx),
                completed_disputes: self.completed_disputes.insert(tx),
                ..self
            }
        } else {
            self
        }
    }

    /// Whether `request` repeats a transaction number of the history. Only
    /// deposits and withdrawals can: the other kinds name an earlier
    /// transaction on purpose.
    pub open spec fn duplicates(self, request: Request) -> bool {
        request.kind.moves_funds() && self.transactions.contains_key(request.tx)
    }

    /// How a transaction fares: turned away by a locked account, turned away
    /// as a duplicate, or handled according to its kind.
    pub open spec fn outcome(self, request: Request) -> Outcome {
        if self.locked {
            Outcome::AccountLocked
        } else if self.duplicates(request) {
            Outcome::DuplicateTransaction
        } else {
            match request.kind {
                TransactionType::Chargeback => self.settle_outcome(request.tx),
                TransactionType::Deposit => Outcome::Applied,
                TransactionType::Dispute => self.dispute_outcome(request.tx),
                TransactionType::Resolve => self.settle_outcome(request.tx),
                TransactionType::Withdrawal => self.withdraw_outcome(request),
            }
        }
    }

    /// The state after a transaction.
    pub open spec fn apply(self, request: Request) -> AccountState {
        if self.locked || self.duplicates(request) {
            self
        } else {
            match request.kind {
                TransactionType::Chargeback => self.chargeback(request.tx),
                TransactionType::Deposit => self.deposit(request),
                TransactionType::Dispute => self.dispute(request.tx),
                TransactionType::Resolve => self.resolve(request.tx),
                TransactionType::Withdrawal => self.withdraw(request),
            }
        }
    }

    /// Whether a deposit names its amount and the new available funds can be
    /// represented.
    pub open spec fn admits_deposit(self, request: Request) -> bool {
        request.amount matches Some(amount) && self.available.can_add(amount)
    }

    /// Whether a withdrawal names its amount and, if it is covered, the new
    /// available funds can be represented.
    pub open spec fn admits_withdrawal(self, request: Request) -> bool {
        request.amount matches Some(amount) && (self.covers(request)
            ==> self.available.can_subtract(amount))
    }

    /// Whether the funds after a dispute of `tx` can be represented.
    pub open spec fn admits_dispute(self, tx: u32) -> bool {
        self.dispute_outcome(tx) is Applied ==> self.held.can_add(self.amount_of(tx))
            && self.available.can_subtract(self.amount_of(tx))
    }

    /// Whether the funds after a resolve of `tx` can be represented.
    pub open spec fn admits_resolve(self, tx: u32) -> bool {
        self.settle_outcome(tx) is Applied ==> self.held.can_subtract(self.amount_of(tx))
            && self.available.can_add(self.amount_of(tx))
    }

    /// Whether the funds after a chargeback of `tx` can be represented.
    pub open spec fn admits_chargeback(self, tx: u32) -> bool {
        self.settle_outcome(tx) is Applied ==> self.held.can_subtract(self.amount_of(tx))
    }

    /// Whether the account can take `request`: a deposit or withdrawal names
    /// its amount, and every balance that the transaction writes can be
    /// represented. A transaction that is turned away writes none.
    pub open spec fn admits(self, request: Request) -> bool {
        if self.locked || self.duplicates(request) {
            true
        } else {
            match request.kind {
                TransactionType::Chargeback => self.admits_chargeback(request.tx),
                TransactionType::Deposit => self.admits_deposit(request),
                TransactionType::Dispute => self.admits_dispute(request.tx),
                TransactionType::Resolve => self.admits_resolve(request.tx),
                TransactionType::Withdrawal => self.admits_withdrawal(request),
            }
        }
    }
}

} // verus!
