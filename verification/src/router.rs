//! The transaction router for one account: the admission checks and the five
//! handlers, each proved to compute the state that the rules give.

use crate::amount::decimal_add;
use crate::amount::decimal_le;
use crate::amount::decimal_sub;
use crate::model::ClientAccount;
use crate::model::InternalTransaction;
use crate::model::ReadTransaction;
use crate::model::TransactionType;
use crate::rules::Outcome;
use vstd::prelude::*;

verus! {

/// Takes the amount of a disputed transaction out of the held funds, locks
/// the account and ends the dispute.
pub fn process_chargeback(account: &mut ClientAccount, transaction: ReadTransaction) -> (outcome:
    Outcome)
    requires
        old(account)@.admits_chargeback(transaction.tx),
    ensures
        final(account)@ == old(account)@.chargeback(transaction.tx),
        outcome == old(account)@.settle_outcome(transaction.tx),
{
    if !account.disputes.contains(&transaction.tx) {
        return Outcome::NotDisputed;
    }
    let amount = match account.transactions.get(&transaction.tx) {
        Some(disputed) => disputed.amount,
        None => {
            return Outcome::MissingTransaction;
        },
    };
    account.held = decimal_sub(account.held, amount);
    account.locked = true;
    account.disputes.remove(&transaction.tx);
    account.completed_disputes.insert(transaction.tx);
    Outcome::Applied
}

/// Adds the amount to the available funds and enters the deposit in the
/// history.
pub fn process_deposit(account: &mut ClientAccount, transaction: ReadTransaction)
    requires
        old(account)@.admits_deposit(transaction@),
    ensures
        final(account)@ == old(account)@.deposit(transaction@),
{
    let amount = transaction.amount.unwrap();
    account.available = decimal_add(account.available, amount);
    account.transactions.insert(
        transaction.tx,
        InternalTransaction { amount, kind: transaction.kind },
    );
    assert(account@.transactions =~= old(account)@.deposit(transaction@).transactions);
}

/// Moves the amount of a known transaction from the available to the held
/// funds and puts the transaction under dispute.
pub fn process_dispute(account: &mut ClientAccount, transaction: ReadTransaction) -> (outcome:
    Outcome)
    requires
        old(account)@.admits_dispute(transaction.tx),
    ensures
        final(account)@ == old(account)@.dispute(transaction.tx),
        outcome == old(account)@.dispute_outcome(transaction.tx),
{
    let amount = match account.transactions.get(&transaction.tx) {
        Some(reference) => reference.amount,
        None => {
            return Outcome::UnknownTransaction;
        },
    };
    if account.disputes.contains(&transaction.tx) {
        return Outcome::AlreadyDisputed;
    }
    if account.completed_disputes.contains(&transaction.tx) {
        return Outcome::DisputeCompleted;
    }
    account.held = decimal_add(account.held, amount);
    account.available = decimal_sub(account.available, amount);
    account.disputes.insert(transaction.tx);
    Outcome::Applied
}

/// Moves the amount of a disputed transaction back from the held to the
/// available funds and ends the dispute.
pub fn process_resolve(account: &mut ClientAccount, transaction: ReadTransaction) -> (outcome:
    Outcome)
    requires
        old(account)@.admits_resolve(transaction.tx),
    ensures
        final(account)@ == old(account)@.resolve(transaction.tx),
        outcome == old(account)@.settle_outcome(transaction.tx),
{
    if !account.disputes.contains(&transaction.tx) {
        return Outcome::NotDisputed;
    }
    let amount = match account.transactions.get(&transaction.tx) {
        Some(reference) => reference.amount,
        None => {
            return Outcome::MissingTransaction;
        },
    };
    account.held = decimal_sub(account.held, amount);
    account.available = decimal_add(account.available, amount);
    account.disputes.remove(&transaction.tx);
    account.completed_disputes.insert(transaction.tx);
    Outcome::Applied
}

/// Takes the amount from the available funds, if they cover it, and enters
/// the withdrawal in the history. A withdrawal that is not covered leaves no
/// trace, so it can never be disputed.
pub fn process_withdrawal(account: &mut ClientAccount, transaction: ReadTransaction) -> (outcome:
    Outcome)
    requires
        old(account)@.admits_withdrawal(transaction@),
    ensures
        final(account)@ == old(account)@.withdraw(transaction@),
        outcome == old(account)@.withdraw_outcome(transaction@),
{
    let amount = transaction.amount.unwrap();
    if decimal_le(amount, account.available) {
        account.available = decimal_sub(account.available, amount);
        account.transactions.insert(
            transaction.tx,
            InternalTransaction { amount, kind: transaction.kind },
        );
        assert(account@.transactions =~= old(account)@.withdraw(transaction@).transactions);
        Outcome::Applied
    } else {
        Outcome::InsufficientFunds
    }
}

impl ClientAccount {
    /// Whether the account can take the transaction: see
    /// [`AccountState::admits`](crate::model::AccountState::admits).
    pub fn admits(&self, transaction: &ReadTransaction) -> (admitted: bool)
        ensures
            admitted == self@.admits(transaction@),
    {
        if self.locked {
            return true;
        }
        let known = self.transactions.get(&transaction.tx);
        match transaction.kind {
            TransactionType::Deposit => match transaction.amount {
                Some(amount) => known.is_some() || self.available.can_add(&amount),
                None => known.is_some(),
            },
            TransactionType::Withdrawal => match transaction.amount {
                Some(amount) => known.is_some() || !decimal_le(amount, self.available)
                    || self.available.can_subtract(&amount),
                None => known.is_some(),
            },
            TransactionType::Dispute => match known {
                Some(reference) => self.disputes.contains(&transaction.tx)
                    || self.completed_disputes.contains(&transaction.tx) || (self.held.can_add(
                    &reference.amount,
                ) && self.available.can_subtract(&reference.amount)),
                None => true,
            },
            TransactionType::Resolve => match known {
                Some(reference) => !self.disputes.contains(&transaction.tx) || (
                self.held.can_subtract(&reference.amount) && self.available.can_add(
                    &reference.amount,
                )),
                None => true,
            },
            TransactionType::Chargeback => match known {
                Some(reference) => !self.disputes.contains(&transaction.tx)
                    || self.held.can_subtract(&reference.amount),
                None => true,
            },
        }
    }

    /// Routes one transaction: a locked account takes nothing, a deposit or
    /// withdrawal must not repeat a transaction number, and what is admitted
    /// goes to the handler of its kind.
    pub fn apply(&mut self, transaction: ReadTransaction) -> (outcome: Outcome)
        requires
            old(self)@.admits(transaction@),
        ensures
            final(self)@ == old(self)@.apply(transaction@),
            outcome == old(self)@.outcome(transaction@),
            old(self)@.locked ==> final(self)@ == old(self)@,
            !(outcome is Applied) ==> final(self)@ == old(self)@,
    {
        if self.locked {
            return Outcome::AccountLocked;
        }
        if (transaction.kind == TransactionType::Withdrawal || transaction.kind
            == TransactionType::Deposit) && self.transactions.contains_key(&transaction.tx) {
            return Outcome::DuplicateTransaction;
        }
        match transaction.kind {
            TransactionType::Chargeback => process_chargeback(self, transaction),
            TransactionType::Deposit => {
                process_deposit(self, transaction);
                Outcome::Applied
            },
            TransactionType::Dispute => process_dispute(self, transaction),
            TransactionType::Resolve => process_resolve(self, transaction),
            TransactionType::Withdrawal => process_withdrawal(self, transaction),
        }
    }
}

} // verus!
