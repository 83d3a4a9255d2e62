//! The ledger: the accounts of all clients, in the order in which the
//! clients first appeared.
//!
//! A transaction goes to the account of its client, which is opened on the
//! first transaction that names the client. Accounts are never removed.

use crate::amount::Amount;
use crate::amount::Quantity;
use crate::model::AccountState;
use crate::model::ClientAccount;
use crate::model::ReadTransaction;
use crate::model::Request;
use crate::record::deserialize_transaction;
use crate::record::fields_of;
use crate::record::request_of_fields;
use crate::record::RecordError;
use crate::rules::Outcome;
use std::collections::HashMap;
use vstd::prelude::*;

verus! {

/// Whether no two accounts belong to the same client.
pub open spec fn distinct_clients(accounts: Seq<AccountState>) -> bool {
    forall|i: int, j: int|
        0 <= i < accounts.len() && 0 <= j < accounts.len() && i != j ==> (#[trigger] accounts[i]).client
            != (#[trigger] accounts[j]).client
}

/// Whether `client` has an account.
pub open spec fn knows(accounts: Seq<AccountState>, client: u16) -> bool {
    exists|i: int| 0 <= i < accounts.len() && (#[trigger] accounts[i]).client == client
}

/// Whether `place` is where the first account of `client` stands.
pub open spec fn is_place_of(accounts: Seq<AccountState>, client: u16, place: int) -> bool {
    &&& 0 <= place < accounts.len()
    &&& accounts[place].client == client
    &&& forall|i: int| 0 <= i < place ==> (#[trigger] accounts[i]).client != client
}

/// The place of the account of `client`.
pub open spec fn place_of(accounts: Seq<AccountState>, client: u16) -> int {
    choose|place: int| is_place_of(accounts, client, place)
}

/// The account that a transaction of `client` meets: the client's own, or a
/// fresh one if the client has none yet.
pub open spec fn account_for(accounts: Seq<AccountState>, client: u16) -> AccountState {
    if knows(accounts, client) {
        accounts[place_of(accounts, client)]
    } else {
        AccountState::fresh(client)
    }
}

/// The accounts once `client` has one: a client that had none gets a fresh
/// account behind all others.
pub open spec fn opened(accounts: Seq<AccountState>, client: u16) -> Seq<AccountState> {
    if knows(accounts, client) {
        accounts
    } else {
        accounts.push(AccountState::fresh(client))
    }
}

/// Whether the account of the client can take the transaction.
pub open spec fn admits(accounts: Seq<AccountState>, request: Request) -> bool {
    account_for(accounts, request.client).admits(request)
}

/// How the transaction fares at the account of its client.
pub open spec fn outcome_of(accounts: Seq<AccountState>, request: Request) -> Outcome {
    account_for(accounts, request.client).outcome(request)
}

/// The accounts after a transaction: the account of its client is opened if
/// need be, and the transaction is routed to it.
pub open spec fn applied(accounts: Seq<AccountState>, request: Request) -> Seq<AccountState> {
    let ready = opened(accounts, request.client);
    ready.update(
        place_of(ready, request.client),
        account_for(accounts, request.client).apply(request),
    )
}

/// An account has one first place only.
pub proof fn lemma_place_of(accounts: Seq<AccountState>, client: u16, place: int)
    requires
        is_place_of(accounts, client, place),
    ensures
        knows(accounts, client),
        place_of(accounts, client) == place,
{
    let chosen = place_of(accounts, client);
    assert(accounts[place].client == client);
    assert(is_place_of(accounts, client, chosen));
    if chosen < place {
        assert(accounts[chosen].client != client);
    } else if place < chosen {
        assert(accounts[place].client != client);
    }
}

/// A client that has an account has a first place.
pub proof fn lemma_known_has_place(accounts: Seq<AccountState>, client: u16)
    requires
        knows(accounts, client),
    ensures
        is_place_of(accounts, client, place_of(accounts, client)),
    decreases accounts.len(),
{
    let some = choose|i: int| 0 <= i < accounts.len() && (#[trigger] accounts[i]).client == client;
    let shorter = accounts.take(some);
    if knows(shorter, client) {
        lemma_known_has_place(shorter, client);
        let place = place_of(shorter, client);
        assert(accounts[place] == shorter[place]);
        assert forall|i: int| 0 <= i < place implies (#[trigger] accounts[i]).client != client by {
            assert(accounts[i] == shorter[i]);
        }
        assert(is_place_of(accounts, client, place));
    } else {
        assert forall|i: int| 0 <= i < some implies (#[trigger] accounts[i]).client != client by {
            assert(accounts[i] == shorter[i]);
        }
        assert(is_place_of(accounts, client, some));
    }
}

/// What one account shows at the end: the client, the funds available and
/// held, their total, and whether the account is locked.
#[derive(Clone, Copy, Debug)]
pub struct AccountSummary {
    pub client: u16,
    pub available: Amount,
    pub held: Amount,
    pub total: Amount,
    pub locked: bool,
}

/// The mathematical content of an [`AccountSummary`].
pub struct SummaryLine {
    pub client: u16,
    pub available: Quantity,
    pub held: Quantity,
    pub total: Quantity,
    pub locked: bool,
}

impl View for AccountSummary {
    type V = SummaryLine;

    open spec fn view(&self) -> SummaryLine {
        SummaryLine {
            client: self.client,
            available: self.available@,
            held: self.held@,
            total: self.total@,
            locked: self.locked,
        }
    }
}

impl AccountState {
    /// The summary of the account. The total is never stored; it is the sum
    /// of the available and the held funds.
    pub open spec fn summary(self) -> SummaryLine {
        SummaryLine {
            client: self.client,
            available: self.available,
            held: self.held,
            total: self.available.plus(self.held),
            locked: self.locked,
        }
    }

    /// Whether the total of the account can be represented.
    pub open spec fn summable(self) -> bool {
        self.available.can_add(self.held)
    }
}

impl ClientAccount {
    /// The summary of the account, where its total can be represented.
    pub fn summary(&self) -> (summary: Option<AccountSummary>)
        ensures
            match summary {
                Some(line) => self@.summable() && line@ == self@.summary(),
                None => !self@.summable(),
            },
    {
        match self.available.checked_add(&self.held) {
            Some(total) => Some(
                AccountSummary {
                    client: self.client,
                    available: self.available,
                    held: self.held,
                    total,
                    locked: self.locked,
                },
            ),
            None => None,
        }
    }
}

/// What became of one row.
#[derive(Clone, Copy, Debug, Hash, PartialEq, Eq, Structural)]
pub enum RecordOutcome {
    /// The row holds no transaction.
    Discarded(RecordError),
    /// The row holds a transaction, which was routed to its account.
    Routed(Outcome),
}

/// Whether the ledger can take a row: a row that holds no transaction is
/// discarded, one that holds a transaction must be admitted by the account.
pub open spec fn admits_row(accounts: Seq<AccountState>, fields: Seq<Seq<char>>) -> bool {
    match request_of_fields(fields) {
        Ok(request) => admits(accounts, request),
        Err(_) => true,
    }
}

/// What becomes of a row.
pub open spec fn outcome_of_row(accounts: Seq<AccountState>, fields: Seq<Seq<char>>) -> RecordOutcome {
    match request_of_fields(fields) {
        Ok(request) => RecordOutcome::Routed(outcome_of(accounts, request)),
        Err(reason) => RecordOutcome::Discarded(reason),
    }
}

/// The accounts after a row.
pub open spec fn after_row(accounts: Seq<AccountState>, fields: Seq<Seq<char>>) -> Seq<
    AccountState,
> {
    match request_of_fields(fields) {
        Ok(request) => applied(accounts, request),
        Err(_) => accounts,
    }
}

/// The accounts after a sequence of rows, taken in order.
pub open spec fn after_rows(accounts: Seq<AccountState>, rows: Seq<Seq<Seq<char>>>) -> Seq<
    AccountState,
>
    decreases rows.len(),
{
    if rows.len() == 0 {
        accounts
    } else {
        after_row(after_rows(accounts, rows.drop_last()), rows.last())
    }
}

/// The texts of the fields of a sequence of rows.
pub open spec fn rows_of(records: Seq<Vec<String>>) -> Seq<Seq<Seq<char>>> {
    records.map_values(|record: Vec<String>| fields_of(record@))
}

/// The accounts of all clients.
pub struct Ledger {
    accounts: Vec<ClientAccount>,
    places: HashMap<u16, usize>,
}

impl View for Ledger {
    type V = Seq<AccountState>;

    closed spec fn view(&self) -> Seq<AccountState> {
        self.accounts@.map_values(|account: ClientAccount| account@)
    }
}

impl Ledger {
    /// The index agrees with the accounts: it knows the clients that have an
    /// account, and for each the place of that account.
    pub closed spec fn well_formed(&self) -> bool {
        &&& forall|client: u16| #[trigger]
            self.places@.contains_key(client) ==> self.places@[client] < self.accounts.len()
                && self.accounts@[self.places@[client] as int].client == client
        &&& forall|i: int|
            0 <= i < self.accounts.len() ==> self.places@.contains_key(
                (#[trigger] self.accounts@[i]).client,
            ) && self.places@[self.accounts@[i].client] == i
    }

    /// In a well-formed ledger every client has one account at most, and the
    /// index gives its place.
    proof fn lemma_index(&self, client: u16)
        requires
            self.well_formed(),
        ensures
            distinct_clients(self@),
            self.places@.contains_key(client) == knows(self@, client),
            self.places@.contains_key(client) ==> is_place_of(
                self@,
                client,
                self.places@[client] as int,
            ) && place_of(self@, client) == self.places@[client],
    {
        assert forall|i: int, j: int|
            0 <= i < self@.len() && 0 <= j < self@.len() && i != j implies (#[trigger] self@[i]).client
            != (#[trigger] self@[j]).client by {
            assert(self.accounts@[i].client == self@[i].client);
            assert(self.accounts@[j].client == self@[j].client);
        }
        if self.places@.contains_key(client) {
            let place = self.places@[client] as int;
            assert(self@[place].client == client);
            assert forall|i: int| 0 <= i < place implies (#[trigger] self@[i]).client != client by {
                assert(self.accounts@[i].client == self@[i].client);
            }
            lemma_place_of(self@, client, place);
        } else if knows(self@, client) {
            let i = choose|i: int| 0 <= i < self@.len() && (#[trigger] self@[i]).client == client;
            assert(self.accounts@[i].client == client);
        }
    }

    /// In a well-formed ledger no client has two accounts.
    pub proof fn clients_are_distinct(&self)
        requires
            self.well_formed(),
        ensures
            distinct_clients(self@),
    {
        self.lemma_index(0);
    }

    /// A ledger without accounts.
    pub fn new() -> (ledger: Ledger)
        ensures
            ledger.well_formed(),
            ledger@ == Seq::<AccountState>::empty(),
    {
        let ledger = Ledger { accounts: Vec::new(), places: HashMap::new() };
        assert(ledger@ =~= Seq::<AccountState>::empty());
        ledger
    }

    /// The number of accounts.
    pub fn len(&self) -> (len: usize)
        ensures
            len == self@.len(),
    {
        self.accounts.len()
    }

    /// The account of `client`, if the client has one.
    pub fn account(&self, client: u16) -> (account: Option<&ClientAccount>)
        requires
            self.well_formed(),
        ensures
            match account {
                Some(found) => knows(self@, client) && found@ == account_for(self@, client),
                None => !knows(self@, client),
            },
    {
        proof {
            self.lemma_index(client);
        }
        match self.places.get(&client) {
            Some(place) => Some(&self.accounts[*place]),
            None => None,
        }
    }

    /// The place of the account of `client`, which is opened if the client
    /// has none.
    fn place(&mut self, client: u16) -> (place: usize)
        requires
            old(self).well_formed(),
        ensures
            final(self).well_formed(),
            final(self)@ == opened(old(self)@, client),
            final(self)@[place as int] == account_for(old(self)@, client),
            is_place_of(final(self)@, client, place as int),
    {
        proof {
            self.lemma_index(client);
        }
        match self.places.get(&client) {
            Some(place) => *place,
            None => {
                let place = self.accounts.len();
                self.accounts.push(ClientAccount::new(client));
                self.places.insert(client, place);
                proof {
                    assert(self@ =~= old(self)@.push(AccountState::fresh(client)));
                    assert forall|i: int| 0 <= i < place implies (#[trigger] self@[i]).client
                        != client by {
                        assert(self@[i] == old(self)@[i]);
                    }
                }
                place
            },
        }
    }

    /// Opens the account of `client` if the client has none, and gives the
    /// account.
    pub fn get_or_create(&mut self, client: u16) -> (account: &ClientAccount)
        requires
            old(self).well_formed(),
        ensures
            final(self).well_formed(),
            final(self)@ == opened(old(self)@, client),
            account@ == account_for(old(self)@, client),
    {
        let place = self.place(client);
        &self.accounts[place]
    }

    /// The summaries of all accounts, in the order in which the clients
    /// first appeared; `None` if the total of some account cannot be
    /// represented.
    pub fn summaries(&self) -> (summaries: Option<Vec<AccountSummary>>)
        ensures
            match summaries {
                Some(lines) => {
                    &&& lines.len() == self@.len()
                    &&& forall|i: int|
                        0 <= i < self@.len() ==> (#[trigger] self@[i]).summable() && lines@[i]@
                            == self@[i].summary()
                },
                None => exists|i: int| 0 <= i < self@.len() && !(#[trigger] self@[i]).summable(),
            },
    {
        let mut lines: Vec<AccountSummary> = Vec::new();
        let mut at: usize = 0;
        while at < self.accounts.len()
            invariant
                at <= self.accounts.len(),
                lines.len() == at,
                forall|i: int|
                    0 <= i < at ==> (#[trigger] self@[i]).summable() && lines@[i]@
                        == self@[i].summary(),
            decreases self.accounts.len() - at,
        {
            assert(self@[at as int] == self.accounts@[at as int]@);
            match self.accounts[at].summary() {
                Some(line) => lines.push(line),
                None => {
                    return None;
                },
            }
            at = at + 1;
        }
        Some(lines)
    }
}

/// Routes a transaction to the account of its client, which is opened if the
/// client has none.
pub fn process_transaction(client_accounts: &mut Ledger, transaction: ReadTransaction) -> (outcome:
    Outcome)
    requires
        old(client_accounts).well_formed(),
        admits(old(client_accounts)@, transaction@),
    ensures
        final(client_accounts).well_formed(),
        final(client_accounts)@ == applied(old(client_accounts)@, transaction@),
        outcome == outcome_of(old(client_accounts)@, transaction@),
{
    let place = client_accounts.place(transaction.client);
    let ghost ready = client_accounts@;
    proof {
        lemma_place_of(ready, transaction.client, place as int);
    }
    let outcome = client_accounts.accounts[place].apply(transaction);
    proof {
        assert(client_accounts@ =~= applied(old(client_accounts)@, transaction@));
        assert(client_accounts.accounts@[place as int].client == transaction.client);
    }
    outcome
}

/// Routes a transaction if the account of its client can take it, and leaves
/// the ledger as it is if not.
pub fn try_process_transaction(client_accounts: &mut Ledger, transaction: ReadTransaction) -> (outcome:
    Option<Outcome>)
    requires
        old(client_accounts).well_formed(),
    ensures
        final(client_accounts).well_formed(),
        match outcome {
            Some(outcome) => {
                &&& admits(old(client_accounts)@, transaction@)
                &&& final(client_accounts)@ == applied(old(client_accounts)@, transaction@)
                &&& outcome == outcome_of(old(client_accounts)@, transaction@)
            },
            None => {
                &&& !admits(old(client_accounts)@, transaction@)
                &&& final(client_accounts)@ == old(client_accounts)@
            },
        },
{
    let admitted = match client_accounts.account(transaction.client) {
        Some(account) => account.admits(&transaction),
        None => ClientAccount::new(transaction.client).admits(&transaction),
    };
    if admitted {
        Some(process_transaction(client_accounts, transaction))
    } else {
        None
    }
}

/// Reads one row and routes the transaction it holds. A row that holds none
/// is discarded. The result is `None`, and the ledger unchanged, if the row
/// holds a transaction that the account of its client cannot take.
pub fn process_record(client_accounts: &mut Ledger, record: &Vec<String>) -> (outcome: Option<
    RecordOutcome,
>)
    requires
        old(client_accounts).well_formed(),
    ensures
        final(client_accounts).well_formed(),
        match outcome {
            Some(outcome) => {
                &&& admits_row(old(client_accounts)@, fields_of(record@))
                &&& final(client_accounts)@ == after_row(old(client_accounts)@, fields_of(record@))
                &&& outcome == outcome_of_row(old(client_accounts)@, fields_of(record@))
            },
            None => {
                &&& !admits_row(old(client_accounts)@, fields_of(record@))
                &&& final(client_accounts)@ == old(client_accounts)@
            },
        },
{
    match deserialize_transaction(record) {
        Ok(transaction) => match try_process_transaction(client_accounts, transaction) {
            Some(outcome) => Some(RecordOutcome::Routed(outcome)),
            None => None,
        },
        Err(reason) => Some(RecordOutcome::Discarded(reason)),
    }
}

/// Reads and routes rows in order, up to the first row that the ledger
/// cannot take. The result says what became of each row that was taken; it
/// is as long as `records` exactly when every row was taken.
pub fn process_records(client_accounts: &mut Ledger, records: &Vec<Vec<String>>) -> (outcomes: Vec<
    RecordOutcome,
>)
    requires
        old(client_accounts).well_formed(),
    ensures
        final(client_accounts).well_formed(),
        outcomes.len() <= records.len(),
        final(client_accounts)@ == after_rows(
            old(client_accounts)@,
            rows_of(records@).take(outcomes.len() as int),
        ),
        forall|i: int|
            0 <= i < outcomes.len() ==> {
                let before = after_rows(old(client_accounts)@, rows_of(records@).take(i));
                &&& admits_row(before, #[trigger] rows_of(records@)[i])
                &&& outcomes[i] == outcome_of_row(before, rows_of(records@)[i])
            },
        outcomes.len() < records.len() ==> !admits_row(
            final(client_accounts)@,
            rows_of(records@)[outcomes.len() as int],
        ),
{
    let ghost rows = rows_of(records@);
    let mut outcomes: Vec<RecordOutcome> = Vec::new();
    let mut at: usize = 0;
    proof {
        assert(rows.take(0) =~= Seq::<Seq<Seq<char>>>::empty());
    }
    while at < records.len()
        invariant
            at <= records.len(),
            outcomes.len() == at,
            rows == rows_of(records@),
            client_accounts.well_formed(),
            client_accounts@ == after_rows(old(client_accounts)@, rows.take(at as int)),
            forall|i: int|
                0 <= i < at ==> {
                    let before = after_rows(old(client_accounts)@, rows.take(i));
                    &&& admits_row(before, #[trigger] rows[i])
                    &&& outcomes[i] == outcome_of_row(before, rows[i])
                },
        decreases records.len() - at,
    {
        proof {
            assert(rows[at as int] == fields_of(records@[at as int]@));
            assert(rows.take(at + 1).drop_last() =~= rows.take(at as int));
            assert(rows.take(at + 1).last() == rows[at as int]);
        }
        match process_record(client_accounts, &records[at]) {
            Some(outcome) => outcomes.push(outcome),
            None => {
                return outcomes;
            },
        }
        at = at + 1;
    }
    outcomes
}

} // verus!
