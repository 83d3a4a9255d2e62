//! What holds of every account, proved from the rules.

use crate::amount::lemma_minus_value;
use crate::amount::lemma_plus_value;
use crate::amount::Quantity;
use crate::ledger::account_for;
use crate::ledger::after_rows;
use crate::ledger::applied;
use crate::ledger::distinct_clients;
use crate::ledger::knows;
use crate::ledger::lemma_known_has_place;
use crate::ledger::lemma_place_of;
use crate::ledger::opened;
use crate::ledger::place_of;
use crate::model::AccountState;
use crate::model::Request;
use crate::record::request_of_fields;
use vstd::prelude::*;

verus! {

impl AccountState {
    /// The state after a sequence of transactions, taken in order.
    pub open spec fn run(self, requests: Seq<Request>) -> AccountState
        decreases requests.len(),
    {
        if requests.len() == 0 {
            self
        } else {
            self.run(requests.drop_last()).apply(requests.last())
        }
    }

    /// What an accepted deposit brings in; zero for any other transaction.
    pub open spec fn deposited(self, request: Request) -> int {
        if request.kind is Deposit && self.outcome(request) is Applied {
            request.amount->0.value()
        } else {
            0
        }
    }

    /// What an accepted withdrawal takes out; zero for any other transaction.
    pub open spec fn withdrawn(self, request: Request) -> int {
        if request.kind is Withdrawal && self.outcome(request) is Applied {
            request.amount->0.value()
        } else {
            0
        }
    }

    /// What an accepted chargeback removes; zero for any other transaction.
    pub open spec fn charged_back(self, request: Request) -> int {
        if request.kind is Chargeback && self.outcome(request) is Applied {
            self.amount_of(request.tx).value()
        } else {
            0
        }
    }

    /// The sum of the deposits accepted in the course of a run.
    pub open spec fn deposits(self, requests: Seq<Request>) -> int
        decreases requests.len(),
    {
        if requests.len() == 0 {
            0
        } else {
            self.deposits(requests.drop_last()) + self.run(requests.drop_last()).deposited(
                requests.last(),
            )
        }
    }

    /// The sum of the withdrawals accepted in the course of a run.
    pub open spec fn withdrawals(self, requests: Seq<Request>) -> int
        decreases requests.len(),
    {
        if requests.len() == 0 {
            0
        } else {
            self.withdrawals(requests.drop_last()) + self.run(requests.drop_last()).withdrawn(
                requests.last(),
            )
        }
    }

    /// The sum of the amounts charged back in the course of a run.
    pub open spec fn chargebacks(self, requests: Seq<Request>) -> int
        decreases requests.len(),
    {
        if requests.len() == 0 {
            0
        } else {
            self.chargebacks(requests.drop_last()) + self.run(
                requests.drop_last(),
            ).charged_back(requests.last())
        }
    }
}

/// Whether every transaction of a sequence names its amount where it needs
/// one, with a scale within range.
pub open spec fn sound(requests: Seq<Request>) -> bool {
    forall|i: int| 0 <= i < requests.len() ==> (#[trigger] requests[i]).valid() && requests[i].complete()
}

/// A transaction keeps the scales of a valid account within range.
pub proof fn apply_keeps_valid(state: AccountState, request: Request)
    requires
        state.valid(),
        request.valid(),
        request.complete(),
    ensures
        state.apply(request).valid(),
{
    let next = state.apply(request);
    let tx = request.tx;
    if state.transactions.contains_key(tx) {
        let amount = state.amount_of(tx);
        lemma_plus_value(state.held, amount);
        lemma_minus_value(state.held, amount);
        lemma_plus_value(state.available, amount);
        lemma_minus_value(state.available, amount);
    }
    if request.amount is Some {
        lemma_plus_value(state.available, request.amount->0);
        lemma_minus_value(state.available, request.amount->0);
    }
    assert forall|other: u32| #[trigger] next.transactions.contains_key(other) implies next.transactions[other].amount.scale
        <= crate::amount::MAX_SCALE by {
        if other != tx {
            assert(state.transactions.contains_key(other));
        }
    }
}

/// One transaction changes the funds of an account, available and held
/// together, by exactly what it deposits, withdraws or charges back. A
/// dispute or a resolve only moves funds between available and held.
pub proof fn step_conserves_funds(state: AccountState, request: Request)
    requires
        state.valid(),
        request.valid(),
        request.complete(),
    ensures
        state.apply(request).total_value() == state.total_value() + state.deposited(request)
            - state.withdrawn(request) - state.charged_back(request),
{
    let tx = request.tx;
    if state.transactions.contains_key(tx) {
        let amount = state.amount_of(tx);
        lemma_plus_value(state.held, amount);
        lemma_minus_value(state.held, amount);
        lemma_plus_value(state.available, amount);
        lemma_minus_value(state.available, amount);
    }
    if request.amount is Some {
        lemma_plus_value(state.available, request.amount->0);
        lemma_minus_value(state.available, request.amount->0);
    }
}

/// A run keeps the scales of a valid account within range.
pub proof fn run_keeps_valid(start: AccountState, requests: Seq<Request>)
    requires
        start.valid(),
        sound(requests),
    ensures
        start.run(requests).valid(),
    decreases requests.len(),
{
    if requests.len() > 0 {
        let earlier = requests.drop_last();
        assert forall|i: int| 0 <= i < earlier.len() implies (#[trigger] earlier[i]).valid()
            && earlier[i].complete() by {
            assert(earlier[i] == requests[i]);
        }
        run_keeps_valid(start, earlier);
        apply_keeps_valid(start.run(earlier), requests.last());
    }
}

/// Conservation of funds: after any run, the funds of an account, available
/// and held together, are what it started with, plus the accepted deposits,
/// minus the accepted withdrawals, minus what was charged back. Disputes
/// and resolves never create or destroy funds.
pub proof fn funds_are_conserved(start: AccountState, requests: Seq<Request>)
    requires
        start.valid(),
        sound(requests),
    ensures
        start.run(requests).total_value() == start.total_value() + start.deposits(requests)
            - start.withdrawals(requests) - start.chargebacks(requests),
    decreases requests.len(),
{
    if requests.len() > 0 {
        let earlier = requests.drop_last();
        assert forall|i: int| 0 <= i < earlier.len() implies (#[trigger] earlier[i]).valid()
            && earlier[i].complete() by {
            assert(earlier[i] == requests[i]);
        }
        funds_are_conserved(start, earlier);
        run_keeps_valid(start, earlier);
        step_conserves_funds(start.run(earlier), requests.last());
    }
}

/// For an account that starts fresh, the funds after any run are the
/// accepted deposits minus the accepted withdrawals minus what was charged
/// back.
pub proof fn fresh_account_holds_net_deposits(client: u16, requests: Seq<Request>)
    requires
        sound(requests),
    ensures
        AccountState::fresh(client).run(requests).total_value() == AccountState::fresh(
            client,
        ).deposits(requests) - AccountState::fresh(client).withdrawals(requests)
            - AccountState::fresh(client).chargebacks(requests),
{
    funds_are_conserved(AccountState::fresh(client), requests);
}

/// A fresh account is consistent, and a transaction keeps an account
/// consistent: the dispute sets speak of known transactions only, and no
/// transaction is both under dispute and past it.
pub proof fn apply_keeps_consistent(state: AccountState, request: Request)
    requires
        state.consistent(),
    ensures
        state.apply(request).consistent(),
        AccountState::fresh(request.client).consistent(),
{
}

/// A consistent account never meets a dispute whose transaction is missing
/// from the history.
pub proof fn consistent_account_misses_no_transaction(state: AccountState, request: Request)
    requires
        state.consistent(),
    ensures
        !(state.outcome(request) is MissingTransaction),
{
}

/// A transaction whose dispute is over stays so, and does not come under
/// dispute again, whatever transaction follows.
pub proof fn completed_dispute_is_final(state: AccountState, request: Request, tx: u32)
    requires
        state.completed_disputes.contains(tx),
        !state.disputes.contains(tx),
    ensures
        state.apply(request).completed_disputes.contains(tx),
        !state.apply(request).disputes.contains(tx),
{
}

/// A transaction whose dispute is over stays so, and is never under dispute
/// again, in the course of any run.
pub proof fn completed_dispute_stays_final(state: AccountState, requests: Seq<Request>, tx: u32)
    requires
        state.completed_disputes.contains(tx),
        !state.disputes.contains(tx),
    ensures
        state.run(requests).completed_disputes.contains(tx),
        !state.run(requests).disputes.contains(tx),
    decreases requests.len(),
{
    if requests.len() > 0 {
        completed_dispute_stays_final(state, requests.drop_last(), tx);
        completed_dispute_is_final(state.run(requests.drop_last()), requests.last(), tx);
    }
}

/// A dispute that is accepted puts under dispute a transaction that was not;
/// a resolve or chargeback that is accepted ends the dispute. So each
/// transaction goes from recorded to disputed to completed, one step at a
/// time and never back.
pub proof fn dispute_life_cycle(state: AccountState, request: Request)
    requires
        state.outcome(request) is Applied,
    ensures
        request.kind is Dispute ==> !state.disputes.contains(request.tx)
            && !state.completed_disputes.contains(request.tx) && state.apply(
            request,
        ).disputes.contains(request.tx),
        request.kind is Resolve || request.kind is Chargeback ==> state.disputes.contains(
            request.tx,
        ) && !state.apply(request).disputes.contains(request.tx) && state.apply(
            request,
        ).completed_disputes.contains(request.tx),
        request.kind.moves_funds() ==> !state.transactions.contains_key(request.tx) && state.apply(
            request,
        ).transactions.contains_key(request.tx),
{
}

/// A locked account is frozen: no transaction changes any part of it.
pub proof fn locked_account_is_frozen(state: AccountState, request: Request)
    requires
        state.locked,
    ensures
        state.apply(request) == state,
        state.outcome(request) is AccountLocked,
{
}

/// A locked account stays as it is through any run.
pub proof fn locked_account_stays_frozen(state: AccountState, requests: Seq<Request>)
    requires
        state.locked,
    ensures
        state.run(requests) == state,
    decreases requests.len(),
{
    if requests.len() > 0 {
        locked_account_stays_frozen(state, requests.drop_last());
    }
}

/// Only an accepted chargeback locks an account.
pub proof fn only_chargeback_locks(state: AccountState, request: Request)
    requires
        !state.locked,
    ensures
        state.apply(request).locked <==> request.kind is Chargeback && state.outcome(request) is Applied,
{
}

/// The history only grows: an entry, once made, is never changed or removed.
pub proof fn history_is_append_only(state: AccountState, request: Request, tx: u32)
    requires
        state.transactions.contains_key(tx),
    ensures
        state.apply(request).transactions.contains_key(tx),
        state.apply(request).transactions[tx] == state.transactions[tx],
{
}

/// A rejected transaction changes nothing. In particular a withdrawal that
/// is not covered leaves no entry in the history, so no later dispute can
/// find it.
pub proof fn rejection_changes_nothing(state: AccountState, request: Request)
    requires
        !(state.outcome(request) is Applied),
    ensures
        state.apply(request) == state,
{
}

/// An accepted withdrawal never leaves less than nothing available.
pub proof fn withdrawal_never_overdraws(state: AccountState, request: Request)
    requires
        state.valid(),
        request.valid(),
        request.complete(),
        request.kind is Withdrawal,
        state.outcome(request) is Applied,
    ensures
        state.apply(request).available.value() >= 0,
{
    lemma_minus_value(state.available, request.amount->0);
}

/// A deposit followed by a withdrawal of the same amount, under two
/// transaction numbers that are new to the account, leaves an unlocked
/// account with nothing available and nothing held as it was: nothing
/// available, nothing held, a total of nothing, and not locked.
pub proof fn deposit_then_withdrawal_cancels(
    state: AccountState,
    deposit: Request,
    withdrawal: Request,
)
    requires
        state.valid(),
        !state.locked,
        state.available.value() == 0,
        state.held.value() == 0,
        deposit.kind is Deposit,
        withdrawal.kind is Withdrawal,
        deposit.valid(),
        deposit.amount is Some,
        withdrawal.amount == deposit.amount,
        deposit.tx != withdrawal.tx,
        !state.transactions.contains_key(deposit.tx),
        !state.transactions.contains_key(withdrawal.tx),
    ensures
        state.outcome(deposit) is Applied,
        state.apply(deposit).outcome(withdrawal) is Applied,
        state.apply(deposit).apply(withdrawal).available.value() == 0,
        state.apply(deposit).apply(withdrawal).held.value() == 0,
        state.apply(deposit).apply(withdrawal).total_value() == 0,
        !state.apply(deposit).apply(withdrawal).locked,
{
    let amount = deposit.amount->0;
    lemma_plus_value(state.available, amount);
    lemma_minus_value(state.apply(deposit).available, amount);
}

/// A transaction never changes whose account it is.
pub proof fn apply_keeps_client(state: AccountState, request: Request)
    ensures
        state.apply(request).client == state.client,
{
}

/// Two ledgers whose accounts belong to the same clients, place by place,
/// know the same clients at the same places.
proof fn same_clients_same_places(
    left: Seq<AccountState>,
    right: Seq<AccountState>,
    client: u16,
)
    requires
        left.len() == right.len(),
        forall|i: int| 0 <= i < left.len() ==> (#[trigger] left[i]).client == right[i].client,
    ensures
        knows(left, client) == knows(right, client),
        knows(left, client) ==> place_of(left, client) == place_of(right, client),
{
    if knows(left, client) {
        lemma_known_has_place(left, client);
        let place = place_of(left, client);
        assert(right[place].client == left[place].client);
        assert forall|i: int| 0 <= i < place implies (#[trigger] right[i]).client != client by {
            assert(left[i].client == right[i].client);
        }
        lemma_place_of(right, client, place);
    } else if knows(right, client) {
        let i = choose|i: int| 0 <= i < right.len() && (#[trigger] right[i]).client == client;
        assert(left[i].client == client);
    }
}

/// Opening an account for one client leaves the accounts of all others
/// where they are, and makes the client known.
proof fn opening_keeps_places(accounts: Seq<AccountState>, opening: u16, client: u16)
    ensures
        knows(opened(accounts, opening), opening),
        client != opening ==> knows(opened(accounts, opening), client) == knows(accounts, client),
        knows(accounts, client) ==> place_of(opened(accounts, opening), client) == place_of(
            accounts,
            client,
        ),
        account_for(opened(accounts, opening), client) == account_for(accounts, client)
            || client == opening,
        account_for(opened(accounts, opening), opening) == account_for(accounts, opening),
{
    let ready = opened(accounts, opening);
    if !knows(accounts, opening) {
        let last = accounts.len() as int;
        assert(ready[last].client == opening);
        assert forall|i: int| 0 <= i < last implies (#[trigger] ready[i]).client != opening by {
            assert(accounts[i] == ready[i]);
        }
        lemma_place_of(ready, opening, last);
        if knows(accounts, client) {
            lemma_known_has_place(accounts, client);
            let place = place_of(accounts, client);
            assert(ready[place] == accounts[place]);
            assert forall|i: int| 0 <= i < place implies (#[trigger] ready[i]).client != client by {
                assert(accounts[i] == ready[i]);
            }
            lemma_place_of(ready, client, place);
        } else if client != opening && knows(ready, client) {
            let i = choose|i: int| 0 <= i < ready.len() && (#[trigger] ready[i]).client == client;
            assert(accounts[i] == ready[i]);
        }
    }
}

/// Accounts do not touch each other: a transaction changes the account of
/// its own client as the rules say, and no other account.
pub proof fn accounts_are_independent(accounts: Seq<AccountState>, request: Request, client: u16)
    ensures
        account_for(applied(accounts, request), client) == (if client == request.client {
            account_for(accounts, client).apply(request)
        } else {
            account_for(accounts, client)
        }),
{
    let ready = opened(accounts, request.client);
    let next = applied(accounts, request);
    let place = place_of(ready, request.client);
    let after = account_for(accounts, request.client).apply(request);
    opening_keeps_places(accounts, request.client, client);
    lemma_known_has_place(ready, request.client);
    apply_keeps_client(account_for(accounts, request.client), request);
    assert(account_for(accounts, request.client).client == request.client) by {
        if knows(accounts, request.client) {
            lemma_known_has_place(accounts, request.client);
        }
    }
    assert forall|i: int| 0 <= i < ready.len() implies (#[trigger] next[i]).client
        == ready[i].client by {}
    same_clients_same_places(next, ready, client);
    if client != request.client && knows(accounts, client) {
        lemma_known_has_place(accounts, client);
        lemma_known_has_place(ready, client);
    }
}

/// Accounts are opened behind all others and never removed or moved: the
/// order of the accounts is the order in which the clients first appeared.
pub proof fn accounts_keep_their_order(accounts: Seq<AccountState>, request: Request)
    ensures
        applied(accounts, request).len() == (if knows(accounts, request.client) {
            accounts.len()
        } else {
            accounts.len() + 1
        }),
        forall|i: int|
            0 <= i < accounts.len() ==> (#[trigger] applied(accounts, request)[i]).client
                == accounts[i].client,
        knows(applied(accounts, request), request.client),
{
    let ready = opened(accounts, request.client);
    opening_keeps_places(accounts, request.client, request.client);
    lemma_known_has_place(ready, request.client);
    apply_keeps_client(account_for(accounts, request.client), request);
    if knows(accounts, request.client) {
        lemma_known_has_place(accounts, request.client);
    }
    let place = place_of(ready, request.client);
    assert(applied(accounts, request)[place].client == request.client);
}

/// No client ever has two accounts.
pub proof fn clients_stay_distinct(accounts: Seq<AccountState>, request: Request)
    requires
        distinct_clients(accounts),
    ensures
        distinct_clients(applied(accounts, request)),
        distinct_clients(Seq::<AccountState>::empty()),
{
    let ready = opened(accounts, request.client);
    let next = applied(accounts, request);
    opening_keeps_places(accounts, request.client, request.client);
    lemma_known_has_place(ready, request.client);
    apply_keeps_client(account_for(accounts, request.client), request);
    if knows(accounts, request.client) {
        lemma_known_has_place(accounts, request.client);
    }
    assert forall|i: int, j: int|
        0 <= i < next.len() && 0 <= j < next.len() && i != j implies (#[trigger] next[i]).client
        != (#[trigger] next[j]).client by {
        assert(next[i].client == ready[i].client);
        assert(next[j].client == ready[j].client);
        if i < accounts.len() && j < accounts.len() {
            assert(accounts[i].client != accounts[j].client);
        } else if i < accounts.len() {
            assert(accounts[i].client == ready[i].client);
        } else if j < accounts.len() {
            assert(accounts[j].client == ready[j].client);
        }
    }
}

/// The accounts after a sequence of transactions, taken in order.
pub open spec fn after_requests(accounts: Seq<AccountState>, requests: Seq<Request>) -> Seq<
    AccountState,
>
    decreases requests.len(),
{
    if requests.len() == 0 {
        accounts
    } else {
        applied(after_requests(accounts, requests.drop_last()), requests.last())
    }
}

/// The transactions of one client, in order.
pub open spec fn requests_of_client(requests: Seq<Request>, client: u16) -> Seq<Request>
    decreases requests.len(),
{
    if requests.len() == 0 {
        requests
    } else if requests.last().client == client {
        requests_of_client(requests.drop_last(), client).push(requests.last())
    } else {
        requests_of_client(requests.drop_last(), client)
    }
}

/// The transactions that a sequence of rows holds, in order.
pub open spec fn requests_of_rows(rows: Seq<Seq<Seq<char>>>) -> Seq<Request>
    decreases rows.len(),
{
    if rows.len() == 0 {
        Seq::empty()
    } else {
        match request_of_fields(rows.last()) {
            Ok(request) => requests_of_rows(rows.drop_last()).push(request),
            Err(_) => requests_of_rows(rows.drop_last()),
        }
    }
}

/// Rows that hold no transaction leave no trace: the accounts after a
/// sequence of rows are the accounts after the transactions they hold.
pub proof fn rows_act_through_their_requests(accounts: Seq<AccountState>, rows: Seq<Seq<Seq<char>>>)
    ensures
        after_rows(accounts, rows) == after_requests(accounts, requests_of_rows(rows)),
    decreases rows.len(),
{
    if rows.len() > 0 {
        rows_act_through_their_requests(accounts, rows.drop_last());
        let earlier = requests_of_rows(rows.drop_last());
        match request_of_fields(rows.last()) {
            Ok(request) => {
                assert(earlier.push(request).drop_last() =~= earlier);
            },
            Err(_) => {},
        }
    }
}

/// The account of a client after any sequence of transactions is what the
/// client's own transactions, in their order, make of the account the
/// client had before.
pub proof fn account_follows_its_own_requests(
    accounts: Seq<AccountState>,
    requests: Seq<Request>,
    client: u16,
)
    ensures
        account_for(after_requests(accounts, requests), client) == account_for(
            accounts,
            client,
        ).run(requests_of_client(requests, client)),
    decreases requests.len(),
{
    if requests.len() > 0 {
        let earlier = requests.drop_last();
        account_follows_its_own_requests(accounts, earlier, client);
        accounts_are_independent(after_requests(accounts, earlier), requests.last(), client);
        if requests.last().client == client {
            let own = requests_of_client(earlier, client);
            assert(own.push(requests.last()).drop_last() =~= own);
        }
    }
}

/// The transactions of one client are sound if all transactions are.
proof fn own_requests_are_sound(requests: Seq<Request>, client: u16)
    requires
        sound(requests),
    ensures
        sound(requests_of_client(requests, client)),
    decreases requests.len(),
{
    if requests.len() > 0 {
        let earlier = requests.drop_last();
        assert forall|i: int| 0 <= i < earlier.len() implies (#[trigger] earlier[i]).valid()
            && earlier[i].complete() by {
            assert(earlier[i] == requests[i]);
        }
        own_requests_are_sound(earlier, client);
    }
}

/// Conservation of funds, client by client: in a ledger that starts empty,
/// the funds of a client after any sequence of transactions, available and
/// held together, are the client's accepted deposits minus the client's
/// accepted withdrawals minus what was charged back to the client.
pub proof fn client_funds_are_conserved(requests: Seq<Request>, client: u16)
    requires
        sound(requests),
    ensures
        ({
            let own = requests_of_client(requests, client);
            let fresh = AccountState::fresh(client);
            account_for(after_requests(Seq::empty(), requests), client).total_value()
                == fresh.deposits(own) - fresh.withdrawals(own) - fresh.chargebacks(own)
        }),
{
    account_follows_its_own_requests(Seq::empty(), requests, client);
    own_requests_are_sound(requests, client);
    fresh_account_holds_net_deposits(client, requests_of_client(requests, client));
}

} // verus!
