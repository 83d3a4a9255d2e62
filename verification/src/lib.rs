//! A per-client account ledger: deposits, withdrawals and the dispute life
//! cycle, applied strictly in arrival order, with exact decimal balances.

pub mod amount;
pub mod text;
pub mod model;
pub mod rules;
pub mod router;
pub mod record;
pub mod ledger;
pub mod laws;
