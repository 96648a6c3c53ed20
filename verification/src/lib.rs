//! The stock ledger of a small shop, and the settlement of its sales.
//!
//! Stock is never stored as a number. Every change of stock is a movement in
//! an append-only log ([`log`]), and the balance of a product is what its
//! movements add up to ([`balance`]). A sale is settled against that balance
//! ([`settlement`]): it is recorded together with the outflow that it causes,
//! or not at all, and never for more than the balance holds.
//!
//! The store in which a shop keeps its log is outside this library. The
//! settlement is therefore a protocol of actions and answers; [`store`]
//! states how a transactional store answers and proves what the protocol
//! guarantees against any such store. [`ledger`] keeps the log and the
//! sales in memory and settles by the same protocol. [`history`] holds the
//! laws of every sequence of changes: no oversell, and one outflow to every
//! sale; [`view`] is the ledger as those laws see it.
//!
//! Beside the ledger stand the login of users ([`auth`]), the report of
//! the movements as text ([`csv`]) and the defaults of the reporting
//! queries ([`queries`]).

pub mod auth;
pub mod balance;
pub mod csv;
pub mod decimal;
pub mod error;
pub mod history;
pub mod ledger;
pub mod log;
pub mod movement;
pub mod queries;
pub mod sale;
pub mod settlement;
pub mod store;
pub mod view;
