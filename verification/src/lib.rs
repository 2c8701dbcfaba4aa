//! Invoices for a ckBTC-backed stablecoin minter: deposit accounts, invoice
//! bookkeeping, the decisions taken while a mint or a redemption is settled
//! against the ledgers, and the pieces of the BTC/USD price lookup that do
//! not talk to the network.

pub mod account;
pub mod amount;
pub mod caller_book;
pub mod decimal;
pub mod digest;
pub mod exchange;
pub mod keyed;
pub mod minter;
pub mod price;
pub mod settle;
pub mod utils;
