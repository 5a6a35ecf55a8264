//! Settlement core of a decentralized exchange: constant-product swap
//! pricing, liquidity minting and burning, protocol-fee accrual, and the
//! bootstrap contribution/settlement/refund state machine, over explicit
//! keyed stores and a model asset ledger.

pub mod alist;
pub mod bootstrap;
pub mod laws;
pub mod liquidity;
pub mod math;
pub mod registry;
pub mod router;
pub mod state;
pub mod types;
