//! Custodial fund-escrow state machines: a two-asset atomic-swap offer
//! protocol (make/take/refund) and a two-player stake-duel protocol
//! (create/deposit/finalize/cancel), both modelled over an explicit
//! arena of records and balances and verified end to end.

pub mod addresses;
pub mod codec;
pub mod errors;
pub mod game;
pub mod offer;
pub mod token;
