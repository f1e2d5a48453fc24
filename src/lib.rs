//! Asset accounting for a fungible token ledger and a registry of
//! non-fungible event passes, with the two-phase transfer protocol that
//! notifies a receiver and reconciles on its answer.
pub mod error;
pub mod events;
pub mod fungible;
pub mod game;
pub mod ids;
pub mod laws;
pub mod ledger;
pub mod market;
pub mod nft;
pub mod nft_views;
pub mod table;
