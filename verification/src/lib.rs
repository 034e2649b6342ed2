//! Verified logic of two decentralised-finance pallets: an automatic market
//! maker and a pool-based lending protocol.
//!
//! The library decides what a dispatch does to the stored state, which calls
//! it asks of the currency ledger, which event it emits and which error it
//! refuses with. Reading storage, moving funds and asking the price oracle is
//! left to the surrounding runtime.

pub mod amm;
pub mod arithmetic;
pub mod loans;
pub mod primitives;
pub mod storage;
pub mod substrate;

