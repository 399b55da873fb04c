//! A verified model of a subscription smart contract: accounts create paid
//! services, subscribe to them with prepaid funds, and service owners claim
//! the payments that have fallen due.
pub mod amount;
pub mod types;
pub mod billing;
pub mod collections;
pub mod state;
pub mod events;
pub mod service_spec;
pub mod service;
pub mod discount;
pub mod common_util_functions;
pub mod niftysubs_main;
pub mod laws;
