//! Ticket marketplace exchange: the ticket lifecycle state machine, reservation
//! leasing, the verification claim pool, the payment gatekeeper and the reapers,
//! with their contracts.
pub mod error;
pub mod models;
pub mod calls;
pub mod text;
pub mod exchange;
pub mod gatekeeper;
pub mod reaper;
pub mod laws;
pub mod auth;
pub mod catalog;
pub mod config;
pub mod ordering;
