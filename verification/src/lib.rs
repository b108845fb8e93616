//! Synchronisation and caching engine of a personal-finance browser.
//!
//! The engine pulls budgets, accounts, categories and transactions from a
//! remote budgeting service, keeps the responses in a time-boxed cache, and
//! mirrors the records locally. Everything here is plain computation: the
//! caller fetches, reads the clock and persists.

pub mod components;
pub mod data_layer;
pub mod openapi;
