//! A personal trust ledger: requests owed to a user, the user's network of
//! peers, and a bounded trust score derived from both.
//!
//! The rules of the ledger are verified with Verus. Storage is modelled by
//! [`db::Store`], a set of in-memory tables with the integrity constraints of
//! the relational schema; every operation states how it changes those tables.

pub mod alerts;
pub mod auth;
pub mod db;
pub mod demo;
pub mod errors;
pub mod lookup;
pub mod models;
pub mod ranking;
pub mod requests;
pub mod text;
pub mod trust;
