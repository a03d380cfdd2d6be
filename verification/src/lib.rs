//! A small multi-user issue tracker: rows, sessions, the audit log and the
//! request handlers that work on them, with machine-checked contracts.

pub mod delta;
pub mod models;
pub mod pages;
pub mod session;
pub mod table;
pub mod text;
pub mod tracker;
pub mod validate;
