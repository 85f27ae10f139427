//! Marks call and constructor expressions at module top level with a
//! `#__PURE__` annotation comment, so that bundlers can drop them when their
//! result is unused.

pub mod bytes;
pub mod helper;
pub mod ledger;
pub mod tree;
pub mod policy;
pub mod annotate;
pub mod adapter;
pub mod laws;
