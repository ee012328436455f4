//! A document-mapping core: typed records bound to named collections of a
//! document store, with lazy relation resolution (`populate`) and an
//! idempotent insert-or-replace protocol (`save`) that enforces uniqueness
//! constraints and lifecycle hooks.
//!
//! The store itself is modeled by [`store::Store`], an in-memory set of named
//! collections whose operations carry exact contracts; a driver for a remote
//! document database can stand in for it outside the verified core, as long
//! as it honours the same interface.

pub mod engine;
pub mod error;
pub mod laws;
pub mod records;
pub mod registry;
pub mod relation;
pub mod schema;
pub mod store;
pub mod value;
