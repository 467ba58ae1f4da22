//! Verified core of a local package manager for shell-script projects.
//!
//! The library holds the package/dependency data model and its lifecycle
//! logic: manifest encoding and parsing, integrity verification, the
//! namespaced package store, dependency add/remove/refresh semantics, and
//! the planning of git fetch-and-checkout operations.  All filesystem,
//! network and process work is performed by the surrounding binary, which
//! feeds the results back in as plain values.

pub mod codec;
pub mod dependency;
pub mod errors;
pub mod gitplan;
pub mod localops;
pub mod manifest;
pub mod program;
pub mod scaffold;
pub mod shell;
pub mod store;
pub mod strutil;

pub use errors::IntegrityPart;
pub use errors::SpmError;
