//! Compares a local tree of source components with the copies published
//! under an account of a component registry, and reports which local
//! components are new or modified.
//!
//! The work is a short pipeline: [`scan::catalog_from_files`] turns the files
//! of a source tree into a [`catalog::Catalog`]; [`flow::plan`] decides
//! whether the registry has to be asked and with which keys;
//! [`fetch::remote_catalog`] keeps what the registry answered for the owner;
//! [`diff::diff`] and [`flow::conclude`] decide what is new or modified.

pub mod catalog;
pub mod diff;
pub mod fetch;
pub mod flow;
pub mod scan;
