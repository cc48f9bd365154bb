//! `suture`: the package manager of the Mentalogue language, as a verified library.
//!
//! The library holds what the `suture` tool decides and computes: the `spool.toml` format of
//! registry index entries and the `suture.toml` format of project manifests (each with a
//! proof that reading back what is written gives the same value), the layout of the registry
//! index and of a project, searching the index, and the reading of command lines. Everything
//! that touches files, processes, the environment or the network is left to the caller.

pub mod text;
pub mod order;
pub mod paths;
pub mod kv;
pub mod spool_entry;
pub mod entry_laws;
pub mod schema;
pub mod manifest_laws;
pub mod search;
pub mod cache;
pub mod fetch;
pub mod support;
pub mod commands;

pub use cache::spools_root;
pub use schema::ProjectManifest;
pub use search::{bucket_for_name, find_spool, list_spools, search_by_name, spool_path};
pub use spool_entry::{SpoolArtifact, SpoolEntry};
