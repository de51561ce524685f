//! Core logic of a version manager for the Bun runtime binary.
//!
//! The library holds everything the tool decides or computes: version-string
//! normalization, the platform identifier, release URLs, the classification
//! of download outcomes, the scan of a release archive for the runtime
//! binary, the version-store bookkeeping, and the step-by-step `use`
//! workflow. Reading directories, talking to the network and copying files
//! are left to the thin executable around the library, which feeds plain
//! values in and carries actions out.

pub mod archive;
pub mod cli;
pub mod error;
pub mod platform;
pub mod store;
pub mod remote;
pub mod text;
pub mod version;
pub mod workflow;
