//! Verified core of a document synchronization client.
//!
//! The library keeps a directory of text documents in step with a remote
//! document service: it derives the canonical local path of every remote
//! document, detects local edits through content checksums, classifies each
//! document's synchronization status, and plans pull, push and delete actions
//! over a persisted manifest.  Everything that computes or decides lives here
//! with a contract; the surrounding I/O (network, filesystem, prompts) stays
//! in the unverified application shell.

pub mod api;
pub mod auth;
pub mod checksum;
pub mod config;
pub mod discovery;
pub mod feedback;
pub mod frontmatter;
pub mod importer;
pub mod integrity;
pub mod logger;
pub mod organic;
pub mod paths;
pub mod plan;
pub mod remote;
pub mod status;
pub mod storage;
pub mod text;
pub mod tree;
