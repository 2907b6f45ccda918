//! On-demand Python environments addressed by the content of their
//! requirement set.
//!
//! The library holds the decisions: which module names a script asks for,
//! how a requirement set is fingerprinted, where an environment lives in the
//! cache, which steps build it and which command finally starts the
//! interpreter. Reading files, running subprocesses and touching the cache
//! directory are left to the caller, which reports back what happened.

pub mod digest;
pub mod extract;
pub mod fingerprint;
pub mod launch;
pub mod lifecycle;
pub mod manifest;
pub mod options;
pub mod order;
pub mod paths;
pub mod reqs;
pub mod text;
pub mod timer;
pub mod venv;
