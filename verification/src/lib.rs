//! A guard for `rm`: it decides which of the arguments of a deletion request
//! name protected paths, drops those, and reports each one it dropped.
//!
//! The library holds the decisions; reading files, probing the filesystem and
//! running the real command are left to the program around it, which hands the
//! library what it found as plain values.

pub mod config;
pub mod diagnostic;
pub mod dispatch;
pub mod expansion;
pub mod filter;
pub mod model;
pub mod normalize;
pub mod path;
pub mod protected;
pub mod request;
