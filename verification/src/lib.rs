//! Punic: a remote cache for Carthage `.xcframework` builds.
//!
//! This crate holds the decisions of the tool: how a Punfile is read, which
//! frameworks a run works on, where archives live in the local cache and in
//! the S3 bucket, and what each step does with what it finds on disk.
//! Reading files, talking to S3 and spawning tasks is left to the caller.
pub mod text;
pub mod yaml;
pub mod punfile;
pub mod cache;
pub mod utils;
