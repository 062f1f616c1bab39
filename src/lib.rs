//! Cross-reference pipeline for tracking the status of language features:
//! a feature tree names RFCs, tracking issues, labels and stabilization PRs;
//! a persistent cache holds what the issue tracker said about them; the
//! merge step joins the two and places each stabilization on the release
//! train.

pub mod assoc;
pub mod cache;
pub mod data;
pub mod fetcher;
pub mod input;
pub mod output;
pub mod repo;
pub mod rfc;
pub mod text;
pub mod version;
