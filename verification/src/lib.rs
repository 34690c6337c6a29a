//! Credential-scoped caching, failure-based rate limiting and watch-history
//! enrichment for a small streaming-statistics service.
//!
//! Everything here works on plain values; the network-facing collaborators are
//! driven by the embedding program, which feeds their answers back in.

pub mod cache;
pub mod clock;
pub mod genres;
pub mod history;
pub mod login;
pub mod models;
pub mod profile;
pub mod rate_limit;
pub mod service;
pub mod text;
