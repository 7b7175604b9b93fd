//! Core of a filtering HTTPS proxy: a certificate-minting cache, a
//! message-driven filter-engine worker, a streaming HTML rewriter, an
//! exclusion store, and the configuration model that drives them.

pub mod blocker;
pub mod cert;
pub mod configuration;
pub mod digest;
pub mod engine;
pub mod exclusions;
pub mod filterlists;
pub mod proxy;
pub mod rewriter;
pub mod stats;
pub mod textutil;
pub mod web_api;
