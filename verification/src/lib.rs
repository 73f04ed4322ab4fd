//! Verified core of a semantic memory server: text normalisation, chunking,
//! metadata sanitisation, payload and filter construction, summarisation helpers
//! and request validation.

pub mod text;
pub mod decimal;
pub mod config;
pub mod chunking;
pub mod metrics;
pub mod sanitize;
pub mod hashing;
pub mod mappers;
pub mod json;
pub mod qdrant;
pub mod strset;
pub mod processing;
pub mod embedding;
pub mod summarize;
pub mod summarization;
pub mod summary_pipeline;
pub mod tools;
pub mod schemas;
pub mod catalog;
pub mod server;
pub mod client;
pub mod reports;
pub mod churn;
