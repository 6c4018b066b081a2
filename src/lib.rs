//! Receipt extraction over a remote document-understanding service: resolving
//! typed receipt fields from entity trees, the decisions of the credential and
//! document-submission protocol, OCR providers and their registry, and a batch
//! orchestrator with bounded concurrency and results in submission order.
pub mod auth;
pub mod batch;
pub mod decimal;
pub mod entity;
pub mod files;
pub mod order;
pub mod protocol;
pub mod provider;
pub mod receipt;
pub mod settings;
pub mod text;
