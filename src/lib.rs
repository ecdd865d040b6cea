//! Extraction and ingestion logic for aggregate email-authentication reports:
//! finding the report attachment of a message, decoding it into report text,
//! and the per-message decisions and shared state of an ingestion run.
pub mod config;
pub mod decode;
pub mod ingest;
pub mod locate;
pub mod text;
pub mod types;
