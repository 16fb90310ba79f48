//! Papra document vector indexing and search service: the verified core.
//!
//! The library holds the rules of the service: webhook signature checks and
//! payload mapping, canonical embedding input and its hashes, the decisions
//! behind every document upsert, the embedding job queue, configuration
//! parsing, request validation, the authorization policy and the decisions of
//! the search page. The program around it runs HTTP, SQLite, the embedding
//! model and metrics.

pub mod api;
pub mod auth;
pub mod config;
pub mod crypto;
pub mod embeddings;
pub mod jobs;
pub mod json;
pub mod papra_api;
pub mod secret;
pub mod storage;
pub mod telemetry;
pub mod text;
pub mod ui;
pub mod webhook;
