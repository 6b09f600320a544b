//! A prompt-enhancement service library: a line-oriented JSON-RPC dispatcher,
//! a provider gateway with retry and graceful degradation, an output
//! validation gate, and a sequential-thinking refinement engine.
//!
//! [`text`] holds the byte-level text utilities the contracts are stated
//! over; [`models`] the request-scoped data; [`validation`] the checks on
//! finished text and the confidence score; [`thinking`] the refinement
//! engine; [`llm`] the backend interface; [`gateway`] the retry and
//! degradation policy; [`usecase`] the orchestrator; [`server`] the
//! dispatcher; [`config`] the startup configuration; [`json`] the trusted
//! boundary around serde_json.
//! The host process owns the streams, the network and the environment: it
//! hands plain values in and performs what the decisions here tell it.

pub mod config;
pub mod gateway;
pub mod json;
pub mod llm;
pub mod models;
pub mod server;
pub mod text;
pub mod thinking;
pub mod usecase;
pub mod validation;

