//! Core of an over-the-air (OTA) firmware update orchestrator.
//!
//! The library owns the logic of the control plane: the job state machine
//! and its store, the dispatch decision, the reconciliation of device
//! status reports, bearer-token authorization, artifact-name validation,
//! and the wire formats exchanged with the message bus and the token
//! service. The surrounding process (HTTP server, MQTT client, file
//! system) lives outside and hands this library plain values.

pub mod artifact;
pub mod auth;
pub mod codec;
pub mod job;
pub mod reconcile;
pub mod sink;
pub mod store;
pub mod strutil;
pub mod sys;
pub mod token_service;
pub mod topic;
