//! Per-tenant durable key-value storage behind a lazily populated directory,
//! and the webhook services that feed it.
//!
//! Every chat is a tenant with a storage engine of its own, opened on first
//! use below a common base directory.
//!
//! - [`storage`] holds the engine contract, a durable map from text keys to
//!   text values, and its backend on a sled database.
//! - [`router`] holds the directory from tenants to engines and the ingest
//!   path that records one inbound event in the engine of its chat.
//! - [`telegram`] holds the schema of inbound events and the calls that
//!   send a message back.
//! - [`common`] holds requests and replies as plain values, the interface of
//!   a service, and the health check in front of one.
//! - [`webhook`] and [`service`] are the two webhook endpoints, [`config`]
//!   the settings they start from.
//! - [`json`] and [`text`] are the helpers below them.
//!
//! The library decides and keeps state; reading requests from the network
//! and sending messages to it is left to the program around it.

pub mod common;
pub mod config;
pub mod json;
pub mod router;
pub mod service;
pub mod storage;
pub mod telegram;
pub mod text;
pub mod webhook;
