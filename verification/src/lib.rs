//! Verified core of an SSH-over-MCP gateway.

pub mod admin;
pub mod audit;
pub mod channel;
pub mod clock;
pub mod commands;
pub mod crypto;
pub mod error;
pub mod files;
pub mod ids;
pub mod ingest;
pub mod job;
pub mod models;
pub mod params;
pub mod policy;
pub mod ports;
pub mod ratelimit;
pub mod registry;
pub mod service;
pub mod session;
pub mod sshkey;
pub mod state;
pub mod store;
pub mod text;
pub mod tools;
