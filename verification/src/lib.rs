//! Verified request, error and stream logic of the hya `/v1` server surface.

pub mod auth;
pub mod error;
pub mod events;
pub mod grpc_routes;
pub mod interactions;
pub mod provider_setup;
pub mod pty;
pub mod query;
pub mod startup;
pub mod text;
pub mod timestamp;
