//! Transport layer of an agent server: per-connection message routing, the HTTP
//! endpoints in front of it, and the sign-in flow for remote tool servers.

pub mod channel;
pub mod connection;
pub mod decimal;
pub mod http;
pub mod json;
pub mod keyed_list;
pub mod laws;
pub mod oauth;
pub mod registry;
pub mod reply;
pub mod routes;
pub mod schema_refs;
pub mod sse;
pub mod stream;
pub mod template;
