//! Name-to-address records derived from cluster Services and Ingresses.
pub mod compact;
pub mod config;
pub mod error;
pub mod ingresses_stream;
pub mod name;
pub mod record;
pub mod render;
pub mod resource;
pub mod sequences;
pub mod services_stream;
