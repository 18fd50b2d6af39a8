//! Domain filtering, DNS-over-HTTPS request handling and the decisions of a
//! filtering DNS forwarder.

pub mod text;
pub mod filter;
pub mod doh;
pub mod handler;
pub mod config;
pub mod server;
