//! Verified core of the salamandra file-distribution tool: the wire framing of
//! messages, the request dispatch of the server, the client registry, and the
//! decisions taken by the client while it signs in and downloads.

pub mod client;
pub mod config;
pub mod connection;
pub mod protocol;
pub mod registry;
pub mod server;
pub mod text;
