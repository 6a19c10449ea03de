//! A small verified core for an interactive HTTP/HTTPS request tool.
//!
//! The library covers the logic of the tool: classifying a raw URL-like
//! string into a structured target (scheme, host, port, path), deriving the
//! connection string and the establishment plan for a transport, building
//! HTTP/1.1 request text, an in-memory duplex stream model with a uniform
//! read/write/flush interface, and menu-selection parsing.  The surrounding
//! process (sockets, TLS, standard input and output) lives outside the
//! library and only hands plain values in and out.

pub mod connect;
pub mod errors;
pub mod menu;
pub mod numbers;
pub mod request;
pub mod text;
pub mod transport;
pub mod url;
