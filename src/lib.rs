//! Host-side library for the Faderpunk controller: message schema, its
//! positional binary codec, byte-stuffed framing, and the request/response
//! protocol, with the helpers that the command-line tool builds on.

pub mod protocol;
pub mod wire;
pub mod schema;
pub mod codec;
pub mod frame;
pub mod session;
pub mod display;
pub mod text;
pub mod cli;
pub mod transport;
pub mod layout;
pub mod params;
