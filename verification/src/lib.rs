//! Core of a minimal HTTP/1.x file server: it turns one untrusted byte
//! buffer into a bounded, validated request, maps the requested path to an
//! allow-listed document, and renders the full response bytes. The
//! transport (sockets, file reads, timeouts) lives outside and only moves
//! plain byte buffers in and out.
use vstd::prelude::*;

verus! {

pub mod bytes;
pub mod config;
pub mod encoding;
pub mod laws;
pub mod parser;
pub mod resolver;
pub mod response;

} // verus!
