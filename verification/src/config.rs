use vstd::prelude::*;

verus! {

/// Total bytes accepted from one read of the transport. A read that fills
/// this exactly cannot be told apart from a truncated longer request, so
/// such a read is rejected outright.
pub const MAX_REQUEST_SIZE: usize = 8192;

/// Longest accepted request line, in bytes.
pub const MAX_REQUEST_LINE_LEN: usize = 1024;

/// Most header lines accepted before the blank terminator.
pub const MAX_HEADER_LINES: usize = 32;

/// Longest accepted header line, in bytes.
pub const MAX_HEADER_LINE_LEN: usize = 1024;

/// Longest accepted request path, in bytes.
pub const MAX_PATH_LEN: usize = 256;

/// Where the mandatory index document lives; read by the transport layer.
pub const INDEX_PATH: &'static str = "/opt/news/static/index.html";

/// The one stylesheet that may be served.
pub const STYLE_PATH: &'static str = "/opt/news/static/style.css";

/// Directory holding the allow-listed entry documents.
pub const ENTRIES_DIR: &'static str = "/opt/news/static/entries";

/// Address the transport binds to; the core never reads it.
pub const BIND_ADDR: &'static str = "127.0.0.1:8080";

} // verus!
