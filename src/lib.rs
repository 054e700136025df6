//! Backend runtime of a lightweight code editor: the language-server session
//! runtime (framing, message codec, per-language sessions and the client that
//! routes editor calls to them), plus text search, file classification,
//! version-control status grouping and the built-in plugin catalogue.

pub mod client;
pub mod codec;
pub mod framing;
pub mod fs;
pub mod git;
pub mod lsp;
pub mod plugin;
pub mod plugins;
pub mod search;
pub mod session;
pub mod text;
