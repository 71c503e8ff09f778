//! A small Gemini protocol server library: URL parsing, traversal-safe path
//! resolution, response framing, and the TLS peer-certificate acceptance
//! policy, each with a verified contract.

pub mod connection;
pub mod gemini_url;
pub mod paths;
pub mod response;
pub mod text;
pub mod tls_policy;

use vstd::prelude::*;

verus! {

/// The error kinds a connection can run into, from startup to close.
#[derive(Debug, PartialEq, Eq, Structural, Clone, Copy)]
pub enum GeminiError {
    ConfigError,
    TlsSetupError,
    AcceptError,
    HandshakeError,
    InvalidRequest,
    PathTraversal,
    NotFound,
    DisallowedExtension,
    FileReadError,
}

/// Server configuration: bind address, TLS key and certificate paths, and the
/// directory that files are served from. Built once at startup and then only
/// read.
pub struct EnvConfig {
    pub hostname: String,
    pub key_path: String,
    pub cert_path: String,
    pub server_root: String,
}

} // verus!
