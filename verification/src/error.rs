//! Error kinds surfaced by the core.

use vstd::prelude::*;

verus! {

/// Errors raised by the socket session and the components around it.
#[derive(Debug, Clone)]
pub enum SocketError {
    /// Transport handshake failed.
    ConnectionFailed(String),
    /// An emit was attempted without a live transport.
    NotConnected,
    /// The transport refused an outbound frame.
    EmitFailed(String),
    /// `emit_with_ack` deadline exceeded.
    AckTimeout,
    /// A server address could not be turned into an endpoint URL.
    InvalidUrl(String),
    /// A payload could not be serialized.
    SerializationError(String),
    /// Certificate parse or bundle assembly failed.
    TlsError(String),
    /// Passthrough from file reading.
    IoError(String),
    /// A key/value or pub/sub call against the directory failed.
    RegistryError(String),
    /// An identifier that becomes a path segment was rejected.
    InvalidInput(String),
}

impl SocketError {
    /// A short stable name for the error kind, for log lines.
    pub fn kind(&self) -> (r: &'static str)
        ensures
            r@ == self.kind_spec(),
    {
        match self {
            SocketError::ConnectionFailed(_) => "connection_failed",
            SocketError::NotConnected => "not_connected",
            SocketError::EmitFailed(_) => "emit_failed",
            SocketError::AckTimeout => "ack_timeout",
            SocketError::InvalidUrl(_) => "invalid_url",
            SocketError::SerializationError(_) => "serialization_error",
            SocketError::TlsError(_) => "tls_error",
            SocketError::IoError(_) => "io_error",
            SocketError::RegistryError(_) => "registry_error",
            SocketError::InvalidInput(_) => "invalid_input",
        }
    }

    pub open spec fn kind_spec(&self) -> Seq<char> {
        match self {
            SocketError::ConnectionFailed(_) => "connection_failed"@,
            SocketError::NotConnected => "not_connected"@,
            SocketError::EmitFailed(_) => "emit_failed"@,
            SocketError::AckTimeout => "ack_timeout"@,
            SocketError::InvalidUrl(_) => "invalid_url"@,
            SocketError::SerializationError(_) => "serialization_error"@,
            SocketError::TlsError(_) => "tls_error"@,
            SocketError::IoError(_) => "io_error"@,
            SocketError::RegistryError(_) => "registry_error"@,
            SocketError::InvalidInput(_) => "invalid_input"@,
        }
    }
}

} // verus!
